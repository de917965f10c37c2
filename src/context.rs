//! The frames of the structural stack.

use vstd::prelude::*;

verus! {

/// One frame of the structural stack: what kind of token is expected next.
#[derive(Debug, Clone, Copy, PartialEq, Eq, Structural)]
pub enum JsonContext {
    Root,
    Object,
    Array,
    DoubleQuoteProperty,
    SingleQuoteProperty,
    DoubleQuoteValue,
    SingleQuoteValue,
    Colon,
}

/// A quoted value is being read.
pub open spec fn ctx_is_value(c: JsonContext) -> bool {
    c == JsonContext::DoubleQuoteValue || c == JsonContext::SingleQuoteValue
}

/// A quoted key is being read.
pub open spec fn ctx_is_key(c: JsonContext) -> bool {
    c == JsonContext::DoubleQuoteProperty || c == JsonContext::SingleQuoteProperty
}

/// The frame's name, for messages.
pub open spec fn context_name(c: JsonContext) -> Seq<char> {
    match c {
        JsonContext::Root => "Root"@,
        JsonContext::Object => "Object"@,
        JsonContext::Array => "Array"@,
        JsonContext::DoubleQuoteProperty => "DoubleQuoteProperty"@,
        JsonContext::SingleQuoteProperty => "SingleQuoteProperty"@,
        JsonContext::DoubleQuoteValue => "DoubleQuoteValue"@,
        JsonContext::SingleQuoteValue => "SingleQuoteValue"@,
        JsonContext::Colon => "Colon"@,
    }
}

impl JsonContext {
    /// The frame's name, for messages.
    pub fn name(&self) -> (r: &'static str)
        ensures
            r@ == context_name(*self),
    {
        match self {
            JsonContext::Root => "Root",
            JsonContext::Object => "Object",
            JsonContext::Array => "Array",
            JsonContext::DoubleQuoteProperty => "DoubleQuoteProperty",
            JsonContext::SingleQuoteProperty => "SingleQuoteProperty",
            JsonContext::DoubleQuoteValue => "DoubleQuoteValue",
            JsonContext::SingleQuoteValue => "SingleQuoteValue",
            JsonContext::Colon => "Colon",
        }
    }

    pub fn is_value(&self) -> (r: bool)
        ensures
            r == ctx_is_value(*self),
    {
        *self == JsonContext::DoubleQuoteValue || *self == JsonContext::SingleQuoteValue
    }

    pub fn is_key(&self) -> (r: bool)
        ensures
            r == ctx_is_key(*self),
    {
        *self == JsonContext::DoubleQuoteProperty || *self == JsonContext::SingleQuoteProperty
    }
}

} // verus!
