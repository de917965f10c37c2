//! A forgiving JSON reader: it rewrites almost-JSON text into strict JSON
//! with a character-driven state machine, then hands the result to a strict
//! JSON parser.

pub mod text;
pub mod context;
pub mod state;
pub mod handlers;
pub mod strategies;
pub mod strict;
pub mod close;
pub mod parser;
pub mod laws;

pub use context::JsonContext;
pub use parser::{FuzzyJsonError, FuzzyJsonParser, FuzzyJsonParserBuilder, ParserOptions};
pub use state::ParseState;
pub use strict::JsonValue;
