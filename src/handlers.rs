//! Handlers: each recognises a well-formed token at the cursor and rewrites
//! it into the output, adjusting the context stack.

use vstd::prelude::*;
use crate::context::{JsonContext, ctx_is_key, ctx_is_value};
use crate::state::{
    ParseState, StateView, adv, ahead, cur, cur_is, emit, newline_escape, pop, push, skip_blank, skip_ws,
    state_wf, top, lemma_skip_blank_bounds,
};
use crate::text::{is_ascii_ws, is_ascii_ws_char, is_ws, is_ws_char, matches_at, text_at};

verus! {

pub open spec fn word_true() -> Seq<char> {
    seq!['t', 'r', 'u', 'e']
}

pub open spec fn word_false() -> Seq<char> {
    seq!['f', 'a', 'l', 's', 'e']
}

pub open spec fn word_null() -> Seq<char> {
    seq!['n', 'u', 'l', 'l']
}

pub open spec fn word_undefined() -> Seq<char> {
    seq!['u', 'n', 'd', 'e', 'f', 'i', 'n', 'e', 'd']
}

pub open spec fn is_digit(c: char) -> bool {
    '0' <= c <= '9'
}

pub open spec fn is_letter(c: char) -> bool {
    ('a' <= c <= 'z') || ('A' <= c <= 'Z')
}

/// May start an unquoted key.
pub open spec fn key_start_char(c: char) -> bool {
    is_letter(c) || c == '_'
}

/// May continue an unquoted key.
pub open spec fn key_char(c: char) -> bool {
    key_start_char(c) || is_digit(c)
}

/// May occur in a numeric lexeme.
pub open spec fn number_char(c: char) -> bool {
    is_digit(c) || c == '-' || c == '+' || c == '.' || c == 'e' || c == 'E'
}

/// The value context opened by quote character `q`.
pub open spec fn value_ctx(q: char) -> JsonContext {
    if q == '"' {
        JsonContext::DoubleQuoteValue
    } else {
        JsonContext::SingleQuoteValue
    }
}

/// The key context opened by quote character `q`.
pub open spec fn key_ctx(q: char) -> JsonContext {
    if q == '"' {
        JsonContext::DoubleQuoteProperty
    } else {
        JsonContext::SingleQuoteProperty
    }
}

/// Copies a quoted run that ends at quote `q` onto `acc`, from `pos` on:
/// escape pairs are kept, `"` inside a single-quoted run is escaped, and the
/// closing quote is written as `"`. Returns the position after the run, the
/// output, and whether the closing quote was found.
pub open spec fn scan_quoted(input: Seq<char>, pos: int, q: char, acc: Seq<char>) -> (int, Seq<char>, bool)
    decreases input.len() - pos,
{
    if pos < 0 || pos >= input.len() {
        (pos, acc, false)
    } else if input[pos] == q {
        (pos + 1, acc.push('"'), true)
    } else if input[pos] == '\\' {
        if pos + 1 < input.len() {
            scan_quoted(input, pos + 2, q, acc.push('\\').push(input[pos + 1]))
        } else {
            (pos + 1, acc.push('\\'), false)
        }
    } else if q == '\'' && input[pos] == '"' {
        scan_quoted(input, pos + 1, q, acc.push('\\').push('"'))
    } else {
        scan_quoted(input, pos + 1, q, acc.push(input[pos]))
    }
}

/// The end of the numeric lexeme that starts at `pos`.
pub open spec fn scan_number(input: Seq<char>, pos: int) -> int
    decreases input.len() - pos,
{
    if 0 <= pos < input.len() && number_char(input[pos]) {
        scan_number(input, pos + 1)
    } else {
        pos
    }
}

/// Copies an identifier onto `acc` from `pos` on, and a closing `"` if a
/// character that ends it follows.
pub open spec fn scan_key(input: Seq<char>, pos: int, acc: Seq<char>) -> (int, Seq<char>)
    decreases input.len() - pos,
{
    if pos < 0 || pos >= input.len() {
        (pos, acc)
    } else if key_char(input[pos]) {
        scan_key(input, pos + 1, acc.push(input[pos]))
    } else {
        (pos, acc.push('"'))
    }
}

// ----- whitespace -----
pub open spec fn whitespace_applies(s: StateView) -> bool {
    (cur(s) is Some && is_ascii_ws(cur(s)->0)) || ahead(s, newline_escape())
}

pub open spec fn whitespace_step(s: StateView) -> StateView {
    adv(s, skip_blank(s.input, s.pos) - s.pos)
}

// ----- literals -----
pub open spec fn literal_applies(s: StateView) -> bool {
    let p = skip_ws(s.input, s.pos);
    &&& (top(s) == JsonContext::Array || top(s) == JsonContext::Colon || ctx_is_key(top(s)))
    &&& (text_at(s.input, p, word_true()) || text_at(s.input, p, word_false()) || text_at(
        s.input,
        p,
        word_null(),
    ) || text_at(s.input, p, word_undefined()))
}

pub open spec fn literal_step(s: StateView) -> StateView {
    let s1 = if ahead(s, word_true()) {
        emit(adv(s, 4), word_true())
    } else if ahead(s, word_false()) {
        emit(adv(s, 5), word_false())
    } else if ahead(s, word_null()) {
        emit(adv(s, 4), word_null())
    } else if ahead(s, word_undefined()) {
        emit(adv(s, 9), word_null())
    } else {
        s
    };
    if top(s1) != JsonContext::Array {
        pop(s1)
    } else {
        s1
    }
}

// ----- colon -----
pub open spec fn colon_applies(s: StateView) -> bool {
    cur_is(s, ':')
}

pub open spec fn colon_step(s: StateView) -> StateView {
    let s1 = if ctx_is_key(top(s)) {
        push(pop(s), JsonContext::Colon)
    } else {
        s
    };
    let s2 = if cur_is(s1, ':') {
        emit(adv(s1, 1), seq![':'])
    } else {
        s1
    };
    adv(s2, skip_blank(s2.input, s2.pos) - s2.pos)
}

// ----- comma -----
pub open spec fn comma_applies(s: StateView) -> bool {
    cur_is(s, ',')
}

pub open spec fn comma_step(s: StateView) -> StateView {
    let s1 = adv(s, 1);
    let s2 = adv(s1, skip_blank(s1.input, s1.pos) - s1.pos);
    if cur_is(s2, '}') {
        pop(adv(emit(s2, seq!['}']), 1))
    } else {
        emit(s2, seq![','])
    }
}

// ----- strings -----
pub open spec fn string_applies(s: StateView) -> bool {
    ||| ((top(s) == JsonContext::SingleQuoteValue || top(s) == JsonContext::SingleQuoteProperty)
        && cur_is(s, '\''))
    ||| ((top(s) == JsonContext::DoubleQuoteValue || top(s) == JsonContext::DoubleQuoteProperty)
        && cur_is(s, '"'))
    ||| (!(ctx_is_key(top(s)) || ctx_is_value(top(s))) && (cur_is(s, '"') || cur_is(s, '\'')))
}

/// The stack after a quote `q` opens a string in context `s`.
pub open spec fn string_open(s: StateView, q: char) -> StateView {
    let t = top(s);
    if t == JsonContext::Colon {
        push(pop(s), value_ctx(q))
    } else if ctx_is_key(t) {
        s
    } else if t == JsonContext::Array {
        push(s, value_ctx(q))
    } else {
        push(s, key_ctx(q))
    }
}

pub open spec fn string_step(s: StateView) -> StateView {
    let q = cur(s)->0;
    let s1 = string_open(adv(emit(s, seq!['"']), 1), q);
    let r = scan_quoted(s1.input, s1.pos, q, s1.output);
    let s2 = StateView { pos: r.0, output: r.1, ..s1 };
    if r.2 && ctx_is_value(top(s2)) {
        pop(s2)
    } else {
        s2
    }
}

// ----- numbers -----
pub open spec fn number_applies(s: StateView) -> bool {
    cur(s) is Some && (is_digit(cur(s)->0) || cur(s)->0 == '-')
}

pub open spec fn number_open(s: StateView) -> StateView {
    let t = top(s);
    if t == JsonContext::Colon {
        push(pop(s), JsonContext::DoubleQuoteValue)
    } else if ctx_is_key(t) {
        emit(push(pop(s), JsonContext::DoubleQuoteValue), seq![':'])
    } else if t == JsonContext::Array {
        push(s, JsonContext::DoubleQuoteValue)
    } else {
        emit(push(s, JsonContext::DoubleQuoteProperty), seq!['"'])
    }
}

/// The number's key context is closed when the input ends or whitespace,
/// `:` or `}` follows.
pub open spec fn number_key_ends(s: StateView) -> bool {
    cur(s) is None || is_ws(cur(s)->0) || cur(s)->0 == ':' || cur(s)->0 == '}'
}

pub open spec fn number_step(s: StateView) -> StateView {
    let s1 = number_open(s);
    let e = scan_number(s1.input, s1.pos);
    let s2 = emit(adv(s1, e - s1.pos), s1.input.subrange(s1.pos, e));
    if top(s2) == JsonContext::DoubleQuoteValue {
        pop(s2)
    } else if top(s2) == JsonContext::DoubleQuoteProperty && number_key_ends(s2) {
        emit(s2, seq!['"'])
    } else {
        s2
    }
}

// ----- objects and arrays -----
pub open spec fn object_applies(s: StateView) -> bool {
    cur_is(s, '{') || (top(s) != JsonContext::Root && cur_is(s, '}'))
}

pub open spec fn leave_colon(s: StateView) -> StateView {
    if top(s) == JsonContext::Colon {
        pop(s)
    } else {
        s
    }
}

pub open spec fn object_step(s: StateView) -> StateView {
    let s1 = leave_colon(s);
    if cur_is(s1, '{') {
        push(adv(emit(s1, seq!['{']), 1), JsonContext::Object)
    } else if cur_is(s1, '}') {
        adv(pop(emit(s1, seq!['}'])), 1)
    } else {
        s1
    }
}

pub open spec fn array_applies(s: StateView) -> bool {
    cur_is(s, '[') || cur_is(s, ']')
}

pub open spec fn array_step(s: StateView) -> StateView {
    let s1 = leave_colon(s);
    if cur_is(s1, '[') {
        push(adv(emit(s1, seq!['[']), 1), JsonContext::Array)
    } else if cur_is(s1, ']') {
        adv(pop(emit(s1, seq![']'])), 1)
    } else {
        s1
    }
}

// ----- unquoted keys -----
pub open spec fn unquoted_key_applies(s: StateView) -> bool {
    top(s) == JsonContext::Object && cur(s) is Some && key_start_char(cur(s)->0)
}

pub open spec fn unquoted_key_step(s: StateView) -> StateView {
    let s1 = emit(push(s, JsonContext::DoubleQuoteProperty), seq!['"']);
    let r = scan_key(s1.input, s1.pos, s1.output);
    StateView { pos: r.0, output: r.1, ..s1 }
}


pub fn is_digit_char(c: char) -> (r: bool)
    ensures
        r == is_digit(c),
{
    '0' <= c && c <= '9'
}

pub fn is_key_start(c: char) -> (r: bool)
    ensures
        r == key_start_char(c),
{
    ('a' <= c && c <= 'z') || ('A' <= c && c <= 'Z') || c == '_'
}

pub fn is_key_char(c: char) -> (r: bool)
    ensures
        r == key_char(c),
{
    is_key_start(c) || is_digit_char(c)
}

pub fn is_number_char(c: char) -> (r: bool)
    ensures
        r == number_char(c),
{
    is_digit_char(c) || c == '-' || c == '+' || c == '.' || c == 'e' || c == 'E'
}

/// Discards runs of whitespace and backslash-`n` pairs.
pub struct WhitespaceHandler;

impl WhitespaceHandler {
    pub fn can_handle(&self, state: &ParseState) -> (r: bool)
        ensures
            r == whitespace_applies(state@),
    {
        match state.current_char() {
            Some(c) => is_ascii_ws_char(c) || state.looking_at(&vec!['\\', 'n']),
            None => state.looking_at(&vec!['\\', 'n']),
        }
    }

    pub fn handle(&self, state: &mut ParseState)
        requires
            old(state).wf(),
        ensures
            final(state)@ == whitespace_step(old(state)@),
            final(state).wf(),
    {
        state.skip_blank();
    }
}

/// Rewrites `true`, `false`, `null` and `undefined` (as `null`).
pub struct LiteralHandler;

impl LiteralHandler {
    pub fn can_handle(&self, state: &ParseState) -> (r: bool)
        requires
            state.wf(),
        ensures
            r == literal_applies(state@),
    {
        let t = state.current_context();
        if !(t == JsonContext::Array || t == JsonContext::Colon || t.is_key()) {
            return false;
        }
        let p = crate::state::skip_ws_from(&state.input, state.position);
        matches_at(&state.input, p, &vec!['t', 'r', 'u', 'e']) || matches_at(
            &state.input,
            p,
            &vec!['f', 'a', 'l', 's', 'e'],
        ) || matches_at(&state.input, p, &vec!['n', 'u', 'l', 'l']) || matches_at(
            &state.input,
            p,
            &vec!['u', 'n', 'd', 'e', 'f', 'i', 'n', 'e', 'd'],
        )
    }

    pub fn handle(&self, state: &mut ParseState)
        requires
            old(state).wf(),
        ensures
            final(state)@ == literal_step(old(state)@),
            final(state).wf(),
    {
        let w_true = vec!['t', 'r', 'u', 'e'];
        let w_false = vec!['f', 'a', 'l', 's', 'e'];
        let w_null = vec!['n', 'u', 'l', 'l'];
        let w_undefined = vec!['u', 'n', 'd', 'e', 'f', 'i', 'n', 'e', 'd'];
        if state.looking_at(&w_true) {
            state.skip(4);
            state.emit_all(&w_true);
        } else if state.looking_at(&w_false) {
            state.skip(5);
            state.emit_all(&w_false);
        } else if state.looking_at(&w_null) {
            state.skip(4);
            state.emit_all(&w_null);
        } else if state.looking_at(&w_undefined) {
            state.skip(9);
            state.emit_all(&w_null);
        }
        if state.current_context() != JsonContext::Array {
            state.pop_context();
        }
    }
}

/// Rewrites `:` and turns a key context into the colon context.
pub struct ColonHandler;

impl ColonHandler {
    pub fn can_handle(&self, state: &ParseState) -> (r: bool)
        ensures
            r == colon_applies(state@),
    {
        state.at_char(':')
    }

    pub fn handle(&self, state: &mut ParseState)
        requires
            old(state).wf(),
        ensures
            final(state)@ == colon_step(old(state)@),
            final(state).wf(),
    {
        if state.is_prop() {
            state.pop_context();
            state.push_context(JsonContext::Colon);
        }
        if state.at_char(':') {
            state.skip(1);
            state.emit_char(':');
        }
        state.skip_blank();
    }
}

/// Rewrites `,`, dropping one that stands right before `}`.
pub struct CommaHandler;

impl CommaHandler {
    pub fn can_handle(&self, state: &ParseState) -> (r: bool)
        ensures
            r == comma_applies(state@),
    {
        state.at_char(',')
    }

    pub fn handle(&self, state: &mut ParseState)
        requires
            old(state).wf(),
            comma_applies(old(state)@),
        ensures
            final(state)@ == comma_step(old(state)@),
            final(state).wf(),
    {
        state.skip(1);
        state.skip_blank();
        if state.at_char('}') {
            state.emit_char('}');
            state.skip(1);
            state.pop_context();
        } else {
            state.emit_char(',');
        }
    }
}

/// Copies a quoted string in either quote style, writing it with `"`.
pub struct StringHandler;

impl StringHandler {
    pub fn can_handle(&self, state: &ParseState) -> (r: bool)
        ensures
            r == string_applies(state@),
    {
        (state.is_sq_key_or_value() && state.at_char('\'')) || (state.is_dq_key_or_value()
            && state.at_char('"')) || (!state.is_key_or_value() && (state.at_char('"')
            || state.at_char('\'')))
    }

    pub fn handle(&self, state: &mut ParseState)
        requires
            old(state).wf(),
            string_applies(old(state)@),
        ensures
            final(state)@ == string_step(old(state)@),
            final(state).wf(),
    {
        let q = state.input[state.position];
        state.emit_char('"');
        state.skip(1);
        let t = state.current_context();
        let value = if q == '"' {
            JsonContext::DoubleQuoteValue
        } else {
            JsonContext::SingleQuoteValue
        };
        if t == JsonContext::Colon {
            state.pop_context();
            state.push_context(value);
        } else if t.is_key() {
        } else if t == JsonContext::Array {
            state.push_context(value);
        } else {
            state.push_context(
                if q == '"' {
                    JsonContext::DoubleQuoteProperty
                } else {
                    JsonContext::SingleQuoteProperty
                },
            );
        }
        let ghost s1 = state@;
        let ghost r = scan_quoted(s1.input, s1.pos, q, s1.output);
        let mut closed = false;
        loop
            invariant_except_break
                !closed,
                scan_quoted(state@.input, state@.pos, q, state@.output) == r,
            invariant
                state.wf(),
                state@.input == s1.input,
                state@.stack == s1.stack,
            ensures
                state.wf(),
                state@.input == s1.input,
                state@.stack == s1.stack,
                r == (state@.pos, state@.output, closed),
            decreases state.input.len() - state.position,
        {
            if state.position >= state.input.len() {
                break;
            }
            let ch = state.input[state.position];
            let ghost out0 = state@.output;
            if ch == q {
                state.emit_char('"');
                state.skip(1);
                closed = true;
                assert(state@.output =~= out0.push('"'));
                break;
            }
            if ch == '\\' {
                state.emit_char('\\');
                state.skip(1);
                if state.position < state.input.len() {
                    let escaped = state.input[state.position];
                    state.emit_char(escaped);
                    state.skip(1);
                    assert(state@.output =~= out0.push('\\').push(escaped));
                } else {
                    assert(state@.output =~= out0.push('\\'));
                }
            } else if q == '\'' && ch == '"' {
                state.emit_char('\\');
                state.emit_char('"');
                state.skip(1);
                assert(state@.output =~= out0.push('\\').push('"'));
            } else {
                state.emit_char(ch);
                state.skip(1);
                assert(state@.output =~= out0.push(ch));
            }
        }
        if closed && state.is_value() {
            state.pop_context();
        }
    }
}

/// Copies a numeric lexeme, opening and closing contexts around it.
pub struct NumberHandler;

impl NumberHandler {
    pub fn can_handle(&self, state: &ParseState) -> (r: bool)
        ensures
            r == number_applies(state@),
    {
        match state.current_char() {
            Some(c) => is_digit_char(c) || c == '-',
            None => false,
        }
    }

    pub fn handle(&self, state: &mut ParseState)
        requires
            old(state).wf(),
        ensures
            final(state)@ == number_step(old(state)@),
            final(state).wf(),
    {
        let t = state.current_context();
        if t == JsonContext::Colon {
            state.pop_context();
            state.push_context(JsonContext::DoubleQuoteValue);
        } else if t.is_key() {
            state.pop_context();
            state.push_context(JsonContext::DoubleQuoteValue);
            state.emit_char(':');
        } else if t == JsonContext::Array {
            state.push_context(JsonContext::DoubleQuoteValue);
        } else {
            state.push_context(JsonContext::DoubleQuoteProperty);
            state.emit_char('"');
        }
        let ghost s1 = state@;
        while state.position < state.input.len() && is_number_char(state.input[state.position])
            invariant
                state.wf(),
                state@.input == s1.input,
                state@.stack == s1.stack,
                0 <= s1.pos <= state@.pos,
                state@.output == s1.output + s1.input.subrange(s1.pos, state@.pos),
                scan_number(s1.input, state@.pos) == scan_number(s1.input, s1.pos),
            decreases state.input.len() - state.position,
        {
            let ch = state.input[state.position];
            let ghost p0 = state@.pos;
            state.emit_char(ch);
            state.skip(1);
            assert(s1.input.subrange(s1.pos, p0 + 1) =~= s1.input.subrange(s1.pos, p0).push(ch));
            assert(state@.output =~= s1.output + s1.input.subrange(s1.pos, state@.pos));
        }
        let t2 = state.current_context();
        if t2 == JsonContext::DoubleQuoteValue {
            state.pop_context();
        } else if t2 == JsonContext::DoubleQuoteProperty {
            let ends = match state.current_char() {
                Some(c) => is_ws_char(c) || c == ':' || c == '}',
                None => true,
            };
            if ends {
                state.emit_char('"');
            }
        }
    }
}

/// Rewrites `{`, and `}` when a frame is open.
pub struct ObjectHandler;

impl ObjectHandler {
    pub fn can_handle(&self, state: &ParseState) -> (r: bool)
        ensures
            r == object_applies(state@),
    {
        state.at_char('{') || (state.current_context() != JsonContext::Root && state.at_char('}'))
    }

    pub fn handle(&self, state: &mut ParseState)
        requires
            old(state).wf(),
        ensures
            final(state)@ == object_step(old(state)@),
            final(state).wf(),
    {
        if state.current_context() == JsonContext::Colon {
            state.pop_context();
        }
        if state.at_char('{') {
            state.emit_char('{');
            state.skip(1);
            state.push_context(JsonContext::Object);
        } else if state.at_char('}') {
            state.emit_char('}');
            state.pop_context();
            state.skip(1);
        }
    }
}

/// Rewrites `[` and `]`.
pub struct ArrayHandler;

impl ArrayHandler {
    pub fn can_handle(&self, state: &ParseState) -> (r: bool)
        ensures
            r == array_applies(state@),
    {
        state.at_char('[') || state.at_char(']')
    }

    pub fn handle(&self, state: &mut ParseState)
        requires
            old(state).wf(),
        ensures
            final(state)@ == array_step(old(state)@),
            final(state).wf(),
    {
        if state.current_context() == JsonContext::Colon {
            state.pop_context();
        }
        if state.at_char('[') {
            state.emit_char('[');
            state.skip(1);
            state.push_context(JsonContext::Array);
        } else if state.at_char(']') {
            state.emit_char(']');
            state.pop_context();
            state.skip(1);
        }
    }
}

/// Quotes a bare identifier that stands where an object key is expected.
pub struct NoQuotesKeyHandler;

impl NoQuotesKeyHandler {
    pub fn can_handle(&self, state: &ParseState) -> (r: bool)
        ensures
            r == unquoted_key_applies(state@),
    {
        state.current_context() == JsonContext::Object && match state.current_char() {
            Some(c) => is_key_start(c),
            None => false,
        }
    }

    pub fn handle(&self, state: &mut ParseState)
        requires
            old(state).wf(),
        ensures
            final(state)@ == unquoted_key_step(old(state)@),
            final(state).wf(),
    {
        state.push_context(JsonContext::DoubleQuoteProperty);
        state.emit_char('"');
        let ghost s1 = state@;
        let ghost r = scan_key(s1.input, s1.pos, s1.output);
        loop
            invariant_except_break
                scan_key(state@.input, state@.pos, state@.output) == r,
            invariant
                state.wf(),
                state@.input == s1.input,
                state@.stack == s1.stack,
            ensures
                state.wf(),
                state@.input == s1.input,
                state@.stack == s1.stack,
                r == (state@.pos, state@.output),
            decreases state.input.len() - state.position,
        {
            if state.position >= state.input.len() {
                break;
            }
            let ch = state.input[state.position];
            let ghost out0 = state@.output;
            if is_key_char(ch) {
                state.emit_char(ch);
                state.skip(1);
                assert(state@.output =~= out0.push(ch));
            } else {
                state.emit_char('"');
                assert(state@.output =~= out0.push('"'));
                break;
            }
        }
    }
}


/// The handlers, one variant each, dispatched in one place.
#[derive(Debug, Clone, Copy, PartialEq, Eq, Structural)]
pub enum StateHandler {
    Whitespace,
    Literal,
    Colon,
    Comma,
    Quoted,
    Number,
    Object,
    Array,
    UnquotedKey,
}

pub open spec fn handler_applies(h: StateHandler, s: StateView) -> bool {
    match h {
        StateHandler::Whitespace => whitespace_applies(s),
        StateHandler::Literal => literal_applies(s),
        StateHandler::Colon => colon_applies(s),
        StateHandler::Comma => comma_applies(s),
        StateHandler::Quoted => string_applies(s),
        StateHandler::Number => number_applies(s),
        StateHandler::Object => object_applies(s),
        StateHandler::Array => array_applies(s),
        StateHandler::UnquotedKey => unquoted_key_applies(s),
    }
}

pub open spec fn handler_step(h: StateHandler, s: StateView) -> StateView {
    match h {
        StateHandler::Whitespace => whitespace_step(s),
        StateHandler::Literal => literal_step(s),
        StateHandler::Colon => colon_step(s),
        StateHandler::Comma => comma_step(s),
        StateHandler::Quoted => string_step(s),
        StateHandler::Number => number_step(s),
        StateHandler::Object => object_step(s),
        StateHandler::Array => array_step(s),
        StateHandler::UnquotedKey => unquoted_key_step(s),
    }
}

impl StateHandler {
    pub fn can_handle(&self, state: &ParseState) -> (r: bool)
        requires
            state.wf(),
        ensures
            r == handler_applies(*self, state@),
    {
        match self {
            StateHandler::Whitespace => WhitespaceHandler.can_handle(state),
            StateHandler::Literal => LiteralHandler.can_handle(state),
            StateHandler::Colon => ColonHandler.can_handle(state),
            StateHandler::Comma => CommaHandler.can_handle(state),
            StateHandler::Quoted => StringHandler.can_handle(state),
            StateHandler::Number => NumberHandler.can_handle(state),
            StateHandler::Object => ObjectHandler.can_handle(state),
            StateHandler::Array => ArrayHandler.can_handle(state),
            StateHandler::UnquotedKey => NoQuotesKeyHandler.can_handle(state),
        }
    }

    pub fn handle(&self, state: &mut ParseState)
        requires
            old(state).wf(),
            handler_applies(*self, old(state)@),
        ensures
            final(state)@ == handler_step(*self, old(state)@),
            final(state).wf(),
    {
        match self {
            StateHandler::Whitespace => WhitespaceHandler.handle(state),
            StateHandler::Literal => LiteralHandler.handle(state),
            StateHandler::Colon => ColonHandler.handle(state),
            StateHandler::Comma => CommaHandler.handle(state),
            StateHandler::Quoted => StringHandler.handle(state),
            StateHandler::Number => NumberHandler.handle(state),
            StateHandler::Object => ObjectHandler.handle(state),
            StateHandler::Array => ArrayHandler.handle(state),
            StateHandler::UnquotedKey => NoQuotesKeyHandler.handle(state),
        }
    }
}


proof fn lemma_scan_quoted_bounds(input: Seq<char>, pos: int, q: char, acc: Seq<char>)
    requires
        0 <= pos <= input.len(),
    ensures
        pos <= scan_quoted(input, pos, q, acc).0 <= input.len(),
    decreases input.len() - pos,
{
    if pos < input.len() && input[pos] != q {
        if input[pos] == '\\' {
            if pos + 1 < input.len() {
                lemma_scan_quoted_bounds(input, pos + 2, q, acc.push('\\').push(input[pos + 1]));
            }
        } else if q == '\'' && input[pos] == '"' {
            lemma_scan_quoted_bounds(input, pos + 1, q, acc.push('\\').push('"'));
        } else {
            lemma_scan_quoted_bounds(input, pos + 1, q, acc.push(input[pos]));
        }
    }
}

proof fn lemma_scan_number_bounds(input: Seq<char>, pos: int)
    requires
        0 <= pos <= input.len(),
    ensures
        pos <= scan_number(input, pos) <= input.len(),
    decreases input.len() - pos,
{
    if pos < input.len() && number_char(input[pos]) {
        lemma_scan_number_bounds(input, pos + 1);
    }
}

proof fn lemma_scan_key_bounds(input: Seq<char>, pos: int, acc: Seq<char>)
    requires
        0 <= pos <= input.len(),
    ensures
        pos <= scan_key(input, pos, acc).0 <= input.len(),
    decreases input.len() - pos,
{
    if pos < input.len() && key_char(input[pos]) {
        lemma_scan_key_bounds(input, pos + 1, acc.push(input[pos]));
    }
}

/// Every handler keeps the input, keeps the root frame at the bottom of the
/// stack, and moves the cursor forward only, never past the end.
pub proof fn lemma_handler_keeps_invariants(h: StateHandler, s: StateView)
    requires
        state_wf(s),
        handler_applies(h, s),
    ensures
        state_wf(handler_step(h, s)),
        handler_step(h, s).input == s.input,
        s.pos <= handler_step(h, s).pos,
{
    match h {
        StateHandler::Whitespace => {
            lemma_skip_blank_bounds(s.input, s.pos);
        },
        StateHandler::Literal => {},
        StateHandler::Colon => {
            let s1 = if ctx_is_key(top(s)) {
                push(pop(s), JsonContext::Colon)
            } else {
                s
            };
            let s2 = if cur_is(s1, ':') {
                emit(adv(s1, 1), seq![':'])
            } else {
                s1
            };
            lemma_skip_blank_bounds(s2.input, s2.pos);
        },
        StateHandler::Comma => {
            lemma_skip_blank_bounds(s.input, s.pos + 1);
        },
        StateHandler::Quoted => {
            let q = cur(s)->0;
            let s1 = string_open(adv(emit(s, seq!['"']), 1), q);
            lemma_scan_quoted_bounds(s1.input, s1.pos, q, s1.output);
        },
        StateHandler::Number => {
            let s1 = number_open(s);
            lemma_scan_number_bounds(s1.input, s1.pos);
        },
        StateHandler::Object => {},
        StateHandler::Array => {},
        StateHandler::UnquotedKey => {
            let s1 = emit(push(s, JsonContext::DoubleQuoteProperty), seq!['"']);
            lemma_scan_key_bounds(s1.input, s1.pos, s1.output);
        },
    }
}

} // verus!
