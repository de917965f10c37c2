//! Repair strategies: each recognises a defect, from the cursor's view or
//! from a hint in the strict parser's error text, and patches it.

use vstd::prelude::*;
use crate::context::{JsonContext, ctx_is_key, ctx_is_value};
use crate::state::{
    ParseState, StateView, adv, ahead, blank_from, cur, cur_is, emit, finished, pop, skip_ws, top,
    state_wf, lemma_skip_ws_bounds,
};
use crate::text::{is_ws, is_ws_char, matches_at, text_at};

verus! {

/// What `char::is_alphabetic` answers for `c`.
pub uninterp spec fn alphabetic(c: char) -> bool;

/// Relies on `char::is_alphabetic`: whether `c` has the Unicode Alphabetic
/// property, which depends on `c` alone.
#[verifier::external_body]
fn is_alphabetic_char(c: char) -> (r: bool)
    ensures
        r == alphabetic(c),
{
    c.is_alphabetic()
}

/// `lit` occurs somewhere in `s`.
pub open spec fn contains_text(s: Seq<char>, lit: Seq<char>) -> bool {
    exists|i: int| text_at(s, i, lit)
}

pub fn contains(s: &Vec<char>, lit: &Vec<char>) -> (r: bool)
    ensures
        r == contains_text(s@, lit@),
{
    let mut i: usize = 0;
    while i < s.len()
        invariant
            i <= s.len(),
            forall|j: int| 0 <= j < i ==> !text_at(s@, j, lit@),
        decreases s.len() - i,
    {
        if matches_at(s, i, lit) {
            return true;
        }
        i += 1;
    }
    if matches_at(s, i, lit) {
        return true;
    }
    assert forall|j: int| !text_at(s@, j, lit@) by {
        if 0 <= j <= i {
        }
    }
    false
}

/// The length of `s` once trailing whitespace within its first `n`
/// characters is dropped.
pub open spec fn trim_end_len(s: Seq<char>, n: int) -> int
    decreases n,
{
    if 0 < n <= s.len() && is_ws(s[n - 1]) {
        trim_end_len(s, n - 1)
    } else {
        n
    }
}

/// The last character of `s` that is not whitespace.
pub open spec fn last_significant(s: Seq<char>) -> Option<char> {
    let k = trim_end_len(s, s.len() as int);
    if 0 < k <= s.len() {
        Some(s[k - 1])
    } else {
        None
    }
}

/// `s` without a trailing `,` (and the whitespace after it), if it has one.
pub open spec fn strip_trailing_comma(s: Seq<char>) -> Seq<char> {
    let k = trim_end_len(s, s.len() as int);
    if last_significant(s) == Some(',') {
        s.subrange(0, k - 1)
    } else {
        s
    }
}

/// The number of `"` characters in the first `n` of `s`.
pub open spec fn count_quotes(s: Seq<char>, n: int) -> nat
    decreases n,
{
    if n <= 0 || n > s.len() {
        0
    } else {
        count_quotes(s, n - 1) + if s[n - 1] == '"' { 1nat } else { 0nat }
    }
}

/// The number of `"` characters from `i` on that no backslash escapes,
/// where `esc` says that the character at `i` is escaped.
pub open spec fn unescaped_quotes_from(s: Seq<char>, i: int, esc: bool) -> nat
    decreases s.len() - i,
{
    if i < 0 || i >= s.len() {
        0
    } else if esc {
        unescaped_quotes_from(s, i + 1, false)
    } else if s[i] == '\\' {
        unescaped_quotes_from(s, i + 1, true)
    } else {
        (if s[i] == '"' { 1nat } else { 0nat }) + unescaped_quotes_from(s, i + 1, false)
    }
}

/// Whether a string is still open at the end of `s`, reading from `i` on in
/// the given scan state (inside a string, after a backslash, quote style).
pub open spec fn open_string_after(s: Seq<char>, i: int, in_str: bool, esc: bool, q: char) -> bool
    decreases s.len() - i,
{
    if i < 0 || i >= s.len() {
        in_str
    } else if esc {
        open_string_after(s, i + 1, in_str, false, q)
    } else if in_str && s[i] == '\\' {
        open_string_after(s, i + 1, in_str, true, q)
    } else if !in_str && (s[i] == '"' || s[i] == '\'') {
        open_string_after(s, i + 1, true, false, s[i])
    } else if in_str && s[i] == q {
        open_string_after(s, i + 1, false, false, q)
    } else {
        open_string_after(s, i + 1, in_str, false, q)
    }
}

/// `s` ends inside a string.
pub open spec fn in_unclosed_string(s: Seq<char>) -> bool {
    open_string_after(s, 0, false, false, '"')
}

/// What closes one frame of the stack at truncation, given the output.
pub open spec fn frame_closing(c: JsonContext, out: Seq<char>) -> Seq<char> {
    if c == JsonContext::Object {
        seq!['}']
    } else if c == JsonContext::Array {
        seq![']']
    } else if ctx_is_key(c) {
        (if unescaped_quotes_from(out, 0, false) % 2 == 1 {
            seq!['"']
        } else {
            Seq::empty()
        }) + seq![':', '0']
    } else if c == JsonContext::Colon {
        seq!['0']
    } else if ctx_is_value(c) {
        if out.len() > 0 && out.last() == '"' && count_quotes(out, out.len() as int) % 2 == 1 {
            seq!['"']
        } else {
            Seq::empty()
        }
    } else {
        Seq::empty()
    }
}

/// The closings of frames `n - 1` down to `0`, top first.
pub open spec fn closings(stack: Seq<JsonContext>, n: int, out: Seq<char>) -> Seq<char>
    decreases n,
{
    if n <= 0 || n > stack.len() {
        Seq::empty()
    } else {
        frame_closing(stack[n - 1], out) + closings(stack, n - 1, out)
    }
}

/// The output once every open frame is closed.
pub open spec fn closed_out(s: StateView) -> Seq<char> {
    strip_trailing_comma(s.output) + (if in_unclosed_string(s.output) {
        seq!['"']
    } else {
        Seq::empty()
    }) + closings(s.stack, s.stack.len() as int, s.output)
}

pub open spec fn hint_unexpected_end() -> Seq<char> {
    seq!['u', 'n', 'e', 'x', 'p', 'e', 'c', 't', 'e', 'd', ' ', 'e', 'n', 'd']
}

pub open spec fn hint_unclosed() -> Seq<char> {
    seq!['u', 'n', 'c', 'l', 'o', 's', 'e', 'd']
}

pub open spec fn hint_expected() -> Seq<char> {
    seq!['e', 'x', 'p', 'e', 'c', 't', 'e', 'd']
}

pub open spec fn hint_quote() -> Seq<char> {
    seq!['q', 'u', 'o', 't', 'e']
}

pub open spec fn hint_missing() -> Seq<char> {
    seq!['m', 'i', 's', 's', 'i', 'n', 'g']
}

pub open spec fn fence() -> Seq<char> {
    seq!['`', '`', '`']
}

pub open spec fn fence_json() -> Seq<char> {
    seq!['`', '`', '`', 'j', 's', 'o', 'n']
}

pub open spec fn json_fence() -> Seq<char> {
    seq!['j', 's', 'o', 'n', '`', '`', '`']
}

pub open spec fn truncation_applies(s: StateView, hint: Seq<char>) -> bool {
    ||| finished(s)
    ||| contains_text(hint, hint_unexpected_end())
    ||| contains_text(hint, hint_unclosed())
    ||| (blank_from(s.input, s.pos) && top(s) != JsonContext::Root)
}

pub open spec fn truncation_step(s: StateView) -> StateView {
    StateView { output: closed_out(s), ..s }
}

pub open spec fn code_fence_applies(s: StateView) -> bool {
    ahead(s, fence()) || ahead(s, json_fence())
}

pub open spec fn code_fence_step(s: StateView) -> StateView {
    if ahead(s, json_fence()) || ahead(s, fence_json()) {
        adv(s, 7)
    } else if ahead(s, fence()) {
        adv(s, 3)
    } else {
        s
    }
}

/// Copies a single-quoted run from `pos` on onto `acc`, escaping `"`;
/// returns the position after the closing `'` and the output.
pub open spec fn scan_single(input: Seq<char>, pos: int, acc: Seq<char>) -> (int, Seq<char>)
    decreases input.len() - pos,
{
    if pos < 0 || pos >= input.len() {
        (pos, acc)
    } else if input[pos] == '\'' {
        (pos + 1, acc)
    } else if input[pos] == '"' {
        scan_single(input, pos + 1, acc.push('\\').push('"'))
    } else {
        scan_single(input, pos + 1, acc.push(input[pos]))
    }
}

pub open spec fn single_quotes_applies(s: StateView) -> bool {
    cur_is(s, '\'')
}

pub open spec fn single_quotes_step(s: StateView) -> StateView {
    let s1 = adv(emit(s, seq!['"']), 1);
    let r = scan_single(s1.input, s1.pos, s1.output);
    let s2 = StateView { pos: r.0, output: r.1, ..s1 };
    let s3 = if top(s2) == JsonContext::Colon {
        pop(s2)
    } else {
        s2
    };
    emit(s3, seq!['"'])
}

pub open spec fn null_tail() -> Seq<char> {
    seq![' ', 'n', 'u', 'l', 'l']
}

pub open spec fn colon_null() -> Seq<char> {
    seq![':', ' ', 'n', 'u', 'l', 'l']
}

/// Past the whitespace from `pos` on and one `:` after it, if there is one.
pub open spec fn past_colon(input: Seq<char>, pos: int) -> int {
    let p = skip_ws(input, pos);
    if 0 <= p < input.len() && input[p] == ':' {
        p + 1
    } else {
        p
    }
}

pub open spec fn incomplete_property_applies(s: StateView) -> bool {
    ||| last_significant(s.output) == Some(':')
    ||| (last_significant(s.output) == Some('"') && text_at(
        s.input,
        skip_ws(s.input, s.pos),
        seq![':'],
    ))
}

pub open spec fn incomplete_property_step(s: StateView) -> StateView {
    if last_significant(s.output) == Some(':') {
        emit(s, null_tail())
    } else {
        let s1 = emit(s, colon_null());
        StateView { pos: past_colon(s1.input, s1.pos), ..s1 }
    }
}

pub open spec fn incomplete_array_applies(s: StateView) -> bool {
    &&& top(s) == JsonContext::Array
    &&& last_significant(s.output) == Some(',')
    &&& blank_from(s.input, s.pos)
}

pub open spec fn incomplete_array_step(s: StateView) -> StateView {
    StateView { output: strip_trailing_comma(s.output).push(']'), ..s }
}

pub open spec fn trailing_comma_applies(s: StateView) -> bool {
    cur_is(s, ',') && 0 <= s.pos && s.pos + 1 < s.input.len() && (s.input[s.pos + 1] == '}'
        || s.input[s.pos + 1] == ']')
}

pub open spec fn trailing_comma_step(s: StateView) -> StateView {
    adv(s, 1)
}

/// Ends a bare token: whitespace, `:`, `,`, `}` or `]`.
pub open spec fn bare_delim(c: char) -> bool {
    is_ws(c) || c == ':' || c == ',' || c == '}' || c == ']'
}

/// The end of the bare token that starts at `pos`.
pub open spec fn bare_end(input: Seq<char>, pos: int) -> int
    decreases input.len() - pos,
{
    if 0 <= pos < input.len() && !bare_delim(input[pos]) {
        bare_end(input, pos + 1)
    } else {
        pos
    }
}

pub open spec fn missing_quotes_applies(s: StateView, hint: Seq<char>) -> bool {
    ||| (contains_text(hint, hint_expected()) && contains_text(hint, hint_quote()))
    ||| (top(s) == JsonContext::DoubleQuoteProperty && cur(s) is Some && alphabetic(cur(s)->0))
}

pub open spec fn missing_quotes_step(s: StateView) -> StateView {
    let e = bare_end(s.input, s.pos);
    StateView {
        pos: e,
        output: s.output + seq!['"'] + s.input.subrange(s.pos, e) + seq!['"'],
        ..s
    }
}

/// The first position at or after `pos` holding `{` or `[`, or the end.
pub open spec fn next_opener(input: Seq<char>, pos: int) -> int
    decreases input.len() - pos,
{
    if 0 <= pos < input.len() && input[pos] != '{' && input[pos] != '[' {
        next_opener(input, pos + 1)
    } else {
        pos
    }
}

pub open spec fn stray_applies(s: StateView) -> bool {
    top(s) == JsonContext::Root
}

pub open spec fn stray_before_step(s: StateView) -> StateView {
    StateView { pos: next_opener(s.input, s.pos), ..s }
}

pub open spec fn stray_after_step(s: StateView) -> StateView {
    StateView { pos: s.input.len() as int, ..s }
}

pub open spec fn missing_brackets_applies(hint: Seq<char>) -> bool {
    contains_text(hint, hint_missing()) && (contains_text(hint, seq!['}']) || contains_text(
        hint,
        seq![']'],
    ))
}

/// The index of the topmost frame `c` among frames `1 .. n`, or `0` if
/// there is none.
pub open spec fn opener_index(stack: Seq<JsonContext>, n: int, c: JsonContext) -> int
    decreases n,
{
    if n <= 1 || n > stack.len() {
        0
    } else if stack[n - 1] == c {
        n - 1
    } else {
        opener_index(stack, n - 1, c)
    }
}

/// Closes the topmost frame `c` together with every frame above it; the
/// stack stays as it is when no such frame is open.
pub open spec fn close_to(s: StateView, c: JsonContext) -> StateView {
    let k = opener_index(s.stack, s.stack.len() as int, c);
    if k >= 1 {
        StateView { stack: s.stack.subrange(0, k), ..s }
    } else {
        s
    }
}

pub open spec fn missing_brackets_step(s: StateView, hint: Seq<char>) -> StateView {
    if contains_text(hint, seq!['}']) {
        close_to(emit(s, seq!['}']), JsonContext::Object)
    } else if contains_text(hint, seq![']']) {
        close_to(emit(s, seq![']']), JsonContext::Array)
    } else {
        s
    }
}

/// Pops frames down to and including the topmost frame `c`, if there is one.
pub fn close_frames_to(state: &mut ParseState, c: JsonContext)
    requires
        old(state).wf(),
    ensures
        final(state)@ == close_to(old(state)@, c),
        final(state).wf(),
{
    let ghost st = state.stack@;
    let mut k = state.stack.len();
    while k > 1 && state.stack[k - 1] != c
        invariant
            state@ == old(state)@,
            st == state.stack@,
            1 <= k <= st.len(),
            opener_index(st, k as int, c) == opener_index(st, st.len() as int, c),
        decreases k,
    {
        k -= 1;
    }
    if k > 1 {
        state.stack.truncate(k - 1);
        assert(state.stack@ =~= st.subrange(0, k - 1));
    }
}


/// The length of `s` without its trailing whitespace.
pub fn trim_end_index(s: &Vec<char>) -> (k: usize)
    ensures
        k as int == trim_end_len(s@, s@.len() as int),
        k <= s@.len(),
{
    let mut k = s.len();
    while k > 0 && is_ws_char(s[k - 1])
        invariant
            k <= s@.len(),
            trim_end_len(s@, k as int) == trim_end_len(s@, s@.len() as int),
        decreases k,
    {
        k -= 1;
    }
    k
}

pub fn last_significant_char(s: &Vec<char>) -> (r: Option<char>)
    ensures
        r == last_significant(s@),
{
    let k = trim_end_index(s);
    if k > 0 {
        Some(s[k - 1])
    } else {
        None
    }
}

/// Drops a trailing `,` from `out`, with the whitespace after it.
pub fn remove_trailing_comma(out: &mut Vec<char>)
    ensures
        final(out)@ == strip_trailing_comma(old(out)@),
{
    let k = trim_end_index(out);
    if k > 0 && out[k - 1] == ',' {
        out.truncate(k - 1);
        assert(out@ =~= old(out)@.subrange(0, k - 1));
    }
}

pub fn count_quote_chars(s: &Vec<char>) -> (r: usize)
    ensures
        r == count_quotes(s@, s@.len() as int),
{
    let mut n: usize = 0;
    let mut i: usize = 0;
    while i < s.len()
        invariant
            i <= s@.len(),
            n <= i,
            n == count_quotes(s@, i as int),
        decreases s.len() - i,
    {
        if s[i] == '"' {
            n += 1;
        }
        i += 1;
    }
    n
}

pub fn count_unescaped_quotes(s: &Vec<char>) -> (r: usize)
    ensures
        r == unescaped_quotes_from(s@, 0, false),
{
    let mut n: usize = 0;
    let mut i: usize = 0;
    let mut esc = false;
    while i < s.len()
        invariant
            i <= s@.len(),
            n <= i,
            n + unescaped_quotes_from(s@, i as int, esc) == unescaped_quotes_from(s@, 0, false),
        decreases s.len() - i,
    {
        if esc {
            esc = false;
        } else if s[i] == '\\' {
            esc = true;
        } else if s[i] == '"' {
            n += 1;
        }
        i += 1;
    }
    n
}

/// The input from the cursor on holds whitespace only.
pub fn blank_rest(state: &ParseState) -> (r: bool)
    requires
        state.wf(),
    ensures
        r == blank_from(state@.input, state@.pos),
{
    let mut i = state.position;
    while i < state.input.len()
        invariant
            state.position <= i <= state.input@.len(),
            forall|j: int| state.position <= j < i ==> is_ws(#[trigger] state.input@[j]),
        decreases state.input.len() - i,
    {
        if !is_ws_char(state.input[i]) {
            assert(!is_ws(state.input@[i as int]));
            return false;
        }
        i += 1;
    }
    true
}

/// Closes every open scope at the end of a truncated input.
pub struct TruncationRepairStrategy;

impl TruncationRepairStrategy {
    pub fn can_repair(&self, state: &ParseState, error: &Vec<char>) -> (r: bool)
        requires
            state.wf(),
        ensures
            r == truncation_applies(state@, error@),
    {
        if state.is_finished() {
            return true;
        }
        let unexpected_end = vec!['u', 'n', 'e', 'x', 'p', 'e', 'c', 't', 'e', 'd', ' ', 'e', 'n', 'd'];
        let unclosed = vec!['u', 'n', 'c', 'l', 'o', 's', 'e', 'd'];
        assert(unexpected_end@ =~= hint_unexpected_end());
        assert(unclosed@ =~= hint_unclosed());
        if contains(error, &unexpected_end) || contains(error, &unclosed) {
            return true;
        }
        blank_rest(state) && state.current_context() != JsonContext::Root
    }

    pub fn repair(&self, state: &mut ParseState)
        requires
            old(state).wf(),
        ensures
            final(state)@ == truncation_step(old(state)@),
            final(state).wf(),
    {
        self.close_all_scopes(state);
    }

    /// Whether `output` ends inside a string, in either quote style.
    pub fn is_in_unclosed_string(&self, output: &Vec<char>) -> (r: bool)
        ensures
            r == in_unclosed_string(output@),
    {
        let mut in_string = false;
        let mut escape_next = false;
        let mut quote_char = '"';
        let mut i: usize = 0;
        while i < output.len()
            invariant
                i <= output@.len(),
                open_string_after(output@, i as int, in_string, escape_next, quote_char)
                    == in_unclosed_string(output@),
            decreases output.len() - i,
        {
            let ch = output[i];
            if escape_next {
                escape_next = false;
            } else if in_string && ch == '\\' {
                escape_next = true;
            } else if !in_string && (ch == '"' || ch == '\'') {
                in_string = true;
                quote_char = ch;
            } else if in_string && ch == quote_char {
                in_string = false;
            }
            i += 1;
        }
        in_string
    }

    fn close_all_scopes(&self, state: &mut ParseState)
        requires
            old(state).wf(),
        ensures
            final(state)@ == truncation_step(old(state)@),
            final(state).wf(),
    {
        let ghost s0 = state@;
        let odd_unescaped = count_unescaped_quotes(&state.output) % 2 == 1;
        let n = state.output.len();
        let close_value = n > 0 && state.output[n - 1] == '"' && count_quote_chars(&state.output)
            % 2 == 1;
        let mut needs: Vec<char> = Vec::new();
        let mut i = state.stack.len();
        while i > 0
            invariant
                state@ == s0,
                i <= s0.stack.len(),
                odd_unescaped == (unescaped_quotes_from(s0.output, 0, false) % 2 == 1),
                close_value == (s0.output.len() > 0 && s0.output.last() == '"' && count_quotes(
                    s0.output,
                    s0.output.len() as int,
                ) % 2 == 1),
                needs@ + closings(s0.stack, i as int, s0.output) == closings(
                    s0.stack,
                    s0.stack.len() as int,
                    s0.output,
                ),
            decreases i,
        {
            i -= 1;
            let c = state.stack[i];
            let ghost before = needs@;
            if c == JsonContext::Object {
                needs.push('}');
            } else if c == JsonContext::Array {
                needs.push(']');
            } else if c.is_key() {
                if odd_unescaped {
                    needs.push('"');
                }
                needs.push(':');
                needs.push('0');
            } else if c == JsonContext::Colon {
                needs.push('0');
            } else if c.is_value() {
                if close_value {
                    needs.push('"');
                }
            }
            assert(needs@ =~= before + frame_closing(c, s0.output));
            assert(closings(s0.stack, i + 1, s0.output) == frame_closing(c, s0.output) + closings(
                s0.stack,
                i as int,
                s0.output,
            ));
            assert(needs@ + closings(s0.stack, i as int, s0.output) =~= before + closings(
                s0.stack,
                i + 1,
                s0.output,
            ));
        }
        assert(needs@ =~= closings(s0.stack, s0.stack.len() as int, s0.output));
        let open = self.is_in_unclosed_string(&state.output);
        remove_trailing_comma(&mut state.output);
        if open {
            state.emit_char('"');
        }
        state.emit_all(&needs);
        assert(state@.output =~= closed_out(s0));
    }
}

/// Skips a code fence: three backticks, with `json` before or after them.
pub struct CodeBlockMarkersStrategy;

impl CodeBlockMarkersStrategy {
    pub fn can_repair(&self, state: &ParseState) -> (r: bool)
        ensures
            r == code_fence_applies(state@),
    {
        state.looking_at(&vec!['`', '`', '`']) || state.looking_at(
            &vec!['j', 's', 'o', 'n', '`', '`', '`'],
        )
    }

    pub fn repair(&self, state: &mut ParseState)
        requires
            old(state).wf(),
        ensures
            final(state)@ == code_fence_step(old(state)@),
            final(state).wf(),
    {
        if state.looking_at(&vec!['j', 's', 'o', 'n', '`', '`', '`']) {
            state.skip(7);
        } else if state.looking_at(&vec!['`', '`', '`', 'j', 's', 'o', 'n']) {
            state.skip(7);
        } else if state.looking_at(&vec!['`', '`', '`']) {
            state.skip(3);
        }
    }
}

/// Rewrites a single-quoted run as a double-quoted string.
pub struct SingleQuotesStrategy;

impl SingleQuotesStrategy {
    pub fn can_repair(&self, state: &ParseState) -> (r: bool)
        ensures
            r == single_quotes_applies(state@),
    {
        state.at_char('\'')
    }

    pub fn repair(&self, state: &mut ParseState)
        requires
            old(state).wf(),
            single_quotes_applies(old(state)@),
        ensures
            final(state)@ == single_quotes_step(old(state)@),
            final(state).wf(),
    {
        state.emit_char('"');
        state.skip(1);
        let ghost s1 = state@;
        let ghost r = scan_single(s1.input, s1.pos, s1.output);
        loop
            invariant_except_break
                scan_single(state@.input, state@.pos, state@.output) == r,
            invariant
                state.wf(),
                state@.input == s1.input,
                state@.stack == s1.stack,
            ensures
                state.wf(),
                state@.input == s1.input,
                state@.stack == s1.stack,
                r == (state@.pos, state@.output),
            decreases state.input.len() - state.position,
        {
            if state.position >= state.input.len() {
                break;
            }
            let ch = state.input[state.position];
            let ghost out0 = state@.output;
            if ch == '\'' {
                state.skip(1);
                break;
            }
            if ch == '"' {
                state.emit_char('\\');
            }
            state.emit_char(ch);
            state.skip(1);
            if ch == '"' {
                assert(state@.output =~= out0.push('\\').push('"'));
            } else {
                assert(state@.output =~= out0.push(ch));
            }
        }
        if state.current_context() == JsonContext::Colon {
            state.pop_context();
        }
        state.emit_char('"');
    }
}

/// Gives a dangling key the value `null`.
pub struct IncompletePropertyStrategy;

impl IncompletePropertyStrategy {
    pub fn can_repair(&self, state: &ParseState) -> (r: bool)
        requires
            state.wf(),
        ensures
            r == incomplete_property_applies(state@),
    {
        let last = last_significant_char(&state.output);
        match last {
            Some(c) => {
                if c == ':' {
                    true
                } else if c == '"' {
                    let p = crate::state::skip_ws_from(&state.input, state.position);
                    let r = p < state.input.len() && state.input[p] == ':';
                    assert(r == text_at(state@.input, p as int, seq![':'])) by {
                        if text_at(state@.input, p as int, seq![':']) {
                            assert(state@.input.subrange(p as int, p + 1)[0] == ':');
                        }
                        if r {
                            assert(state@.input.subrange(p as int, p + 1) =~= seq![':']);
                        }
                    }
                    r
                } else {
                    false
                }
            },
            None => false,
        }
    }

    pub fn repair(&self, state: &mut ParseState)
        requires
            old(state).wf(),
        ensures
            final(state)@ == incomplete_property_step(old(state)@),
            final(state).wf(),
    {
        if last_significant_char(&state.output) == Some(':') {
            state.emit_all(&vec![' ', 'n', 'u', 'l', 'l']);
        } else {
            state.emit_all(&vec![':', ' ', 'n', 'u', 'l', 'l']);
            let p = crate::state::skip_ws_from(&state.input, state.position);
            if p < state.input.len() && state.input[p] == ':' {
                state.position = p + 1;
            } else {
                state.position = p;
            }
        }
    }
}

/// Closes an array that was cut off after a `,`.
pub struct IncompleteArrayStrategy;

impl IncompleteArrayStrategy {
    pub fn can_repair(&self, state: &ParseState) -> (r: bool)
        requires
            state.wf(),
        ensures
            r == incomplete_array_applies(state@),
    {
        if state.current_context() != JsonContext::Array || last_significant_char(&state.output)
            != Some(',') {
            return false;
        }
        let p = crate::state::skip_ws_from(&state.input, state.position);
        proof {
            lemma_skip_ws_blank(state@.input, state@.pos);
        }
        p == state.input.len()
    }

    pub fn repair(&self, state: &mut ParseState)
        requires
            old(state).wf(),
        ensures
            final(state)@ == incomplete_array_step(old(state)@),
            final(state).wf(),
    {
        remove_trailing_comma(&mut state.output);
        state.emit_char(']');
        assert(state@.output =~= strip_trailing_comma(old(state)@.output).push(']'));
    }
}

/// Input from `pos` on is blank exactly when skipping whitespace reaches
/// its end.
pub proof fn lemma_skip_ws_blank(input: Seq<char>, pos: int)
    requires
        0 <= pos <= input.len(),
    ensures
        blank_from(input, pos) <==> skip_ws(input, pos) == input.len(),
        pos <= skip_ws(input, pos) <= input.len(),
    decreases input.len() - pos,
{
    if pos < input.len() && is_ws(input[pos]) {
        lemma_skip_ws_blank(input, pos + 1);
        if skip_ws(input, pos) == input.len() {
            assert forall|i: int| pos <= i < input.len() implies is_ws(#[trigger] input[i]) by {
                if i > pos {
                    assert(blank_from(input, pos + 1));
                }
            }
        }
    } else if pos < input.len() {
        assert(!is_ws(input[pos]));
    }
}

/// Skips a `,` that stands right before `}` or `]`.
pub struct TrailingCommaStrategy;

impl TrailingCommaStrategy {
    pub fn can_repair(&self, state: &ParseState) -> (r: bool)
        requires
            state.wf(),
        ensures
            r == trailing_comma_applies(state@),
    {
        state.at_char(',') && match state.char_after(1) {
            Some(next) => next == '}' || next == ']',
            None => false,
        }
    }

    pub fn repair(&self, state: &mut ParseState)
        requires
            old(state).wf(),
            trailing_comma_applies(old(state)@),
        ensures
            final(state)@ == trailing_comma_step(old(state)@),
            final(state).wf(),
    {
        state.skip(1);
    }
}

pub fn is_bare_delim(c: char) -> (r: bool)
    ensures
        r == bare_delim(c),
{
    is_ws_char(c) || c == ':' || c == ',' || c == '}' || c == ']'
}

/// Quotes a bare token that stands where a key is being read.
pub struct MissingQuotesStrategy;

impl MissingQuotesStrategy {
    pub fn can_repair(&self, state: &ParseState, error: &Vec<char>) -> (r: bool)
        ensures
            r == missing_quotes_applies(state@, error@),
    {
        (contains(error, &vec!['e', 'x', 'p', 'e', 'c', 't', 'e', 'd']) && contains(
            error,
            &vec!['q', 'u', 'o', 't', 'e'],
        )) || (state.current_context() == JsonContext::DoubleQuoteProperty && match state.current_char() {
            Some(c) => is_alphabetic_char(c),
            None => false,
        })
    }

    pub fn repair(&self, state: &mut ParseState)
        requires
            old(state).wf(),
        ensures
            final(state)@ == missing_quotes_step(old(state)@),
            final(state).wf(),
    {
        let ghost s0 = state@;
        state.emit_char('"');
        while state.position < state.input.len() && !is_bare_delim(state.input[state.position])
            invariant
                state.wf(),
                state@.input == s0.input,
                state@.stack == s0.stack,
                s0.pos <= state@.pos,
                0 <= s0.pos,
                state@.output == s0.output + seq!['"'] + s0.input.subrange(s0.pos, state@.pos),
                bare_end(s0.input, state@.pos) == bare_end(s0.input, s0.pos),
            decreases state.input.len() - state.position,
        {
            let ch = state.input[state.position];
            let ghost p0 = state@.pos;
            state.emit_char(ch);
            state.skip(1);
            assert(s0.input.subrange(s0.pos, p0 + 1) =~= s0.input.subrange(s0.pos, p0).push(ch));
            assert(state@.output =~= s0.output + seq!['"'] + s0.input.subrange(s0.pos, state@.pos));
        }
        state.emit_char('"');
    }
}

/// Skips text before the first `{` or `[`.
pub struct TrimStrayContentInBeginningStrategy;

impl TrimStrayContentInBeginningStrategy {
    pub fn can_repair(&self, state: &ParseState) -> (r: bool)
        ensures
            r == stray_applies(state@),
    {
        state.current_context() == JsonContext::Root
    }

    pub fn repair(&self, state: &mut ParseState)
        requires
            old(state).wf(),
        ensures
            final(state)@ == stray_before_step(old(state)@),
            final(state).wf(),
    {
        let ghost s0 = state@;
        while state.position < state.input.len() && state.input[state.position] != '{'
            && state.input[state.position] != '['
            invariant
                state.wf(),
                state@ == (StateView { pos: state@.pos, ..s0 }),
                next_opener(s0.input, state@.pos) == next_opener(s0.input, s0.pos),
            decreases state.input.len() - state.position,
        {
            state.skip(1);
        }
    }
}

/// Skips whatever is left once the document is complete.
pub struct TrimStrayContentInEndStrategy;

impl TrimStrayContentInEndStrategy {
    pub fn can_repair(&self, state: &ParseState) -> (r: bool)
        ensures
            r == stray_applies(state@),
    {
        state.current_context() == JsonContext::Root
    }

    pub fn repair(&self, state: &mut ParseState)
        requires
            old(state).wf(),
        ensures
            final(state)@ == stray_after_step(old(state)@),
            final(state).wf(),
    {
        state.position = state.input.len();
    }
}

/// Emits the bracket that the strict parser's error text says is missing,
/// and closes the frames down to its opener.
pub struct MissingBracketsStrategy;

impl MissingBracketsStrategy {
    pub fn can_repair(&self, error: &Vec<char>) -> (r: bool)
        ensures
            r == missing_brackets_applies(error@),
    {
        let missing = vec!['m', 'i', 's', 's', 'i', 'n', 'g'];
        let close_brace = vec!['}'];
        let close_bracket = vec![']'];
        assert(missing@ =~= hint_missing());
        assert(close_brace@ =~= seq!['}']);
        assert(close_bracket@ =~= seq![']']);
        contains(error, &missing) && (contains(error, &close_brace) || contains(
            error,
            &close_bracket,
        ))
    }

    pub fn repair(&self, state: &mut ParseState, error: &Vec<char>)
        requires
            old(state).wf(),
        ensures
            final(state)@ == missing_brackets_step(old(state)@, error@),
            final(state).wf(),
    {
        let close_brace = vec!['}'];
        let close_bracket = vec![']'];
        assert(close_brace@ =~= seq!['}']);
        assert(close_bracket@ =~= seq![']']);
        if contains(error, &close_brace) {
            state.emit_char('}');
            close_frames_to(state, JsonContext::Object);
        } else if contains(error, &close_bracket) {
            state.emit_char(']');
            close_frames_to(state, JsonContext::Array);
        }
    }
}


/// The repair strategies, one variant each, dispatched in one place.
#[derive(Debug, Clone, Copy, PartialEq, Eq, Structural)]
pub enum RepairStrategy {
    TruncationRepair,
    CodeBlockMarkers,
    SingleQuotes,
    IncompleteProperty,
    IncompleteArray,
    TrailingComma,
    MissingQuotes,
    TrimStrayBefore,
    TrimStrayAfter,
    MissingBrackets,
}

/// Higher runs first.
pub open spec fn strategy_priority(st: RepairStrategy) -> u8 {
    match st {
        RepairStrategy::TruncationRepair => 95,
        RepairStrategy::CodeBlockMarkers => 90,
        RepairStrategy::SingleQuotes => 85,
        RepairStrategy::IncompleteProperty => 85,
        RepairStrategy::IncompleteArray => 80,
        RepairStrategy::TrailingComma => 80,
        RepairStrategy::MissingQuotes => 70,
        RepairStrategy::TrimStrayBefore => 70,
        RepairStrategy::TrimStrayAfter => 70,
        RepairStrategy::MissingBrackets => 60,
    }
}

pub open spec fn strategy_applies(st: RepairStrategy, s: StateView, hint: Seq<char>) -> bool {
    match st {
        RepairStrategy::TruncationRepair => truncation_applies(s, hint),
        RepairStrategy::CodeBlockMarkers => code_fence_applies(s),
        RepairStrategy::SingleQuotes => single_quotes_applies(s),
        RepairStrategy::IncompleteProperty => incomplete_property_applies(s),
        RepairStrategy::IncompleteArray => incomplete_array_applies(s),
        RepairStrategy::TrailingComma => trailing_comma_applies(s),
        RepairStrategy::MissingQuotes => missing_quotes_applies(s, hint),
        RepairStrategy::TrimStrayBefore => stray_applies(s),
        RepairStrategy::TrimStrayAfter => stray_applies(s),
        RepairStrategy::MissingBrackets => missing_brackets_applies(hint),
    }
}

pub open spec fn strategy_step(st: RepairStrategy, s: StateView, hint: Seq<char>) -> StateView {
    match st {
        RepairStrategy::TruncationRepair => truncation_step(s),
        RepairStrategy::CodeBlockMarkers => code_fence_step(s),
        RepairStrategy::SingleQuotes => single_quotes_step(s),
        RepairStrategy::IncompleteProperty => incomplete_property_step(s),
        RepairStrategy::IncompleteArray => incomplete_array_step(s),
        RepairStrategy::TrailingComma => trailing_comma_step(s),
        RepairStrategy::MissingQuotes => missing_quotes_step(s),
        RepairStrategy::TrimStrayBefore => stray_before_step(s),
        RepairStrategy::TrimStrayAfter => stray_after_step(s),
        RepairStrategy::MissingBrackets => missing_brackets_step(s, hint),
    }
}

impl RepairStrategy {
    pub fn priority(&self) -> (r: u8)
        ensures
            r == strategy_priority(*self),
    {
        match self {
            RepairStrategy::TruncationRepair => 95,
            RepairStrategy::CodeBlockMarkers => 90,
            RepairStrategy::SingleQuotes => 85,
            RepairStrategy::IncompleteProperty => 85,
            RepairStrategy::IncompleteArray => 80,
            RepairStrategy::TrailingComma => 80,
            RepairStrategy::MissingQuotes => 70,
            RepairStrategy::TrimStrayBefore => 70,
            RepairStrategy::TrimStrayAfter => 70,
            RepairStrategy::MissingBrackets => 60,
        }
    }

    pub fn can_repair(&self, state: &ParseState, error: &Vec<char>) -> (r: bool)
        requires
            state.wf(),
        ensures
            r == strategy_applies(*self, state@, error@),
    {
        match self {
            RepairStrategy::TruncationRepair => TruncationRepairStrategy.can_repair(state, error),
            RepairStrategy::CodeBlockMarkers => CodeBlockMarkersStrategy.can_repair(state),
            RepairStrategy::SingleQuotes => SingleQuotesStrategy.can_repair(state),
            RepairStrategy::IncompleteProperty => IncompletePropertyStrategy.can_repair(state),
            RepairStrategy::IncompleteArray => IncompleteArrayStrategy.can_repair(state),
            RepairStrategy::TrailingComma => TrailingCommaStrategy.can_repair(state),
            RepairStrategy::MissingQuotes => MissingQuotesStrategy.can_repair(state, error),
            RepairStrategy::TrimStrayBefore => TrimStrayContentInBeginningStrategy.can_repair(state),
            RepairStrategy::TrimStrayAfter => TrimStrayContentInEndStrategy.can_repair(state),
            RepairStrategy::MissingBrackets => MissingBracketsStrategy.can_repair(error),
        }
    }

    pub fn repair(&self, state: &mut ParseState, error: &Vec<char>)
        requires
            old(state).wf(),
            strategy_applies(*self, old(state)@, error@),
        ensures
            final(state)@ == strategy_step(*self, old(state)@, error@),
            final(state).wf(),
    {
        match self {
            RepairStrategy::TruncationRepair => TruncationRepairStrategy.repair(state),
            RepairStrategy::CodeBlockMarkers => CodeBlockMarkersStrategy.repair(state),
            RepairStrategy::SingleQuotes => SingleQuotesStrategy.repair(state),
            RepairStrategy::IncompleteProperty => IncompletePropertyStrategy.repair(state),
            RepairStrategy::IncompleteArray => IncompleteArrayStrategy.repair(state),
            RepairStrategy::TrailingComma => TrailingCommaStrategy.repair(state),
            RepairStrategy::MissingQuotes => MissingQuotesStrategy.repair(state),
            RepairStrategy::TrimStrayBefore => TrimStrayContentInBeginningStrategy.repair(state),
            RepairStrategy::TrimStrayAfter => TrimStrayContentInEndStrategy.repair(state),
            RepairStrategy::MissingBrackets => MissingBracketsStrategy.repair(state, error),
        }
    }
}


proof fn lemma_scan_single_bounds(input: Seq<char>, pos: int, acc: Seq<char>)
    requires
        0 <= pos <= input.len(),
    ensures
        pos <= scan_single(input, pos, acc).0 <= input.len(),
    decreases input.len() - pos,
{
    if pos < input.len() && input[pos] != '\'' {
        if input[pos] == '"' {
            lemma_scan_single_bounds(input, pos + 1, acc.push('\\').push('"'));
        } else {
            lemma_scan_single_bounds(input, pos + 1, acc.push(input[pos]));
        }
    }
}

proof fn lemma_bare_end_bounds(input: Seq<char>, pos: int)
    requires
        0 <= pos <= input.len(),
    ensures
        pos <= bare_end(input, pos) <= input.len(),
    decreases input.len() - pos,
{
    if pos < input.len() && !bare_delim(input[pos]) {
        lemma_bare_end_bounds(input, pos + 1);
    }
}

proof fn lemma_next_opener_bounds(input: Seq<char>, pos: int)
    requires
        0 <= pos <= input.len(),
    ensures
        pos <= next_opener(input, pos) <= input.len(),
    decreases input.len() - pos,
{
    if pos < input.len() && input[pos] != '{' && input[pos] != '[' {
        lemma_next_opener_bounds(input, pos + 1);
    }
}

proof fn lemma_opener_index_bounds(stack: Seq<JsonContext>, n: int, c: JsonContext)
    requires
        n <= stack.len(),
    ensures
        0 <= opener_index(stack, n, c),
        opener_index(stack, n, c) >= 1 ==> opener_index(stack, n, c) < n,
    decreases n,
{
    if n > 1 && stack[n - 1] != c {
        lemma_opener_index_bounds(stack, n - 1, c);
    }
}

/// Every strategy keeps the input, keeps the root frame at the bottom of the
/// stack, and moves the cursor forward only, never past the end.
pub proof fn lemma_strategy_keeps_invariants(st: RepairStrategy, s: StateView, hint: Seq<char>)
    requires
        state_wf(s),
        strategy_applies(st, s, hint),
    ensures
        state_wf(strategy_step(st, s, hint)),
        strategy_step(st, s, hint).input == s.input,
        s.pos <= strategy_step(st, s, hint).pos,
{
    match st {
        RepairStrategy::SingleQuotes => {
            let s1 = adv(emit(s, seq!['"']), 1);
            lemma_scan_single_bounds(s1.input, s1.pos, s1.output);
        },
        RepairStrategy::IncompleteProperty => {
            lemma_skip_ws_bounds(s.input, s.pos);
        },
        RepairStrategy::MissingQuotes => {
            lemma_bare_end_bounds(s.input, s.pos);
        },
        RepairStrategy::TrimStrayBefore => {
            lemma_next_opener_bounds(s.input, s.pos);
        },
        RepairStrategy::MissingBrackets => {
            lemma_opener_index_bounds(s.stack, s.stack.len() as int, JsonContext::Object);
            lemma_opener_index_bounds(s.stack, s.stack.len() as int, JsonContext::Array);
        },
        _ => {},
    }
}

} // verus!
