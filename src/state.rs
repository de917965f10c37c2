//! The mutable state of one repair attempt: input cursor, context stack and
//! output buffer.

use vstd::prelude::*;
use crate::context::{JsonContext, ctx_is_key, ctx_is_value};
use crate::text::{is_ascii_ws, is_ws, text_at};

verus! {

/// The abstract value of a [`ParseState`].
pub struct StateView {
    pub input: Seq<char>,
    pub pos: int,
    pub stack: Seq<JsonContext>,
    pub output: Seq<char>,
}

/// The character under the cursor, if any.
pub open spec fn cur(s: StateView) -> Option<char> {
    if 0 <= s.pos < s.input.len() {
        Some(s.input[s.pos])
    } else {
        None
    }
}

/// The cursor is on character `c`.
pub open spec fn cur_is(s: StateView, c: char) -> bool {
    cur(s) == Some(c)
}

/// The input from the cursor on starts with `lit`.
pub open spec fn ahead(s: StateView, lit: Seq<char>) -> bool {
    text_at(s.input, s.pos, lit)
}

pub open spec fn top(s: StateView) -> JsonContext {
    if s.stack.len() > 0 {
        s.stack.last()
    } else {
        JsonContext::Root
    }
}

pub open spec fn finished(s: StateView) -> bool {
    s.pos >= s.input.len()
}

/// Removes the top frame, never the bottom one.
pub open spec fn pop(s: StateView) -> StateView {
    if s.stack.len() > 1 {
        StateView { stack: s.stack.drop_last(), ..s }
    } else {
        s
    }
}

pub open spec fn push(s: StateView, c: JsonContext) -> StateView {
    StateView { stack: s.stack.push(c), ..s }
}

pub open spec fn emit(s: StateView, cs: Seq<char>) -> StateView {
    StateView { output: s.output + cs, ..s }
}

pub open spec fn adv(s: StateView, n: int) -> StateView {
    StateView { pos: s.pos + n, ..s }
}

/// The context stack is rooted and the cursor lies within the input.
pub open spec fn state_wf(s: StateView) -> bool {
    &&& s.stack.len() >= 1
    &&& s.stack[0] == JsonContext::Root
    &&& 0 <= s.pos <= s.input.len()
}

/// The input from `pos` on holds whitespace only.
pub open spec fn blank_from(input: Seq<char>, pos: int) -> bool {
    forall|i: int| pos <= i < input.len() ==> is_ws(#[trigger] input[i])
}

/// The first position at or after `pos` that is not whitespace.
pub open spec fn skip_ws(input: Seq<char>, pos: int) -> int
    decreases input.len() - pos,
{
    if 0 <= pos < input.len() && is_ws(input[pos]) {
        skip_ws(input, pos + 1)
    } else {
        pos
    }
}

/// The literal two-character sequence backslash, `n`.
pub open spec fn newline_escape() -> Seq<char> {
    seq!['\\', 'n']
}

/// The first position at or after `pos` that starts neither ASCII
/// whitespace nor the two-character sequence backslash-`n`.
pub open spec fn skip_blank(input: Seq<char>, pos: int) -> int
    decreases input.len() - pos,
{
    if 0 <= pos < input.len() && is_ascii_ws(input[pos]) {
        skip_blank(input, pos + 1)
    } else if 0 <= pos && text_at(input, pos, newline_escape()) {
        skip_blank(input, pos + 2)
    } else {
        pos
    }
}

/// Skipping blanks stays within the input and never moves back.
pub proof fn lemma_skip_blank_bounds(input: Seq<char>, pos: int)
    requires
        0 <= pos <= input.len(),
    ensures
        pos <= skip_blank(input, pos) <= input.len(),
    decreases input.len() - pos,
{
    if pos < input.len() && is_ascii_ws(input[pos]) {
        lemma_skip_blank_bounds(input, pos + 1);
    } else if text_at(input, pos, newline_escape()) {
        lemma_skip_blank_bounds(input, pos + 2);
    }
}

/// Skipping whitespace stays within the input and never moves back.
pub proof fn lemma_skip_ws_bounds(input: Seq<char>, pos: int)
    requires
        0 <= pos <= input.len(),
    ensures
        pos <= skip_ws(input, pos) <= input.len(),
    decreases input.len() - pos,
{
    if pos < input.len() && is_ws(input[pos]) {
        lemma_skip_ws_bounds(input, pos + 1);
    }
}

/// The state of one repair attempt.
pub struct ParseState {
    pub input: Vec<char>,
    pub position: usize,
    pub stack: Vec<JsonContext>,
    pub output: Vec<char>,
}

impl View for ParseState {
    type V = StateView;

    open spec fn view(&self) -> StateView {
        StateView {
            input: self.input@,
            pos: self.position as int,
            stack: self.stack@,
            output: self.output@,
        }
    }
}

/// The first position at or after `pos` that is not whitespace.
pub fn skip_ws_from(input: &Vec<char>, pos: usize) -> (r: usize)
    requires
        pos <= input@.len(),
    ensures
        r as int == skip_ws(input@, pos as int),
        pos <= r <= input@.len(),
{
    let mut p = pos;
    while p < input.len() && crate::text::is_ws_char(input[p])
        invariant
            pos <= p <= input@.len(),
            skip_ws(input@, p as int) == skip_ws(input@, pos as int),
        decreases input.len() - p,
    {
        p += 1;
    }
    p
}

impl ParseState {
    pub open spec fn wf(&self) -> bool {
        state_wf(self@)
    }

    /// A fresh state at the start of `input`, with only the root frame.
    pub fn new(input: Vec<char>) -> (r: ParseState)
        ensures
            r.wf(),
            r@ == (StateView {
                input: input@,
                pos: 0,
                stack: seq![JsonContext::Root],
                output: Seq::empty(),
            }),
    {
        let r = ParseState {
            input,
            position: 0,
            stack: vec![JsonContext::Root],
            output: Vec::new(),
        };
        assert(r.output@ =~= Seq::<char>::empty());
        assert(r.stack@ =~= seq![JsonContext::Root]);
        r
    }

    pub fn current_char(&self) -> (r: Option<char>)
        ensures
            r == cur(self@),
    {
        if self.position < self.input.len() {
            Some(self.input[self.position])
        } else {
            None
        }
    }

    /// The character `k` places after the cursor, if any.
    pub fn char_after(&self, k: usize) -> (r: Option<char>)
        ensures
            r == (if self.position + k < self.input@.len() {
                Some(self.input@[self.position + k])
            } else {
                None::<char>
            }),
    {
        if self.position < self.input.len() && k < self.input.len() - self.position {
            Some(self.input[self.position + k])
        } else {
            None
        }
    }

    /// Up to `count` characters from the cursor on, without moving it.
    pub fn peek_chars(&self, count: usize) -> (r: Vec<char>)
        requires
            self.wf(),
        ensures
            r@ == self.input@.subrange(
                self.position as int,
                vstd::math::min(self.position + count, self.input@.len() as int),
            ),
    {
        let end: usize = if count <= self.input.len() - self.position {
            self.position + count
        } else {
            self.input.len()
        };
        let mut r: Vec<char> = Vec::new();
        let mut i: usize = self.position;
        while i < end
            invariant
                self.position <= i <= end <= self.input.len(),
                r@ == self.input@.subrange(self.position as int, i as int),
            decreases end - i,
        {
            r.push(self.input[i]);
            i += 1;
            assert(r@ =~= self.input@.subrange(self.position as int, i as int));
        }
        r
    }

    /// Moves the cursor `count` characters on and returns what it passed.
    pub fn advance(&mut self, count: usize) -> (r: Vec<char>)
        requires
            old(self).wf(),
            count <= old(self).input.len() - old(self).position,
        ensures
            final(self)@ == adv(old(self)@, count as int),
            final(self).wf(),
            r@ == old(self).input@.subrange(
                old(self).position as int,
                old(self).position + count,
            ),
    {
        let r = self.peek_chars(count);
        self.position = self.position + count;
        r
    }

    /// Moves the cursor `count` characters on.
    pub fn skip(&mut self, count: usize)
        requires
            old(self).wf(),
            count <= old(self).input.len() - old(self).position,
        ensures
            final(self)@ == adv(old(self)@, count as int),
            final(self).wf(),
    {
        self.position = self.position + count;
    }

    /// The input from the cursor on.
    pub fn remaining(&self) -> (r: Vec<char>)
        requires
            self.wf(),
        ensures
            r@ == self.input@.subrange(self.position as int, self.input@.len() as int),
    {
        self.peek_chars(self.input.len() - self.position)
    }

    pub fn is_sq_key_or_value(&self) -> (r: bool)
        ensures
            r == (top(self@) == JsonContext::SingleQuoteValue || top(self@)
                == JsonContext::SingleQuoteProperty),
    {
        let cc = self.current_context();
        cc == JsonContext::SingleQuoteValue || cc == JsonContext::SingleQuoteProperty
    }

    pub fn is_key_or_value(&self) -> (r: bool)
        ensures
            r == (ctx_is_key(top(self@)) || ctx_is_value(top(self@))),
    {
        let cc = self.current_context();
        cc == JsonContext::SingleQuoteValue || cc == JsonContext::DoubleQuoteValue || cc
            == JsonContext::SingleQuoteProperty || cc == JsonContext::DoubleQuoteProperty
    }

    pub fn is_dq_key_or_value(&self) -> (r: bool)
        ensures
            r == (top(self@) == JsonContext::DoubleQuoteValue || top(self@)
                == JsonContext::DoubleQuoteProperty),
    {
        let cc = self.current_context();
        cc == JsonContext::DoubleQuoteValue || cc == JsonContext::DoubleQuoteProperty
    }

    pub fn is_value(&self) -> (r: bool)
        ensures
            r == ctx_is_value(top(self@)),
    {
        self.current_context().is_value()
    }

    pub fn is_prop(&self) -> (r: bool)
        ensures
            r == ctx_is_key(top(self@)),
    {
        self.current_context().is_key()
    }

    pub fn is_finished(&self) -> (r: bool)
        ensures
            r == finished(self@),
    {
        self.position >= self.input.len()
    }

    pub fn current_context(&self) -> (r: JsonContext)
        ensures
            r == top(self@),
    {
        if self.stack.len() > 0 {
            self.stack[self.stack.len() - 1]
        } else {
            JsonContext::Root
        }
    }

    pub fn push_context(&mut self, context: JsonContext)
        requires
            old(self).wf(),
        ensures
            final(self)@ == push(old(self)@, context),
            final(self).wf(),
    {
        self.stack.push(context);
    }

    /// Removes the top frame unless it is the root one, and returns it.
    pub fn pop_context(&mut self) -> (r: Option<JsonContext>)
        requires
            old(self).wf(),
        ensures
            final(self)@ == pop(old(self)@),
            final(self).wf(),
            r == (if old(self)@.stack.len() > 1 {
                Some(top(old(self)@))
            } else {
                None::<JsonContext>
            }),
    {
        if self.stack.len() > 1 {
            let r = self.stack.pop();
            assert(self.stack@ =~= old(self)@.stack.drop_last());
            r
        } else {
            None
        }
    }

    /// Appends one character to the output.
    pub fn emit_char(&mut self, c: char)
        requires
            old(self).wf(),
        ensures
            final(self)@ == emit(old(self)@, seq![c]),
            final(self).wf(),
    {
        self.output.push(c);
        assert(self.output@ =~= old(self)@.output + seq![c]);
    }

    /// Appends characters to the output.
    pub fn emit_all(&mut self, cs: &Vec<char>)
        requires
            old(self).wf(),
        ensures
            final(self)@ == emit(old(self)@, cs@),
            final(self).wf(),
    {
        let mut i: usize = 0;
        while i < cs.len()
            invariant
                i <= cs.len(),
                self@ == emit(old(self)@, cs@.subrange(0, i as int)),
                self.wf(),
            decreases cs.len() - i,
        {
            self.output.push(cs[i]);
            i += 1;
            assert(self.output@ =~= old(self)@.output + cs@.subrange(0, i as int));
        }
        assert(cs@.subrange(0, i as int) =~= cs@);
    }

    /// The input from the cursor on starts with `lit`.
    pub fn looking_at(&self, lit: &Vec<char>) -> (r: bool)
        ensures
            r == ahead(self@, lit@),
    {
        crate::text::matches_at(&self.input, self.position, lit)
    }

    /// The cursor is on character `c`.
    pub fn at_char(&self, c: char) -> (r: bool)
        ensures
            r == cur_is(self@, c),
    {
        self.position < self.input.len() && self.input[self.position] == c
    }

    /// Moves the cursor past ASCII whitespace and backslash-`n` pairs.
    pub fn skip_blank(&mut self)
        requires
            old(self).wf(),
        ensures
            final(self)@ == adv(old(self)@, skip_blank(old(self)@.input, old(self)@.pos) - old(self)@.pos),
            final(self).wf(),
    {
        loop
            invariant
                self.wf(),
                self@.input == old(self)@.input,
                self@.stack == old(self)@.stack,
                self@.output == old(self)@.output,
                skip_blank(self@.input, self@.pos) == skip_blank(old(self)@.input, old(self)@.pos),
            ensures
                self@.pos == skip_blank(old(self)@.input, old(self)@.pos),
            decreases self.input.len() - self.position,
        {
            if self.position < self.input.len() && crate::text::is_ascii_ws_char(self.input[self.position]) {
                self.position = self.position + 1;
            } else if self.input.len() - self.position > 1 && self.input[self.position] == '\\'
                && self.input[self.position + 1] == 'n' {
                assert(text_at(self@.input, self@.pos, newline_escape())) by {
                    assert(self@.input.subrange(self@.pos, self@.pos + 2) =~= newline_escape());
                }
                self.position = self.position + 2;
            } else {
                assert(!text_at(self@.input, self@.pos, newline_escape())) by {
                    if text_at(self@.input, self@.pos, newline_escape()) {
                        assert(self@.input.subrange(self@.pos, self@.pos + 2)[0] == '\\');
                        assert(self@.input.subrange(self@.pos, self@.pos + 2)[1] == 'n');
                    }
                }
                assert(skip_blank(self@.input, self@.pos) == self@.pos);
                break;
            }
        }
    }
}

} // verus!
