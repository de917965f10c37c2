//! The aggressive pre-pass: closes every scope left open in a truncated
//! document without touching what is already there.

use vstd::prelude::*;
use crate::context::JsonContext;
use crate::strategies::{remove_trailing_comma, strip_trailing_comma};

verus! {

/// Scanner state after reading `s` from `i` on: inside a string, its quote,
/// whether the next character is escaped, and the stack of open scopes.
pub open spec fn scope_scan(
    s: Seq<char>,
    i: int,
    in_str: bool,
    q: char,
    esc: bool,
    scopes: Seq<JsonContext>,
) -> (bool, char, Seq<JsonContext>)
    decreases s.len() - i,
{
    if i < 0 || i >= s.len() {
        (in_str, q, scopes)
    } else {
        let ch = s[i];
        if esc {
            scope_scan(s, i + 1, in_str, q, false, scopes)
        } else if ch == '\\' && in_str {
            scope_scan(s, i + 1, in_str, q, true, scopes)
        } else if (ch == '"' || ch == '\'') && !in_str {
            scope_scan(s, i + 1, true, ch, false, scopes)
        } else if in_str && ch == q {
            scope_scan(s, i + 1, false, q, false, scopes)
        } else if in_str {
            scope_scan(s, i + 1, in_str, q, false, scopes)
        } else if ch == '{' {
            scope_scan(s, i + 1, in_str, q, false, scopes.push(JsonContext::Object))
        } else if ch == '[' {
            scope_scan(s, i + 1, in_str, q, false, scopes.push(JsonContext::Array))
        } else if ch == '}' && scopes.len() > 0 && scopes.last() == JsonContext::Object {
            scope_scan(s, i + 1, in_str, q, false, scopes.drop_last())
        } else if ch == ']' && scopes.len() > 0 && scopes.last() == JsonContext::Array {
            scope_scan(s, i + 1, in_str, q, false, scopes.drop_last())
        } else {
            scope_scan(s, i + 1, in_str, q, false, scopes)
        }
    }
}

/// The closing brackets of scopes `n - 1` down to the nearest root frame.
pub open spec fn scope_closings(scopes: Seq<JsonContext>, n: int) -> Seq<char>
    decreases n,
{
    if n <= 0 || n > scopes.len() || scopes[n - 1] == JsonContext::Root {
        Seq::empty()
    } else if scopes[n - 1] == JsonContext::Object {
        seq!['}'] + scope_closings(scopes, n - 1)
    } else if scopes[n - 1] == JsonContext::Array {
        seq![']'] + scope_closings(scopes, n - 1)
    } else {
        scope_closings(scopes, n - 1)
    }
}

/// `s` with its open string and scopes closed.
pub open spec fn closed_document(s: Seq<char>) -> Seq<char> {
    let r = scope_scan(s, 0, false, '"', false, seq![JsonContext::Root]);
    let body = if r.0 {
        s.push(r.1)
    } else {
        s
    };
    strip_trailing_comma(body) + scope_closings(r.2, r.2.len() as int)
}

/// Appends to `s` what closes its open string and scopes, after dropping a
/// trailing `,`.
pub fn close_document(s: &Vec<char>) -> (r: Vec<char>)
    ensures
        r@ == closed_document(s@),
{
    let mut out: Vec<char> = Vec::new();
    let mut in_string = false;
    let mut quote = '"';
    let mut escape_next = false;
    let mut scopes: Vec<JsonContext> = vec![JsonContext::Root];
    let ghost start = seq![JsonContext::Root];
    assert(scopes@ =~= start);
    let mut i: usize = 0;
    while i < s.len()
        invariant
            i <= s@.len(),
            out@ == s@.subrange(0, i as int),
            scope_scan(s@, i as int, in_string, quote, escape_next, scopes@) == scope_scan(
                s@,
                0,
                false,
                '"',
                false,
                start,
            ),
        decreases s.len() - i,
    {
        let ch = s[i];
        let ghost sc0 = scopes@;
        if escape_next {
            escape_next = false;
        } else if ch == '\\' && in_string {
            escape_next = true;
        } else if (ch == '"' || ch == '\'') && !in_string {
            in_string = true;
            quote = ch;
        } else if in_string && ch == quote {
            in_string = false;
        } else if in_string {
        } else if ch == '{' {
            scopes.push(JsonContext::Object);
        } else if ch == '[' {
            scopes.push(JsonContext::Array);
        } else if ch == '}' && scopes.len() > 0 && scopes[scopes.len() - 1] == JsonContext::Object {
            scopes.pop();
            assert(scopes@ =~= sc0.drop_last());
        } else if ch == ']' && scopes.len() > 0 && scopes[scopes.len() - 1] == JsonContext::Array {
            scopes.pop();
            assert(scopes@ =~= sc0.drop_last());
        }
        out.push(ch);
        i += 1;
        assert(out@ =~= s@.subrange(0, i as int));
    }
    assert(out@ =~= s@);
    if in_string {
        out.push(quote);
    }
    remove_trailing_comma(&mut out);
    let ghost body = out@;
    let ghost all = scopes@;
    let mut n = scopes.len();
    while n > 0 && scopes[n - 1] != JsonContext::Root
        invariant
            n <= all.len(),
            scopes@ == all,
            out@ + scope_closings(all, n as int) == body + scope_closings(all, all.len() as int),
        decreases n,
    {
        let ghost before = out@;
        if scopes[n - 1] == JsonContext::Object {
            out.push('}');
            assert(out@ =~= before + seq!['}']);
        } else if scopes[n - 1] == JsonContext::Array {
            out.push(']');
            assert(out@ =~= before + seq![']']);
        } else {
            assert(out@ =~= before + Seq::<char>::empty());
        }
        n -= 1;
        assert(out@ + scope_closings(all, n as int) =~= before + scope_closings(all, n + 1));
    }
    assert(scope_closings(all, n as int) =~= Seq::<char>::empty());
    assert(out@ =~= out@ + scope_closings(all, n as int));
    out
}

} // verus!
