//! Properties that relate several runs of the parser.

use vstd::prelude::*;
use crate::handlers::lemma_handler_keeps_invariants;
use crate::parser::{
    ParserView, RepairOutcome, after_strategies, driver_step, handler_from, initial_state,
    parse_agrees, repair_loop, repair_outcome, strategies_from,
};
use crate::state::{StateView, finished, state_wf};
use crate::strategies::{RepairStrategy, lemma_strategy_keeps_invariants, strategy_applies};
use crate::strict::{JsonValue, strict_accepts, strict_error_text, strict_value};

verus! {

proof fn lemma_loop_count(p: ParserView, s: StateView, hint: Seq<char>, n: nat)
    requires
        n <= p.options.max_repair_attempts,
    ensures
        n <= repair_loop(p, s, hint, n).1 <= p.options.max_repair_attempts,
    decreases p.options.max_repair_attempts - n,
{
    if !(crate::state::finished(s) || n >= p.options.max_repair_attempts) {
        match crate::parser::driver_step(p, s, hint) {
            Some(t) => lemma_loop_count(p, t, hint, n + 1),
            None => {},
        }
    }
}

/// The repair loop runs at most `max_repair_attempts` iterations on any
/// input, and repair succeeds only when it ran fewer.
pub proof fn lemma_repair_within_cap(p: ParserView, text: Seq<char>, hint: Seq<char>)
    ensures
        repair_loop(p, after_strategies(p, initial_state(text), hint), hint, 0).1
            <= p.options.max_repair_attempts,
        repair_outcome(p, text, hint) is Repaired ==> repair_loop(
            p,
            after_strategies(p, initial_state(text), hint),
            hint,
            0,
        ).1 < p.options.max_repair_attempts,
{
    lemma_loop_count(p, after_strategies(p, initial_state(text), hint), hint, 0);
}

/// Parsing the text that repair made from `text` gives what parsing `text`
/// gave, whenever the strict parser accepts that repaired text.
pub proof fn lemma_repair_fixed_point(
    p: ParserView,
    text: Seq<char>,
    out: Seq<char>,
    r: Result<JsonValue, crate::parser::FuzzyJsonError>,
)
    requires
        !strict_accepts(text),
        p.options.auto_repair,
        repair_outcome(p, text, strict_error_text(text)) == RepairOutcome::Repaired(out),
        strict_accepts(out),
    ensures
        parse_agrees(p, out, r) <==> parse_agrees(p, text, r),
{
}

/// A text that the strict parser accepts parses to the strict parser's
/// value, whatever the options.
pub proof fn lemma_strict_input_unchanged(
    p: ParserView,
    text: Seq<char>,
    r: Result<JsonValue, crate::parser::FuzzyJsonError>,
)
    requires
        strict_accepts(text),
    ensures
        parse_agrees(p, text, r) <==> (r is Ok && r->Ok_0@ == strict_value(text)),
{
}

proof fn lemma_strategies_keep_invariants(ss: Seq<RepairStrategy>, i: int, s: StateView, hint: Seq<char>)
    requires
        0 <= i,
        state_wf(s),
    ensures
        match strategies_from(ss, i, s, hint) {
            Some(t) => state_wf(t) && t.input == s.input && s.pos <= t.pos,
            None => true,
        },
    decreases ss.len() - i,
{
    if i < ss.len() {
        if strategy_applies(ss[i], s, hint) {
            lemma_strategy_keeps_invariants(ss[i], s, hint);
        } else {
            lemma_strategies_keep_invariants(ss, i + 1, s, hint);
        }
    }
}

/// The repair loop keeps the input, keeps the root frame at the bottom of
/// the stack, and never moves the cursor back or past the end.
pub proof fn lemma_loop_keeps_invariants(p: ParserView, s: StateView, hint: Seq<char>, n: nat)
    requires
        state_wf(s),
    ensures
        state_wf(repair_loop(p, s, hint, n).0),
        repair_loop(p, s, hint, n).0.input == s.input,
        s.pos <= repair_loop(p, s, hint, n).0.pos,
    decreases p.options.max_repair_attempts - n,
{
    if !(finished(s) || n >= p.options.max_repair_attempts) {
        crate::parser::lemma_handler_from(p.handlers, 0, s);
        lemma_strategies_keep_invariants(p.strategies, 0, s, hint);
        match handler_from(p.handlers, 0, s) {
            Some(k) => lemma_handler_keeps_invariants(p.handlers[k], s),
            None => {},
        }
        match driver_step(p, s, hint) {
            Some(t) => lemma_loop_keeps_invariants(p, t, hint, n + 1),
            None => {},
        }
    }
}

} // verus!
