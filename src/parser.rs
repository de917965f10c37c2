//! The driver: strict parse first, then the repair loop over handlers and
//! strategies, then a strict parse of the repaired text.

use vstd::prelude::*;
use crate::close::{close_document, closed_document};
use crate::context::JsonContext;
use crate::handlers::{StateHandler, handler_applies, handler_step};
use crate::state::{ParseState, StateView, cur, finished, skip_ws, top};
use crate::strategies::{
    RepairStrategy, strategy_applies, strategy_priority, strategy_step, trim_end_index, trim_end_len,
};
use crate::context::context_name;
use crate::strict::{
    JsonValue, chars_of, serde_value_of, strict_accepts, strict_error_text, strict_parse, strict_value,
    string_of,
};

verus! {

/// Why a parse failed.
#[derive(Debug)]
pub enum FuzzyJsonError {
    /// No handler or strategy could make progress at `pos`.
    ParseError { pos: usize, msg: String },
    /// Repair was not allowed, or took too many attempts.
    RepairFailed(String),
    /// The strict parser rejected the repaired text.
    JsonError(serde_json::Error),
}

/// The option flags that steer repair.
#[derive(Debug, Clone, Copy, PartialEq, Eq, Structural)]
pub struct ParserOptions {
    pub auto_repair: bool,
    pub allow_trailing_commas: bool,
    pub allow_comments: bool,
    pub allow_single_quotes: bool,
    pub allow_unquoted_keys: bool,
    pub max_repair_attempts: usize,
    pub strict_mode: bool,
    pub aggressive_truncation_repair: bool,
}

pub open spec fn default_options() -> ParserOptions {
    ParserOptions {
        auto_repair: true,
        allow_trailing_commas: true,
        allow_comments: true,
        allow_single_quotes: true,
        allow_unquoted_keys: false,
        max_repair_attempts: 1500,
        strict_mode: false,
        aggressive_truncation_repair: true,
    }
}

impl Default for ParserOptions {
    fn default() -> (r: Self)
        ensures
            r == default_options(),
    {
        ParserOptions {
            auto_repair: true,
            allow_trailing_commas: true,
            allow_comments: true,
            allow_single_quotes: true,
            allow_unquoted_keys: false,
            max_repair_attempts: 1500,
            strict_mode: false,
            aggressive_truncation_repair: true,
        }
    }
}

/// The strategies a parser starts with, highest priority first; two of
/// them depend on the options.
pub open spec fn default_strategies(o: ParserOptions) -> Seq<RepairStrategy> {
    seq![RepairStrategy::TruncationRepair, RepairStrategy::CodeBlockMarkers]
        + (if o.allow_single_quotes {
        seq![RepairStrategy::SingleQuotes]
    } else {
        Seq::empty()
    }) + seq![RepairStrategy::IncompleteProperty, RepairStrategy::IncompleteArray] + (
    if o.allow_trailing_commas {
        seq![RepairStrategy::TrailingComma]
    } else {
        Seq::empty()
    }) + seq![
        RepairStrategy::MissingQuotes,
        RepairStrategy::TrimStrayBefore,
        RepairStrategy::TrimStrayAfter,
        RepairStrategy::MissingBrackets,
    ]
}

/// The handlers a parser starts with, in the order they are tried; the
/// unquoted-key handler only when the options allow unquoted keys.
pub open spec fn default_handlers(o: ParserOptions) -> Seq<StateHandler> {
    seq![
        StateHandler::Whitespace,
        StateHandler::Literal,
        StateHandler::Colon,
        StateHandler::Comma,
        StateHandler::Quoted,
        StateHandler::Number,
        StateHandler::Object,
        StateHandler::Array,
    ] + if o.allow_unquoted_keys {
        seq![StateHandler::UnquotedKey]
    } else {
        Seq::empty()
    }
}

/// Strategies are ordered by priority, highest first.
pub open spec fn by_priority(ss: Seq<RepairStrategy>) -> bool {
    forall|i: int, j: int|
        0 <= i < j < ss.len() ==> strategy_priority(#[trigger] ss[i]) >= strategy_priority(
            #[trigger] ss[j],
        )
}

/// Where a strategy of priority `p` goes: after every strategy of priority
/// `p` or more.
pub open spec fn insertion_point(ss: Seq<RepairStrategy>, i: int, p: u8) -> int
    decreases ss.len() - i,
{
    if i < 0 || i >= ss.len() || strategy_priority(ss[i]) < p {
        i
    } else {
        insertion_point(ss, i + 1, p)
    }
}

/// A parser: its strategies, its handlers and its options.
pub struct FuzzyJsonParser {
    pub repair_strategies: Vec<RepairStrategy>,
    pub state_handlers: Vec<StateHandler>,
    pub options: ParserOptions,
}

/// The abstract value of a [`FuzzyJsonParser`].
pub struct ParserView {
    pub strategies: Seq<RepairStrategy>,
    pub handlers: Seq<StateHandler>,
    pub options: ParserOptions,
}

impl View for FuzzyJsonParser {
    type V = ParserView;

    open spec fn view(&self) -> ParserView {
        ParserView {
            strategies: self.repair_strategies@,
            handlers: self.state_handlers@,
            options: self.options,
        }
    }
}

/// `text` without leading and trailing whitespace, as `str::trim` drops it.
pub open spec fn trim_ws(text: Seq<char>) -> Seq<char> {
    let a = skip_ws(text, 0);
    let b = trim_end_len(text, text.len() as int);
    if a < b {
        text.subrange(a, b)
    } else {
        Seq::empty()
    }
}

/// The index of the first handler from `i` on that applies to `s`.
pub open spec fn handler_from(hs: Seq<StateHandler>, i: int, s: StateView) -> Option<int>
    decreases hs.len() - i,
{
    if i < 0 || i >= hs.len() {
        None
    } else if handler_applies(hs[i], s) {
        Some(i)
    } else {
        handler_from(hs, i + 1, s)
    }
}

/// The state after the first strategy from `i` on that applies, if any.
pub open spec fn strategies_from(ss: Seq<RepairStrategy>, i: int, s: StateView, hint: Seq<char>) -> Option<StateView>
    decreases ss.len() - i,
{
    if i < 0 || i >= ss.len() {
        None
    } else if strategy_applies(ss[i], s, hint) {
        Some(strategy_step(ss[i], s, hint))
    } else {
        strategies_from(ss, i + 1, s, hint)
    }
}

/// The state after the strategies are tried once; unchanged if none applies.
pub open spec fn after_strategies(p: ParserView, s: StateView, hint: Seq<char>) -> StateView {
    match strategies_from(p.strategies, 0, s, hint) {
        Some(t) => t,
        None => s,
    }
}

/// One iteration: the first handler that applies, else the first strategy;
/// `None` when neither does.
pub open spec fn driver_step(p: ParserView, s: StateView, hint: Seq<char>) -> Option<StateView> {
    match handler_from(p.handlers, 0, s) {
        Some(k) => Some(handler_step(p.handlers[k], s)),
        None => strategies_from(p.strategies, 0, s, hint),
    }
}

/// The repair loop from attempt `n` on: the final state, the number of
/// attempts made, and whether it got stuck.
pub open spec fn repair_loop(p: ParserView, s: StateView, hint: Seq<char>, n: nat) -> (StateView, nat, bool)
    decreases p.options.max_repair_attempts - n,
{
    if finished(s) || n >= p.options.max_repair_attempts {
        (s, n, false)
    } else {
        match driver_step(p, s, hint) {
            Some(t) => repair_loop(p, t, hint, n + 1),
            None => (s, n, true),
        }
    }
}

/// The initial state of a repair of `text`.
pub open spec fn initial_state(text: Seq<char>) -> StateView {
    StateView {
        input: trim_ws(text),
        pos: 0,
        stack: seq![JsonContext::Root],
        output: Seq::empty(),
    }
}

/// The outcome of the repair loop, before any strict parse.
pub enum RepairOutcome {
    Repaired(Seq<char>),
    /// No handler or strategy applies in this state.
    Stuck(StateView),
    TooManyAttempts,
}

pub open spec fn repair_outcome(p: ParserView, text: Seq<char>, hint: Seq<char>) -> RepairOutcome {
    let s1 = after_strategies(p, initial_state(text), hint);
    let r = repair_loop(p, s1, hint, 0);
    if r.2 {
        RepairOutcome::Stuck(r.0)
    } else if r.1 >= p.options.max_repair_attempts {
        RepairOutcome::TooManyAttempts
    } else {
        let s2 = if top(r.0) != JsonContext::Root {
            after_strategies(p, r.0, hint)
        } else {
            r.0
        };
        RepairOutcome::Repaired(s2.output)
    }
}

/// How a character under the cursor is named in a message.
pub open spec fn char_text(c: Option<char>) -> Seq<char> {
    match c {
        Some(x) => seq![x],
        None => "end of input"@,
    }
}

/// The message of a stuck repair: the top frame and the current character.
pub open spec fn stuck_message(c: JsonContext, ch: Option<char>) -> Seq<char> {
    "No handler for current state: "@ + context_name(c) + " | "@ + char_text(ch)
}

/// `e` is the error of a repair stuck in state `s`.
pub open spec fn stuck_error(e: FuzzyJsonError, s: StateView) -> bool {
    &&& e is ParseError
    &&& e->ParseError_pos == s.pos
    &&& e->ParseError_msg@ == stuck_message(top(s), cur(s))
}

/// `e` says that repair took too many attempts.
pub open spec fn too_many_error(e: FuzzyJsonError) -> bool {
    e is RepairFailed && e->RepairFailed_0@ == "Too many repair attempts"@
}

/// `r` is what the repair of `text` with error hint `hint` returns.
pub open spec fn repair_agrees(
    p: ParserView,
    text: Seq<char>,
    hint: Seq<char>,
    r: Result<String, FuzzyJsonError>,
) -> bool {
    match repair_outcome(p, text, hint) {
        RepairOutcome::Repaired(out) => r is Ok && r->Ok_0@ == out,
        RepairOutcome::Stuck(s) => r is Err && stuck_error(r->Err_0, s),
        RepairOutcome::TooManyAttempts => r is Err && too_many_error(r->Err_0),
    }
}

/// `r` is what parsing `text` returns: the strict parser's value when it
/// accepts `text`; otherwise, when repair is on, the strict parser's value
/// of the text that repair makes with the strict parser's error message as
/// its hint.
pub open spec fn parse_agrees(p: ParserView, text: Seq<char>, r: Result<JsonValue, FuzzyJsonError>) -> bool {
    if strict_accepts(text) {
        r is Ok && r->Ok_0@ == strict_value(text)
    } else if !p.options.auto_repair {
        r is Err && r->Err_0 is RepairFailed && r->Err_0->RepairFailed_0@ == "Auto-repair disabled"@
    } else {
        match repair_outcome(p, text, strict_error_text(text)) {
            RepairOutcome::Repaired(out) => if strict_accepts(out) {
                r is Ok && r->Ok_0@ == strict_value(out)
            } else {
                r is Err && r->Err_0 is JsonError
            },
            RepairOutcome::Stuck(s) => r is Err && stuck_error(r->Err_0, s),
            RepairOutcome::TooManyAttempts => r is Err && too_many_error(r->Err_0),
        }
    }
}

/// The characters of `text` without leading and trailing whitespace.
pub fn trim_chars(text: &Vec<char>) -> (r: Vec<char>)
    ensures
        r@ == trim_ws(text@),
{
    let a = crate::state::skip_ws_from(text, 0);
    let b = trim_end_index(text);
    let mut r: Vec<char> = Vec::new();
    if a < b {
        let mut i = a;
        while i < b
            invariant
                a <= i <= b <= text@.len(),
                r@ == text@.subrange(a as int, i as int),
            decreases b - i,
        {
            r.push(text[i]);
            i += 1;
            assert(r@ =~= text@.subrange(a as int, i as int));
        }
    } else {
        assert(r@ =~= Seq::<char>::empty());
    }
    r
}

/// The message for a repair stuck in `state`.
fn stuck_text(state: &ParseState) -> (r: String)
    ensures
        r@ == stuck_message(top(state@), cur(state@)),
{
    let mut v = chars_of("No handler for current state: ");
    let mut name = chars_of(state.current_context().name());
    v.append(&mut name);
    let mut sep = chars_of(" | ");
    v.append(&mut sep);
    match state.current_char() {
        Some(c) => v.push(c),
        None => {
            let mut end = chars_of("end of input");
            v.append(&mut end);
        },
    }
    assert(v@ =~= stuck_message(top(state@), cur(state@)));
    string_of(&v)
}

impl FuzzyJsonParser {
    /// The strategies stay ordered by priority.
    pub open spec fn wf(&self) -> bool {
        by_priority(self.repair_strategies@)
    }

    /// A parser with the default options.
    pub fn new() -> (r: Self)
        ensures
            r.wf(),
            r@.options == default_options(),
            r@.strategies == default_strategies(default_options()),
            r@.handlers == default_handlers(default_options()),
    {
        Self::with_options(ParserOptions::default())
    }

    /// A parser with the given options and the default strategies and
    /// handlers.
    pub fn with_options(options: ParserOptions) -> (r: Self)
        ensures
            r.wf(),
            r@.options == options,
            r@.strategies == default_strategies(options),
            r@.handlers == default_handlers(options),
    {
        let mut parser = FuzzyJsonParser {
            repair_strategies: Vec::new(),
            state_handlers: Vec::new(),
            options,
        };
        parser.register_default_strategies();
        parser.register_default_handlers();
        parser
    }

    fn register_default_strategies(&mut self)
        requires
            old(self).repair_strategies@.len() == 0,
        ensures
            final(self).wf(),
            final(self)@.strategies == default_strategies(old(self).options),
            final(self)@.handlers == old(self)@.handlers,
            final(self).options == old(self).options,
    {
        let ghost o = self.options;
        self.repair_strategies.push(RepairStrategy::TruncationRepair);
        self.repair_strategies.push(RepairStrategy::CodeBlockMarkers);
        if self.options.allow_single_quotes {
            self.repair_strategies.push(RepairStrategy::SingleQuotes);
        }
        self.repair_strategies.push(RepairStrategy::IncompleteProperty);
        self.repair_strategies.push(RepairStrategy::IncompleteArray);
        if self.options.allow_trailing_commas {
            self.repair_strategies.push(RepairStrategy::TrailingComma);
        }
        self.repair_strategies.push(RepairStrategy::MissingQuotes);
        self.repair_strategies.push(RepairStrategy::TrimStrayBefore);
        self.repair_strategies.push(RepairStrategy::TrimStrayAfter);
        self.repair_strategies.push(RepairStrategy::MissingBrackets);
        assert(self.repair_strategies@ =~= default_strategies(o));
        let ghost ss = self.repair_strategies@;
        assert forall|i: int, j: int| 0 <= i < j < ss.len() implies strategy_priority(
            #[trigger] ss[i],
        ) >= strategy_priority(#[trigger] ss[j]) by {
            assert(strategy_priority(ss[0]) == 95);
            assert(strategy_priority(ss[ss.len() - 1]) == 60);
        }
    }

    fn register_default_handlers(&mut self)
        requires
            old(self).state_handlers@.len() == 0,
        ensures
            final(self)@.handlers == default_handlers(old(self).options),
            final(self)@.strategies == old(self)@.strategies,
            final(self).options == old(self).options,
    {
        self.state_handlers.push(StateHandler::Whitespace);
        self.state_handlers.push(StateHandler::Literal);
        self.state_handlers.push(StateHandler::Colon);
        self.state_handlers.push(StateHandler::Comma);
        self.state_handlers.push(StateHandler::Quoted);
        self.state_handlers.push(StateHandler::Number);
        self.state_handlers.push(StateHandler::Object);
        self.state_handlers.push(StateHandler::Array);
        if self.options.allow_unquoted_keys {
            self.state_handlers.push(StateHandler::UnquotedKey);
        }
        assert(self.state_handlers@ =~= default_handlers(self.options));
    }
}


pub(crate) proof fn lemma_handler_from(hs: Seq<StateHandler>, i: int, s: StateView)
    requires
        0 <= i,
    ensures
        match handler_from(hs, i, s) {
            Some(k) => i <= k < hs.len() && handler_applies(hs[k], s),
            None => true,
        },
    decreases hs.len() - i,
{
    if i < hs.len() && !handler_applies(hs[i], s) {
        lemma_handler_from(hs, i + 1, s);
    }
}

impl FuzzyJsonParser {
    /// Adds a strategy after every strategy of the same or higher priority.
    pub fn register_strategy(&mut self, strategy: RepairStrategy)
        requires
            old(self).wf(),
        ensures
            final(self).wf(),
            final(self)@.strategies == old(self)@.strategies.insert(
                insertion_point(old(self)@.strategies, 0, strategy_priority(strategy)),
                strategy,
            ),
            final(self)@.handlers == old(self)@.handlers,
            final(self).options == old(self).options,
    {
        let p = strategy.priority();
        let ghost ss = self.repair_strategies@;
        let mut k: usize = 0;
        while k < self.repair_strategies.len() && self.repair_strategies[k].priority() >= p
            invariant
                self.repair_strategies@ == ss,
                k <= ss.len(),
                insertion_point(ss, k as int, p) == insertion_point(ss, 0, p),
                forall|i: int| 0 <= i < k ==> strategy_priority(#[trigger] ss[i]) >= p,
            decreases ss.len() - k,
        {
            k += 1;
        }
        assert(k < ss.len() ==> strategy_priority(ss[k as int]) < p);
        self.repair_strategies.insert(k, strategy);
        let ghost ns = self.repair_strategies@;
        assert forall|i: int, j: int| 0 <= i < j < ns.len() implies strategy_priority(
            #[trigger] ns[i],
        ) >= strategy_priority(#[trigger] ns[j]) by {
            if i < k && j < k {
                assert(ns[i] == ss[i] && ns[j] == ss[j]);
            } else if i < k && j == k {
            } else if i < k {
                assert(ns[i] == ss[i] && ns[j] == ss[j - 1]);
            } else if i == k {
                assert(ns[j] == ss[j - 1]);
                assert(strategy_priority(ss[k as int]) < p);
                assert(strategy_priority(ss[k as int]) >= strategy_priority(ss[j - 1])) by {
                    if j - 1 > k {
                    }
                }
            } else {
                assert(ns[i] == ss[i - 1] && ns[j] == ss[j - 1]);
            }
        }
    }

    /// Adds a handler, tried after the ones already there.
    pub fn register_handler(&mut self, handler: StateHandler)
        ensures
            final(self)@.handlers == old(self)@.handlers.push(handler),
            final(self)@.strategies == old(self)@.strategies,
            final(self).options == old(self).options,
    {
        self.state_handlers.push(handler);
    }

    /// The index of the first handler that applies to `state`.
    fn find_handler(&self, state: &ParseState) -> (r: Option<usize>)
        requires
            state.wf(),
        ensures
            match r {
                Some(k) => handler_from(self@.handlers, 0, state@) == Some(k as int) && k
                    < self@.handlers.len(),
                None => handler_from(self@.handlers, 0, state@) is None,
            },
    {
        let mut i: usize = 0;
        while i < self.state_handlers.len()
            invariant
                state.wf(),
                i <= self@.handlers.len(),
                handler_from(self@.handlers, i as int, state@) == handler_from(
                    self@.handlers,
                    0,
                    state@,
                ),
            decreases self.state_handlers.len() - i,
        {
            if self.state_handlers[i].can_handle(state) {
                return Some(i);
            }
            assert(handler_from(self@.handlers, i as int, state@) == handler_from(
                self@.handlers,
                i + 1,
                state@,
            ));
            i += 1;
        }
        None
    }

    /// Runs the first strategy that applies; says whether one did.
    fn try_repair_strategies(&self, state: &mut ParseState, error: &Vec<char>) -> (r: bool)
        requires
            old(state).wf(),
        ensures
            final(state).wf(),
            match strategies_from(self@.strategies, 0, old(state)@, error@) {
                Some(t) => r && final(state)@ == t,
                None => !r && final(state)@ == old(state)@,
            },
    {
        let mut i: usize = 0;
        while i < self.repair_strategies.len()
            invariant
                state.wf(),
                state@ == old(state)@,
                i <= self@.strategies.len(),
                strategies_from(self@.strategies, i as int, state@, error@) == strategies_from(
                    self@.strategies,
                    0,
                    state@,
                    error@,
                ),
            decreases self.repair_strategies.len() - i,
        {
            let st = self.repair_strategies[i];
            if st.can_repair(state, error) {
                st.repair(state, error);
                return true;
            }
            i += 1;
        }
        false
    }

    /// Rewrites `json_str` into strict JSON text, where `hint` is the strict
    /// parser's error text for it.
    pub fn repair_with_hint(&self, json_str: &str, hint: &str) -> (r: Result<String, FuzzyJsonError>)
        ensures
            repair_agrees(self@, json_str@, hint@, r),
    {
        let error = chars_of(hint);
        let text = chars_of(json_str);
        let mut state = ParseState::new(trim_chars(&text));
        self.try_repair_strategies(&mut state, &error);
        let ghost s1 = state@;
        assert(s1 == after_strategies(self@, initial_state(json_str@), hint@));
        let max = self.options.max_repair_attempts;
        let mut attempts: usize = 0;
        while !state.is_finished() && attempts < max
            invariant
                state.wf(),
                attempts <= max,
                max == self@.options.max_repair_attempts,
                error@ == hint@,
                s1 == after_strategies(self@, initial_state(json_str@), hint@),
                repair_loop(self@, state@, hint@, attempts as nat) == repair_loop(self@, s1, hint@, 0),
            decreases max - attempts,
        {
            proof {
                lemma_handler_from(self@.handlers, 0, state@);
            }
            let ghost before = state@;
            match self.find_handler(&state) {
                Some(k) => {
                    self.state_handlers[k].handle(&mut state);
                },
                None => {
                    if !self.try_repair_strategies(&mut state, &error) {
                        assert(driver_step(self@, before, hint@) is None);
                        assert(repair_loop(self@, before, hint@, attempts as nat) == (
                            before,
                            attempts as nat,
                            true,
                        ));
let msg = stuck_text(&state);
                        return Err(FuzzyJsonError::ParseError { pos: state.position, msg });
                    }
                },
            }
            attempts += 1;
        }
        if state.current_context() != JsonContext::Root {
            self.try_repair_strategies(&mut state, &error);
        }
        if attempts >= max {
            return Err(FuzzyJsonError::RepairFailed(String::from_str("Too many repair attempts")));
        }
        Ok(string_of(&state.output))
    }

    /// Rewrites `json_str` into strict JSON text, steered by the strict
    /// parser's error `e` for it.
    pub fn repair_json(&self, json_str: &str, e: serde_json::Error) -> (r: Result<String, FuzzyJsonError>)
        ensures
            exists|hint: Seq<char>| repair_agrees(self@, json_str@, hint, r),
    {
        let hint = e.to_string();
        self.repair_with_hint(json_str, hint.as_str())
    }

    /// Parses `json_str` strictly, or else repairs it and parses the result.
    pub fn parse_value(&self, json_str: &str) -> (r: Result<JsonValue, FuzzyJsonError>)
        ensures
            parse_agrees(self@, json_str@, r),
    {
        match strict_parse(json_str) {
            Ok(value) => Ok(value),
            Err(e) => {
                if !self.options.auto_repair {
                    return Err(FuzzyJsonError::RepairFailed(String::from_str("Auto-repair disabled")));
                }
                match self.repair_with_hint(json_str, e.message.as_str()) {
                    Ok(text) => match strict_parse(text.as_str()) {
                        Ok(value) => Ok(value),
                        Err(e2) => Err(FuzzyJsonError::JsonError(e2.error)),
                    },
                    Err(err) => Err(err),
                }
            },
        }
    }

    /// Closes every scope left open in `json_str`, when the option is on;
    /// otherwise returns it as it is.
    pub fn aggressively_close_scopes(&self, json_str: &str) -> (r: Result<String, FuzzyJsonError>)
        ensures
            r is Ok,
            self.options.aggressive_truncation_repair ==> r->Ok_0@ == closed_document(
                trim_ws(json_str@),
            ),
            !self.options.aggressive_truncation_repair ==> r->Ok_0@ == json_str@,
    {
        if !self.options.aggressive_truncation_repair {
            return Ok(String::from_str(json_str));
        }
        let text = trim_chars(&chars_of(json_str));
        Ok(string_of(&close_document(&text)))
    }
}


/// Relies on `serde_json::from_value`: reads a `T` out of a JSON value, or
/// returns serde_json's error.
#[verifier::external_body]
fn value_into<T: serde::de::DeserializeOwned>(v: serde_json::Value) -> (r: Result<T, serde_json::Error>) {
    serde_json::from_value(v)
}

impl FuzzyJsonParser {
    /// Parses `json_str` as [`FuzzyJsonParser::parse_value`] does, then reads
    /// a `T` out of the value; any failure there is a `JsonError`.
    pub fn parse<T: serde::de::DeserializeOwned>(&self, json_str: &str) -> (r: Result<T, FuzzyJsonError>)
        ensures
            exists|v: Result<JsonValue, FuzzyJsonError>|
                parse_agrees(self@, json_str@, v) && match v {
                    Err(e) => r == Err::<T, FuzzyJsonError>(e),
                    Ok(_) => r is Ok || r->Err_0 is JsonError,
                },
    {
        let v = self.parse_value(json_str);
        match v {
            Ok(value) => match serde_value_of(value) {
                Ok(serde) => match value_into(serde) {
                    Ok(t) => Ok(t),
                    Err(e) => Err(FuzzyJsonError::JsonError(e)),
                },
                Err(e) => Err(FuzzyJsonError::JsonError(e)),
            },
            Err(e) => Err(e),
        }
    }
}

/// Registers each of `customs` in turn, from `ss` on.
pub open spec fn register_all(ss: Seq<RepairStrategy>, customs: Seq<RepairStrategy>) -> Seq<RepairStrategy>
    decreases customs.len(),
{
    if customs.len() == 0 {
        ss
    } else {
        let last = customs.last();
        let before = register_all(ss, customs.drop_last());
        before.insert(insertion_point(before, 0, strategy_priority(last)), last)
    }
}

/// Collects options and extra strategies and handlers for a parser.
pub struct FuzzyJsonParserBuilder {
    pub options: ParserOptions,
    pub custom_strategies: Vec<RepairStrategy>,
    pub custom_handlers: Vec<StateHandler>,
}

impl FuzzyJsonParserBuilder {
    pub fn new() -> (r: Self)
        ensures
            r.options == default_options(),
            r.custom_strategies@.len() == 0,
            r.custom_handlers@.len() == 0,
    {
        FuzzyJsonParserBuilder {
            options: ParserOptions::default(),
            custom_strategies: Vec::new(),
            custom_handlers: Vec::new(),
        }
    }

    pub fn with_trailing_commas(self, allow: bool) -> (r: Self)
        ensures
            r.options == (ParserOptions { allow_trailing_commas: allow, ..self.options }),
            r.custom_strategies@ == self.custom_strategies@,
            r.custom_handlers@ == self.custom_handlers@,
    {
        let mut b = self;
        b.options.allow_trailing_commas = allow;
        b
    }

    pub fn with_single_quotes(self, allow: bool) -> (r: Self)
        ensures
            r.options == (ParserOptions { allow_single_quotes: allow, ..self.options }),
            r.custom_strategies@ == self.custom_strategies@,
            r.custom_handlers@ == self.custom_handlers@,
    {
        let mut b = self;
        b.options.allow_single_quotes = allow;
        b
    }

    pub fn with_comments(self, allow: bool) -> (r: Self)
        ensures
            r.options == (ParserOptions { allow_comments: allow, ..self.options }),
            r.custom_strategies@ == self.custom_strategies@,
            r.custom_handlers@ == self.custom_handlers@,
    {
        let mut b = self;
        b.options.allow_comments = allow;
        b
    }

    pub fn with_unquoted_keys(self, allow: bool) -> (r: Self)
        ensures
            r.options == (ParserOptions { allow_unquoted_keys: allow, ..self.options }),
            r.custom_strategies@ == self.custom_strategies@,
            r.custom_handlers@ == self.custom_handlers@,
    {
        let mut b = self;
        b.options.allow_unquoted_keys = allow;
        b
    }

    pub fn strict_mode(self, strict: bool) -> (r: Self)
        ensures
            r.options == (ParserOptions { strict_mode: strict, ..self.options }),
            r.custom_strategies@ == self.custom_strategies@,
            r.custom_handlers@ == self.custom_handlers@,
    {
        let mut b = self;
        b.options.strict_mode = strict;
        b
    }

    pub fn max_repair_attempts(self, max: usize) -> (r: Self)
        ensures
            r.options == (ParserOptions { max_repair_attempts: max, ..self.options }),
            r.custom_strategies@ == self.custom_strategies@,
            r.custom_handlers@ == self.custom_handlers@,
    {
        let mut b = self;
        b.options.max_repair_attempts = max;
        b
    }

    pub fn aggressive_truncation_repair(self, enable: bool) -> (r: Self)
        ensures
            r.options == (ParserOptions { aggressive_truncation_repair: enable, ..self.options }),
            r.custom_strategies@ == self.custom_strategies@,
            r.custom_handlers@ == self.custom_handlers@,
    {
        let mut b = self;
        b.options.aggressive_truncation_repair = enable;
        b
    }

    pub fn add_strategy(self, strategy: RepairStrategy) -> (r: Self)
        ensures
            r.options == self.options,
            r.custom_strategies@ == self.custom_strategies@.push(strategy),
            r.custom_handlers@ == self.custom_handlers@,
    {
        let mut b = self;
        b.custom_strategies.push(strategy);
        b
    }

    pub fn add_handler(self, handler: StateHandler) -> (r: Self)
        ensures
            r.options == self.options,
            r.custom_strategies@ == self.custom_strategies@,
            r.custom_handlers@ == self.custom_handlers@.push(handler),
    {
        let mut b = self;
        b.custom_handlers.push(handler);
        b
    }

    /// A parser with the collected options, the default strategies and
    /// handlers, and the extra ones after them.
    pub fn build(self) -> (r: FuzzyJsonParser)
        ensures
            r.wf(),
            r@.options == self.options,
            r@.strategies == register_all(
                default_strategies(self.options),
                self.custom_strategies@,
            ),
            r@.handlers == default_handlers(self.options) + self.custom_handlers@,
    {
        let mut parser = FuzzyJsonParser::with_options(self.options);
        let mut i: usize = 0;
        while i < self.custom_strategies.len()
            invariant
                parser.wf(),
                i <= self.custom_strategies@.len(),
                parser@.options == self.options,
                parser@.handlers == default_handlers(self.options),
                parser@.strategies == register_all(
                    default_strategies(self.options),
                    self.custom_strategies@.subrange(0, i as int),
                ),
            decreases self.custom_strategies.len() - i,
        {
            let ghost done = self.custom_strategies@.subrange(0, i as int);
            parser.register_strategy(self.custom_strategies[i]);
            i += 1;
            assert(self.custom_strategies@.subrange(0, i as int).drop_last() =~= done);
        }
        assert(self.custom_strategies@.subrange(0, i as int) =~= self.custom_strategies@);
        let mut j: usize = 0;
        while j < self.custom_handlers.len()
            invariant
                parser.wf(),
                j <= self.custom_handlers@.len(),
                parser@.options == self.options,
                parser@.strategies == register_all(
                    default_strategies(self.options),
                    self.custom_strategies@,
                ),
                parser@.handlers == default_handlers(self.options) + self.custom_handlers@.subrange(0, j as int),
            decreases self.custom_handlers.len() - j,
        {
            parser.register_handler(self.custom_handlers[j]);
            j += 1;
            assert(parser@.handlers =~= default_handlers(self.options) + self.custom_handlers@.subrange(
                0,
                j as int,
            ));
        }
        assert(self.custom_handlers@.subrange(0, j as int) =~= self.custom_handlers@);
        parser
    }
}

impl Default for FuzzyJsonParserBuilder {
    fn default() -> (r: Self)
        ensures
            r.options == default_options(),
            r.custom_strategies@.len() == 0,
            r.custom_handlers@.len() == 0,
    {
        Self::new()
    }
}

} // verus!
