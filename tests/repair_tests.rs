use chill_json::context::JsonContext;
use chill_json::parser::{FuzzyJsonError, FuzzyJsonParser, FuzzyJsonParserBuilder, ParserOptions};
use chill_json::state::ParseState;
use chill_json::strategies::{MissingBracketsStrategy, RepairStrategy, TruncationRepairStrategy};
use chill_json::strict::JsonValue;

fn json(text: &str) -> serde_json::Value {
    serde_json::from_str(text).unwrap()
}

fn lenient() -> FuzzyJsonParser {
    FuzzyJsonParserBuilder::new().with_unquoted_keys(true).build()
}

fn repaired(text: &str) -> String {
    lenient().repair_with_hint(text, "").unwrap()
}

fn num(text: &str) -> JsonValue {
    JsonValue::Number(text.to_string())
}

fn text(s: &str) -> JsonValue {
    JsonValue::Str(s.to_string())
}

#[test]
fn strict_input_gives_the_strict_value() {
    let parser = FuzzyJsonParser::new();
    let input = r#"{"a": [1, 2.5, "x"], "b": {"c": null}, "d": true}"#;
    assert_eq!(parser.parse::<serde_json::Value>(input).unwrap(), json(input));
    let value = parser.parse_value(r#"{"a": [1, "x"], "b": null}"#).unwrap();
    assert_eq!(
        value,
        JsonValue::Object(vec![
            ("a".to_string(), JsonValue::Array(vec![num("1"), text("x")])),
            ("b".to_string(), JsonValue::Null),
        ])
    );
}

#[test]
fn key_order_follows_first_occurrence() {
    let parser = FuzzyJsonParser::new();
    let value = parser.parse_value(r#"{'zeta': 1, 'alpha': 2, 'mid': 3,}"#).unwrap();
    match value {
        JsonValue::Object(members) => {
            let keys: Vec<&str> = members.iter().map(|(k, _)| k.as_str()).collect();
            assert_eq!(keys, vec!["zeta", "alpha", "mid"]);
        }
        _ => panic!("expected an object"),
    }
}

#[test]
fn serialized_value_parses_back() {
    let parser = FuzzyJsonParser::new();
    let v = json(r#"{"k": [1, -2, 3.25, "s\"q", false, null, {"n": {}}]}"#);
    let text = serde_json::to_string(&v).unwrap();
    assert_eq!(parser.parse::<serde_json::Value>(&text).unwrap(), v);
}

#[test]
fn repaired_output_is_a_fixed_point() {
    let parser = FuzzyJsonParser::new();
    let input = r#"{"user": {"name": 'Ann', "tags": ["a", "b","#;
    let out = parser.repair_with_hint(input, "").unwrap();
    assert_eq!(out, r#"{"user":{"name":"Ann","tags":["a","b"]}}"#);
    assert_eq!(parser.parse_value(&out).unwrap(), parser.parse_value(input).unwrap());
}

#[test]
fn repair_stops_at_the_attempt_cap() {
    let parser = FuzzyJsonParserBuilder::new().max_repair_attempts(3).build();
    match parser.parse_value(r#"{"a": 1, "b": 2"#) {
        Err(FuzzyJsonError::RepairFailed(msg)) => assert_eq!(msg, "Too many repair attempts"),
        _ => panic!("expected the attempt cap to be hit"),
    }
}

#[test]
fn repair_disabled_fails_fast() {
    let mut options = ParserOptions::default();
    options.auto_repair = false;
    let parser = FuzzyJsonParser::with_options(options);
    match parser.parse_value(r#"{"a": 1,}"#) {
        Err(FuzzyJsonError::RepairFailed(msg)) => assert_eq!(msg, "Auto-repair disabled"),
        _ => panic!("expected repair to be refused"),
    }
    assert_eq!(parser.parse_value("[1]").unwrap(), JsonValue::Array(vec![num("1")]));
}

#[test]
fn stuck_repair_reports_the_position() {
    let parser = FuzzyJsonParser::new();
    match parser.parse_value(r#"{"a": x}"#) {
        Err(FuzzyJsonError::ParseError { pos, msg }) => {
            assert_eq!(pos, 6);
            assert_eq!(msg, "No handler for current state: Colon | x");
        }
        _ => panic!("expected a parse error"),
    }
}

#[test]
fn outer_unicode_whitespace_is_trimmed() {
    let parser = FuzzyJsonParser::new();
    match parser.repair_with_hint("\u{a0}{\"a\": x}\u{3000}", "") {
        Err(FuzzyJsonError::ParseError { pos, .. }) => assert_eq!(pos, 6),
        _ => panic!("expected a parse error"),
    }
    assert_eq!(parser.aggressively_close_scopes("\u{a0}{").unwrap(), "{}");
    assert_eq!(repaired("\u{2003}[1, 2\u{a0}"), "[1,2]");
}

#[test]
fn rejected_repair_is_a_json_error() {
    let parser = FuzzyJsonParser::new();
    assert_eq!(parser.repair_with_hint(r#"{"a": 1 "b": 2}"#, "").unwrap(), r#"{"a":1"b":2}"#);
    assert!(matches!(
        parser.parse_value(r#"{"a": 1 "b": 2}"#),
        Err(FuzzyJsonError::JsonError(_))
    ));
}

#[test]
fn undefined_becomes_null() {
    assert_eq!(repaired("{a: undefined, b: [true, null]}"), r#"{"a":null,"b":[true,null]}"#);
}

#[test]
fn unquoted_keys_need_the_option() {
    let parser = FuzzyJsonParser::new();
    assert!(matches!(
        parser.repair_with_hint("{a: 1}", ""),
        Err(FuzzyJsonError::ParseError { pos: 1, .. })
    ));
    assert_eq!(lenient().parse::<serde_json::Value>("{a: 1}").unwrap(), json(r#"{"a": 1}"#));
}

#[test]
fn code_fence_and_prose_are_stripped() {
    assert_eq!(
        repaired("Here you go ```json{\"legal_name\":\"BAIN & COMPANY, INC.\"}``` can I help further?"),
        r#"{"legal_name":"BAIN & COMPANY, INC."}"#
    );
}

#[test]
fn truncated_key_gets_a_zero() {
    assert_eq!(repaired(r#"{"name": "test", "value":"#), r#"{"name":"test","value":0}"#);
    assert_eq!(repaired(r#"{"name": "test", "incomplete""#), r#"{"name":"test","incomplete":0}"#);
}

#[test]
fn single_quoted_text_escapes_double_quotes() {
    assert_eq!(repaired(r#"{'say': 'a "b" c'}"#), r#"{"say":"a \"b\" c"}"#);
}

#[test]
fn number_after_key_gets_a_colon() {
    assert_eq!(repaired(r#"{"n" 12}"#), r#"{"n":12}"#);
}

#[test]
fn missing_quotes_uses_unicode_letters() {
    assert_eq!(repaired("{\"a\" \u{e9}t\u{e9}}"), "{\"a\"\"\u{e9}t\u{e9}\"}}");
}

#[test]
fn missing_brackets_close_down_to_the_opener() {
    let mut state = ParseState::new("x".chars().collect());
    state.push_context(JsonContext::Object);
    state.push_context(JsonContext::Array);
    let hint: Vec<char> = "missing }".chars().collect();
    assert!(MissingBracketsStrategy.can_repair(&hint));
    MissingBracketsStrategy.repair(&mut state, &hint);
    assert_eq!(state.output, vec!['}']);
    assert_eq!(state.stack, vec![JsonContext::Root]);
}

#[test]
fn truncation_needs_an_open_frame_on_blank_input() {
    let mut state = ParseState::new(" ".chars().collect());
    let hint: Vec<char> = Vec::new();
    assert!(!TruncationRepairStrategy.can_repair(&state, &hint));
    state.push_context(JsonContext::Object);
    assert!(TruncationRepairStrategy.can_repair(&state, &hint));
    let unclosed: Vec<char> = "unclosed".chars().collect();
    assert!(TruncationRepairStrategy.can_repair(&ParseState::new(" ".chars().collect()), &unclosed));
}

#[test]
fn empty_input_repairs_to_nothing() {
    assert_eq!(repaired("   "), "");
}

#[test]
fn option_flags_choose_the_defaults() {
    let with = FuzzyJsonParser::new();
    let without = FuzzyJsonParserBuilder::new().with_trailing_commas(false).build();
    assert!(with.repair_strategies.contains(&RepairStrategy::TrailingComma));
    assert!(!without.repair_strategies.contains(&RepairStrategy::TrailingComma));
    assert_eq!(with.repair_strategies.len(), 10);
    assert_eq!(with.state_handlers.len(), 8);
    assert_eq!(lenient().state_handlers.len(), 9);
}

#[test]
fn registered_strategy_goes_after_equal_priority() {
    let mut parser = FuzzyJsonParser::new();
    parser.register_strategy(RepairStrategy::CodeBlockMarkers);
    assert_eq!(parser.repair_strategies[1], RepairStrategy::CodeBlockMarkers);
    assert_eq!(parser.repair_strategies[2], RepairStrategy::CodeBlockMarkers);
    assert_eq!(parser.repair_strategies[3], RepairStrategy::SingleQuotes);
}

#[test]
fn aggressive_close_appends_closings() {
    let parser = FuzzyJsonParser::new();
    assert_eq!(parser.aggressively_close_scopes("  {\"a\": [1, 2,  ").unwrap(), "{\"a\": [1, 2]}");
    assert_eq!(parser.aggressively_close_scopes("{\"a\": \"x}").unwrap(), "{\"a\": \"x}\"}");
    let off = FuzzyJsonParserBuilder::new().aggressive_truncation_repair(false).build();
    assert_eq!(off.aggressively_close_scopes(" {\"a\": 1").unwrap(), " {\"a\": 1");
}

#[test]
fn state_cursor_and_stack() {
    let mut state = ParseState::new("ab\u{e9}c".chars().collect());
    assert_eq!(state.current_char(), Some('a'));
    assert_eq!(state.peek_chars(10), vec!['a', 'b', '\u{e9}', 'c']);
    assert_eq!(state.advance(2), vec!['a', 'b']);
    assert_eq!(state.current_char(), Some('\u{e9}'));
    assert_eq!(state.remaining(), vec!['\u{e9}', 'c']);
    assert!(!state.is_finished());
    assert_eq!(state.pop_context(), None);
    state.push_context(JsonContext::Object);
    state.push_context(JsonContext::SingleQuoteProperty);
    assert!(state.is_prop() && state.is_sq_key_or_value() && state.is_key_or_value());
    assert!(!state.is_value() && !state.is_dq_key_or_value());
    assert_eq!(state.pop_context(), Some(JsonContext::SingleQuoteProperty));
    assert_eq!(state.current_context(), JsonContext::Object);
    state.advance(2);
    assert!(state.is_finished());
    assert_eq!(state.current_char(), None);
}

#[test]
fn context_predicates() {
    assert!(JsonContext::DoubleQuoteValue.is_value());
    assert!(!JsonContext::DoubleQuoteValue.is_key());
    assert!(JsonContext::SingleQuoteProperty.is_key());
    assert!(!JsonContext::Colon.is_value());
    assert_eq!(JsonContext::Colon.name(), "Colon");
}

#[test]
fn typed_parse_reads_the_repaired_value() {
    let parser = FuzzyJsonParser::new();
    let numbers: Vec<i64> = parser.parse("[1, 2, 3,").unwrap();
    assert_eq!(numbers, vec![1, 2, 3]);
    let wrong: Result<Vec<i64>, FuzzyJsonError> = parser.parse(r#"{"a": 1}"#);
    assert!(matches!(wrong, Err(FuzzyJsonError::JsonError(_))));
    let stuck: Result<Vec<i64>, FuzzyJsonError> = parser.parse(r#"{"a": x}"#);
    assert!(matches!(stuck, Err(FuzzyJsonError::ParseError { pos: 6, .. })));
}
