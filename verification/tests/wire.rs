use sensor_relay::json::{keys_distinct, parse_object, JsonValue};
use sensor_relay::render::{chars_of, joined_text, render_reading, u64_to_dec};
use sensor_relay::relay_server::Reading;

fn parse(text: &str) -> Option<Vec<(Vec<char>, JsonValue)>> {
    parse_object(&chars_of(text))
}

fn key_of(pair: &(Vec<char>, JsonValue)) -> String {
    pair.0.iter().collect()
}

#[test]
fn empty_object_parses() {
    let prs = parse("  { }  ").expect("object");
    assert!(prs.is_empty());
    assert!(parse("{}").is_some());
}

#[test]
fn pairs_parse_in_order_with_any_whitespace() {
    let prs = parse(" {\t\"a\" : 1 ,\n\"b\": \"x\" } ").expect("object");
    assert_eq!(prs.len(), 2);
    assert_eq!(key_of(&prs[0]), "a");
    assert!(matches!(prs[0].1, JsonValue::Num(1)));
    assert_eq!(key_of(&prs[1]), "b");
    match &prs[1].1 {
        JsonValue::Str(s) => assert_eq!(s.iter().collect::<String>(), "x"),
        _ => panic!("expected a string"),
    }
    assert!(keys_distinct(&prs));
}

#[test]
fn repeated_keys_are_detected() {
    let prs = parse("{\"a\": 1, \"a\": 2}").expect("object");
    assert!(!keys_distinct(&prs));
}

#[test]
fn number_grammar_is_strict() {
    assert!(parse("{\"n\": 0}").is_some());
    assert!(parse("{\"n\": 007}").is_none(), "leading zero");
    assert!(parse("{\"n\": -1}").is_none(), "sign");
    assert!(parse("{\"n\": 1.5}").is_none(), "fraction");
    assert!(parse("{\"n\": 18446744073709551615}").is_some(), "u64 max");
    assert!(parse("{\"n\": 18446744073709551616}").is_none(), "past u64 max");
}

#[test]
fn string_grammar_rejects_escapes() {
    assert!(parse("{\"s\": \"plain text\"}").is_some());
    assert!(parse("{\"s\": \"a\\nb\"}").is_none());
    assert!(parse("{\"s\": \"unterminated}").is_none());
}

#[test]
fn trailing_garbage_is_rejected() {
    assert!(parse("{\"a\": 1} x").is_none());
    assert!(parse("{\"a\": 1,}").is_none(), "trailing comma");
    assert!(parse("\"a\": 1}").is_none());
}

#[test]
fn decimal_rendering_is_exact() {
    assert_eq!(u64_to_dec(0), "0");
    assert_eq!(u64_to_dec(7), "7");
    assert_eq!(u64_to_dec(1234), "1234");
    assert_eq!(u64_to_dec(u64::MAX), "18446744073709551615");
    assert_eq!(joined_text(42), "joined 42");
}

#[test]
fn reading_rendering_carries_every_field() {
    let rd = Reading {
        pub_id: 42,
        eco2: 400,
        evtoc: 50,
        read_time: 1000,
        start_time: 900,
        increment: String::from("ConstantPower1s"),
    };
    assert_eq!(
        render_reading(&rd),
        "Reading { pub_id: 42, eco2: 400, evtoc: 50, read_time: 1000, start_time: 900, increment: ConstantPower1s }"
    );
}
