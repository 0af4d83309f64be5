use std::sync::Arc;

use browsr::json::{Json, JsonNumber};
use browsr::text::{parse_unsigned, push_decimal, push_signed_decimal, same_text, text_contains};

fn obj(fields: Vec<(&str, Json)>) -> Json {
    Json::Object(Arc::new(fields.into_iter().map(|(k, v)| (k.to_string(), v)).collect()))
}

#[test]
fn parse_unsigned_reads_like_from_str() {
    assert_eq!(parse_unsigned("8080", u16::MAX as u64), Some(8080));
    assert_eq!(parse_unsigned("+80", u16::MAX as u64), Some(80));
    assert_eq!(parse_unsigned("007", u16::MAX as u64), Some(7));
    assert_eq!(parse_unsigned("65535", u16::MAX as u64), Some(65535));
    assert_eq!(parse_unsigned("65536", u16::MAX as u64), None);
    assert_eq!(parse_unsigned("", u16::MAX as u64), None);
    assert_eq!(parse_unsigned("+", u16::MAX as u64), None);
    assert_eq!(parse_unsigned("-1", u16::MAX as u64), None);
    assert_eq!(parse_unsigned(" 1", u16::MAX as u64), None);
    assert_eq!(parse_unsigned("12a", u16::MAX as u64), None);
    assert_eq!(parse_unsigned("18446744073709551615", u64::MAX), Some(u64::MAX));
    assert_eq!(parse_unsigned("18446744073709551616", u64::MAX), None);
}

#[test]
fn parse_unsigned_agrees_with_std() {
    for text in ["0", "1", "+0", "++1", "99999", "4294967296", "٣", "1_000", "abc"] {
        assert_eq!(parse_unsigned(text, u32::MAX as u64), text.parse::<u32>().ok().map(u64::from));
    }
}

#[test]
fn decimal_forms() {
    let mut s = String::from("x=");
    push_decimal(&mut s, 0);
    assert_eq!(s, "x=0");
    let mut s = String::new();
    push_decimal(&mut s, 17373);
    assert_eq!(s, "17373");
    let mut s = String::new();
    push_signed_decimal(&mut s, -42);
    assert_eq!(s, "-42");
    let mut s = String::new();
    push_signed_decimal(&mut s, i64::MIN);
    assert_eq!(s, i64::MIN.to_string());
}

#[test]
fn decimal_round_trip() {
    for n in [0u64, 9, 10, 12345, u64::MAX] {
        let mut s = String::new();
        push_decimal(&mut s, n);
        assert_eq!(parse_unsigned(&s, u64::MAX), Some(n));
    }
}

#[test]
fn searching_text() {
    assert!(text_contains("hello world", "o w"));
    assert!(text_contains("hello", ""));
    assert!(!text_contains("hello", "help"));
    assert!(!text_contains("he", "hello"));
    assert!(same_text("abc", "abc"));
    assert!(!same_text("abc", "abd"));
}

#[test]
fn json_accessors() {
    let v = obj(vec![
        ("type", Json::String("hello".into())),
        ("n", Json::Number(JsonNumber::PosInt(7))),
        ("neg", Json::Number(JsonNumber::NegInt(-7))),
        ("f", Json::Number(JsonNumber::Float("1.5".into()))),
        ("ok", Json::Bool(true)),
        ("list", Json::Array(Arc::new(vec![Json::Null]))),
    ]);
    assert_eq!(v.get("type").and_then(|t| t.as_str()), Some("hello"));
    assert_eq!(v.get("n").and_then(|t| t.as_u64()), Some(7));
    assert_eq!(v.get("neg").and_then(|t| t.as_u64()), None);
    assert_eq!(v.get("f").and_then(|t| t.as_u64()), None);
    assert_eq!(v.get("ok").and_then(|t| t.as_bool()), Some(true));
    assert_eq!(v.get("list").and_then(|t| t.as_array()).map(|l| l.len()), Some(1));
    assert!(v.get("missing").is_none());
    assert!(Json::Null.get("type").is_none());
    assert_eq!(v.duplicate(), v);
}

#[test]
fn json_first_entry_wins() {
    let v = obj(vec![("k", Json::Bool(true)), ("k", Json::Bool(false))]);
    assert_eq!(v.get("k"), Some(&Json::Bool(true)));
}
