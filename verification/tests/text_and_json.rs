use codex_kit::bytes::byte_len;
use codex_kit::json::JsonNumber;
use codex_kit::json::JsonValue;
use codex_kit::json::NumberKind;
use codex_kit::numbers::decimal_i64;
use codex_kit::numbers::decimal_u64;
use codex_kit::numbers::decimal_usize;
use codex_kit::numbers::parse_i64;
use codex_kit::numbers::parse_u64;
use codex_kit::string_map::StringMap;
use codex_kit::text::blank;
use codex_kit::text::contains;
use codex_kit::text::is_ascii_alphanumeric;
use codex_kit::text::is_control;
use codex_kit::text::is_whitespace;
use codex_kit::text::joined;
use codex_kit::text::split_text;
use codex_kit::text::split_text_once;
use codex_kit::text::split_whitespace;
use codex_kit::text::starts_with;
use codex_kit::text::strip_prefix;
use codex_kit::text::to_ascii_lowercase;
use codex_kit::text::trimmed;
use codex_kit::text::trimmed_start;

fn samples() -> Vec<&'static str> {
    vec![
        "",
        " ",
        "a",
        " a b ",
        "\u{85}x\u{3000}",
        ",,a,",
        "user_note: é🙂",
        "Broken PIPE ß",
        "\t\n\u{b}\u{c}\r one  two\u{2003}three ",
        "aab aab",
    ]
}

#[test]
fn characters_have_the_classes_of_unicode() {
    for ch in '\0'..=char::MAX {
        assert_eq!(is_whitespace(ch), ch.is_whitespace());
        assert_eq!(is_control(ch), ch.is_control());
        assert_eq!(is_ascii_alphanumeric(ch), ch.is_ascii_alphanumeric());
    }
}

#[test]
fn texts_are_cut_and_searched() {
    for text in samples() {
        assert_eq!(trimmed(text), text.trim());
        assert_eq!(trimmed_start(text), text.trim_start());
        assert_eq!(blank(text), text.trim().is_empty());
        assert_eq!(to_ascii_lowercase(text), text.to_ascii_lowercase());
        assert_eq!(byte_len(text), text.len());
        let words: Vec<&str> = text.split_whitespace().collect();
        assert_eq!(split_whitespace(text), words);
        let parts: Vec<&str> = text.split(',').collect();
        assert_eq!(split_text(text, ','), parts);
        let halves = text.split_once(' ').map(|(a, b)| (a.to_string(), b.to_string()));
        assert_eq!(split_text_once(text, ' '), halves);
        for other in samples() {
            assert_eq!(contains(text, other), text.contains(other));
            assert_eq!(starts_with(text, other), text.starts_with(other));
            assert_eq!(strip_prefix(text, other).as_deref(), text.strip_prefix(other));
        }
    }
    let parts: Vec<String> = samples().into_iter().map(str::to_string).collect();
    assert_eq!(joined(&parts, " | "), parts.join(" | "));
}

#[test]
fn integers_are_written_and_read() {
    for number in [0, 9, 10, 65_536, u64::MAX] {
        assert_eq!(decimal_u64(number), number.to_string());
        assert_eq!(parse_u64(&number.to_string()), Ok(number));
    }
    assert_eq!(decimal_usize(1024), "1024");
    for number in [0, -1, 42, i64::MAX, i64::MIN] {
        assert_eq!(decimal_i64(number), number.to_string());
        assert_eq!(parse_i64(&number.to_string()), Ok(number));
    }
    let odd = [
        "",
        "+",
        "-",
        "+7",
        "-7",
        "--7",
        "007",
        "1x",
        " 1",
        "18446744073709551616",
        "18446744073709551615x",
        "9223372036854775808",
        "-9223372036854775809",
        "99999999999999999999x",
        "٣",
    ];
    for text in odd {
        assert_eq!(
            parse_u64(text).map_err(|error| error.message().to_string()),
            text.parse::<u64>().map_err(|error| error.to_string())
        );
        assert_eq!(
            parse_i64(text).map_err(|error| error.message().to_string()),
            text.parse::<i64>().map_err(|error| error.to_string())
        );
    }
}

#[test]
fn values_are_written_as_json() {
    let every: String = ('\0'..='\u{ff}').collect();
    let text = JsonValue::Text(every.clone());
    assert_eq!(text.to_text(), serde_json::Value::from(every.as_str()).to_string());
    let number = |kind: NumberKind| JsonValue::Number(JsonNumber { kind, double: None });
    let whole = JsonValue::Object(vec![
        ("a\"b".to_string(), JsonValue::Array(vec![JsonValue::Null, JsonValue::Bool(true)])),
        ("n".to_string(), number(NumberKind::NegInt(-3))),
        ("p".to_string(), number(NumberKind::PosInt(3))),
        ("q".to_string(), number(NumberKind::Float("1.5e300".to_string()))),
        ("t".to_string(), text),
        ("z".to_string(), JsonValue::Object(vec![])),
    ]);
    let written = whole.to_text();
    let read: serde_json::Value = serde_json::from_str(&written).unwrap();
    assert_eq!(read["a\"b"][1], serde_json::Value::Bool(true));
    assert_eq!(read["n"].as_i64(), Some(-3));
    assert_eq!(read["t"].as_str(), Some(every.as_str()));
    assert_eq!(whole.copy(), whole);
    assert!(matches!(whole.get("p"), Some(JsonValue::Number(_))));
    assert!(whole.get("x").is_none());
    assert!(JsonValue::Null.get("p").is_none());
}

#[test]
fn maps_hold_one_value_for_each_name() {
    let mut map: StringMap<u8> = StringMap::new();
    assert_eq!(map.insert("a".to_string(), 1), None);
    assert_eq!(map.insert("b".to_string(), 2), None);
    assert_eq!(map.insert("a".to_string(), 3), Some(1));
    assert_eq!(map.len(), 2);
    assert_eq!(map.get("a"), Some(&3));
    *map.get_mut("b").unwrap() = 4;
    assert!(map.get_mut("c").is_none());
    assert_eq!(map.remove("b"), Some(4));
    assert_eq!(map.remove("b"), None);
    assert!(map.contains_key("a") && !map.contains_key("b"));
    assert_eq!(map.keys(), vec!["a".to_string()]);
}
