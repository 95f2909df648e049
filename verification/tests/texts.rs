//! Text helpers, payloads and JSON trees.

use base64::engine::general_purpose::STANDARD;
use base64::Engine;
use signal_call_tunnel::escape::escaped_text;
use signal_call_tunnel::json::{read_json, Json};
use signal_call_tunnel::payload::decode_payload;
use signal_call_tunnel::text::{
    decimal_text, is_blank, same_text, same_text_ignoring_ascii_case,
};

#[test]
fn blank_lines_hold_only_white_space() {
    assert!(is_blank(""));
    assert!(is_blank(" \t\r\n\u{b}\u{c}"));
    assert!(is_blank("\u{85}\u{a0}\u{1680}\u{2003}\u{2028}\u{3000}"));
    assert!(!is_blank("  x "));
    assert!(!is_blank("\u{200b}"));
    for c in '\0'..=char::MAX {
        let line = c.to_string();
        assert_eq!(is_blank(&line), line.trim().is_empty(), "{:?}", c);
    }
}

#[test]
fn decimal_numbers_have_no_leading_zeros() {
    for n in [0, 7, 10, 99, 100, 1_000_000, 12_345_678, u64::MAX] {
        assert_eq!(decimal_text(n), n.to_string());
    }
    assert_eq!(decimal_text(u64::MAX), "18446744073709551615");
}

#[test]
fn texts_are_compared_by_their_characters() {
    assert!(same_text("", ""));
    assert!(same_text("gr\u{fc}n", "gr\u{fc}n"));
    assert!(!same_text("a", "ab"));
    assert!(!same_text("a", "b"));
    assert!(same_text_ignoring_ascii_case("PiPe", "pIpE"));
    assert!(!same_text_ignoring_ascii_case("\u{c4}", "\u{e4}"));
    assert!(!same_text_ignoring_ascii_case("pip", "pipe"));
    assert!(!same_text_ignoring_ascii_case("@", "`"));
}

#[test]
fn payloads_decode_from_canonical_base64_only() {
    assert_eq!(decode_payload(""), Some(vec![]));
    assert_eq!(decode_payload("AQID"), Some(vec![1, 2, 3]));
    assert_eq!(decode_payload("aGVsbG8="), Some(b"hello".to_vec()));
    assert_eq!(decode_payload("+/+/"), Some(vec![0xfb, 0xff, 0xbf]));
    assert_eq!(decode_payload("/w=="), Some(vec![0xff]));
    // No padding, padding in excess, trailing bits, another alphabet, white space.
    assert_eq!(decode_payload("aGVsbG8"), None);
    assert_eq!(decode_payload("AQID===="), None);
    assert_eq!(decode_payload("/x=="), None);
    assert_eq!(decode_payload("-_-_"), None);
    assert_eq!(decode_payload("AQ ID"), None);
    assert_eq!(decode_payload("AQID\n"), None);
    assert_eq!(decode_payload("\u{e4}QID"), None);
}

#[test]
fn texts_are_escaped_character_by_character() {
    assert_eq!(escaped_text(""), "");
    assert_eq!(escaped_text("plain \u{fc} \u{1f600}"), "plain \u{fc} \u{1f600}");
    assert_eq!(escaped_text("\"\\"), r#"\"\\"#);
    assert_eq!(escaped_text("\t/\u{1f}\u{10}\u{b}"), r"\u0009/\u001f\u0010\u000b");
    assert_eq!(escaped_text("\u{fc}\n\u{1f600}\""), "\u{fc}\\u000a\u{1f600}\\\"");
    for c in '\0'..='\u{300}' {
        let text = format!("a{}b{}", c, c);
        let read = read_json(&format!("\"{}\"", escaped_text(&text))).unwrap();
        assert_eq!(read.as_text(), Some(text.as_str()));
    }
}

#[test]
fn payloads_read_back() {
    for len in 0..70usize {
        let bytes: Vec<u8> = (0..len).map(|i| (i * 37 + len) as u8).collect();
        assert_eq!(decode_payload(&STANDARD.encode(&bytes)), Some(bytes));
    }
}

#[test]
fn json_trees_are_read() {
    let json = read_json(r#"{"a":1,"b":[true,"x",null],"c":-1,"d":1.5,"e":{"f":"g"}}"#).unwrap();
    assert_eq!(json.number_member("a"), Some(1));
    assert_eq!(json.number_member("c"), None);
    assert_eq!(json.number_member("d"), None);
    assert_eq!(json.text_member("a"), None);
    assert_eq!(json.flag_member("a"), None);
    let items = json.items_member("b").unwrap();
    assert_eq!(items.len(), 3);
    assert!(matches!(items[0], Json::Bool(true)));
    assert_eq!(items[1].as_text(), Some("x"));
    assert!(matches!(items[2], Json::Null));
    assert_eq!(json.member("e").unwrap().text_member("f"), Some("g"));
    assert!(json.member("g").is_none());
    assert!(items[1].member("a").is_none());
}

#[test]
fn json_numbers_keep_all_64_bits() {
    let json = read_json(r#"{"n":18446744073709551615,"m":18446744073709551616}"#).unwrap();
    assert_eq!(json.number_member("n"), Some(u64::MAX));
    assert_eq!(json.number_member("m"), None);
}

#[test]
fn json_escapes_are_resolved() {
    let json = read_json(r#"{"ab":"line\nbreak ä \"q\""}"#).unwrap();
    assert_eq!(json.text_member("ab"), Some("line\nbreak \u{e4} \"q\""));
}

#[test]
fn the_later_of_two_members_with_one_name_counts() {
    let json = read_json(r#"{"a":1,"b":2,"a":3}"#).unwrap();
    assert_eq!(json.number_member("a"), Some(3));
    let json = Json::Object(vec![
        ("a".to_string(), Json::Number(Some(1))),
        ("a".to_string(), Json::Text("two".to_string())),
    ]);
    assert_eq!(json.text_member("a"), Some("two"));
    assert_eq!(json.number_member("a"), None);
}

#[test]
fn json_nesting_is_limited() {
    let nested = |depth: usize| format!("{}1{}", "[".repeat(depth), "]".repeat(depth));
    assert!(read_json(&nested(127)).is_some());
    assert!(read_json(&nested(128)).is_none());
    assert!(read_json("[1,]").is_none());
    assert!(read_json("").is_none());
    assert!(read_json("{} {}").is_none());
}
