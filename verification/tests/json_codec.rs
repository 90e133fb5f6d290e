//! The JSON printer and parser, including the round trip on concrete
//! values and the rejection of malformed texts.

use aish::json::{parse_json, write_json, Json};

fn parse_text(s: &str) -> Option<Json> {
    parse_json(&s.as_bytes().to_vec())
}

fn printed(v: &Json) -> String {
    String::from_utf8(write_json(v)).unwrap()
}

#[test]
fn prints_primitives_compactly() {
    assert_eq!(printed(&Json::Null), "null");
    assert_eq!(printed(&Json::Bool(true)), "true");
    assert_eq!(printed(&Json::Bool(false)), "false");
    assert_eq!(printed(&Json::Num(b"42".to_vec())), "42");
    assert_eq!(printed(&Json::Str(b"hi".to_vec())), "\"hi\"");
}

#[test]
fn prints_nested_structures() {
    let v = Json::Obj(vec![
        (b"a".to_vec(), Json::Arr(vec![Json::Num(b"1".to_vec()), Json::Null])),
        (b"b".to_vec(), Json::Str(b"x".to_vec())),
    ]);
    assert_eq!(printed(&v), "{\"a\":[1,null],\"b\":\"x\"}");
}

#[test]
fn escapes_string_bytes() {
    let v = Json::Str(b"a\"b\\c\nd".to_vec());
    assert_eq!(printed(&v), "\"a\\\"b\\\\c\\u000ad\"");
}

#[test]
fn parses_what_it_printed() {
    let v = Json::Obj(vec![
        (b"name".to_vec(), Json::Str(b"run \"it\"\n".to_vec())),
        (
            b"args".to_vec(),
            Json::Arr(vec![
                Json::Num(b"-12.5e3".to_vec()),
                Json::Bool(false),
                Json::Obj(vec![]),
                Json::Arr(vec![]),
            ]),
        ),
    ]);
    let text = write_json(&v);
    let back = parse_json(&text).expect("printed text must parse");
    assert_eq!(write_json(&back), text);
}

#[test]
fn parses_standard_text() {
    let v = parse_text(" { \"a\" : [ 1 , 2.5 , -3e2 ] , \"b\" : \"x\" } ").unwrap();
    assert_eq!(printed(&v), "{\"a\":[1,2.5,-3e2],\"b\":\"x\"}");
}

#[test]
fn decodes_unicode_escapes() {
    let v = parse_text("\"\\u0041\\u00e9\"").unwrap();
    match v {
        Json::Str(s) => assert_eq!(s, "A\u{e9}".as_bytes().to_vec()),
        _ => panic!("expected a string"),
    }
}

#[test]
fn decodes_surrogate_pairs() {
    let v = parse_text("\"\\ud83d\\ude00\"").unwrap();
    match v {
        Json::Str(s) => assert_eq!(s, "\u{1f600}".as_bytes().to_vec()),
        _ => panic!("expected a string"),
    }
}

#[test]
fn rejects_malformed_texts() {
    for bad in [
        "", "{", "[1,", "tru", "nul", "01", "1.", "+1", "\"", "\"\\q\"", "{\"a\":}", "[1] x",
        "{\"a\" 1}", "\"\\ud800\"",
    ] {
        assert!(parse_text(bad).is_none(), "{:?} should be rejected", bad);
    }
}

#[test]
fn accepts_whitespace_around_values() {
    assert!(parse_text("  null  ").is_some());
    assert!(parse_text("\t[\n]\r\n").is_some());
    assert!(parse_text("{ }").is_some());
}

#[test]
fn keeps_number_spellings() {
    let v = parse_text("[0, -0, 1e10, 1E+2, 0.5]").unwrap();
    assert_eq!(printed(&v), "[0,-0,1e10,1E+2,0.5]");
}

#[test]
fn agrees_with_reference_reader_on_validity() {
    for text in [
        "{\"a\":[1,2.5,-3e2],\"b\":\"x\"}",
        "[true,false,null]",
        "\"plain\"",
        "{",
        "[1,]",
        "01",
    ] {
        let ours = parse_text(text).is_some();
        let reference = serde_json::from_str::<serde_json::Value>(text).is_ok();
        assert_eq!(ours, reference, "disagreement on {:?}", text);
    }
}
