use use_aws_mcp::json::{i64_to_string, to_json_text, JsonValue};
use use_aws_mcp::json_parse::parse_json;

fn reprint(text: &str) -> String {
    to_json_text(&parse_json(text).expect("test JSON must parse"))
}

#[test]
fn test_parse_and_print_compact_document() {
    let text = r#" { "a" : [ 1 , true , null , "x" ] , "b" : { } } "#;
    assert_eq!(reprint(text), r#"{"a":[1,true,null,"x"],"b":{}}"#);
}

#[test]
fn test_numbers_keep_their_text_form() {
    assert_eq!(reprint("[0, -1, 2.50, 1e3, -4.5E-2]"), "[0,-1,2.50,1e3,-4.5E-2]");
    assert!(parse_json("[01]").is_none());
    assert!(parse_json("[1.]").is_none());
    assert!(parse_json("[+1]").is_none());
}

#[test]
fn test_string_escapes_decode_and_encode() {
    assert_eq!(reprint(r#""A\n\t\\\" end""#), r#""A\n\t\\\" end""#);
    assert_eq!(reprint(r#""é""#), "\"\u{e9}\"");
    // A surrogate pair names one code point outside the basic plane.
    assert_eq!(reprint(r#""😀""#), "\"\u{1f600}\"");
    // A control character is escaped on output.
    assert_eq!(reprint(r#""\u0001""#), r#""\u0001""#);
    // A lone surrogate is rejected.
    assert!(parse_json(r#""\ud83d""#).is_none());
}

#[test]
fn test_malformed_documents_are_rejected() {
    for text in [
        "",
        "   ",
        "{",
        "[1,]",
        "{\"a\":}",
        "{\"a\" 1}",
        "tru",
        "nul",
        "\"unterminated",
        "[1] trailing",
        "{1: 2}",
    ] {
        assert!(parse_json(text).is_none(), "{:?} should be rejected", text);
    }
}

#[test]
fn test_printer_output_agrees_with_serde_json() {
    let texts = [
        r#"{"a": [1, true, null, "x\n", {"deep": [[]]}], "b": "é"}"#,
        r#"[{"k": ""}, "quote\"backslash\\", 12345]"#,
    ];
    for text in texts {
        let mine = reprint(text);
        let reference: serde_json::Value = serde_json::from_str(text).unwrap();
        let reparsed: serde_json::Value = serde_json::from_str(&mine).unwrap();
        assert_eq!(reference, reparsed, "for {}", text);
    }
}

#[test]
fn test_parser_accepts_serde_json_output() {
    let reference: serde_json::Value =
        serde_json::from_str(r#"{"a": [1, true, null, "x"], "b": {"c": "é"}}"#).unwrap();
    let serde_text = serde_json::to_string(&reference).unwrap();
    let mine = parse_json(&serde_text).expect("serde output must parse");
    let roundtrip: serde_json::Value = serde_json::from_str(&to_json_text(&mine)).unwrap();
    assert_eq!(reference, roundtrip);
}

#[test]
fn test_duplicate_preserves_value() {
    let v = parse_json(r#"{"a": [1, {"b": "c"}], "d": null}"#).unwrap();
    let w = v.duplicate();
    assert_eq!(to_json_text(&v), to_json_text(&w));
}

#[test]
fn test_get_and_as_str() {
    let v = parse_json(r#"{"name": "use_aws", "count": 3}"#).unwrap();
    assert_eq!(v.get("name").and_then(|w| w.as_str()), Some("use_aws"));
    assert!(v.get("count").unwrap().as_str().is_none());
    assert!(v.get("missing").is_none());
    assert!(JsonValue::Null.get("name").is_none());
}

#[test]
fn test_i64_to_string() {
    assert_eq!(i64_to_string(0), "0");
    assert_eq!(i64_to_string(-32601), "-32601");
    assert_eq!(i64_to_string(9223372036854775807), "9223372036854775807");
    assert_eq!(i64_to_string(-9223372036854775808), "-9223372036854775808");
}
