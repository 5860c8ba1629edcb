use ironclaw::json::{add_entry, Json};

fn value(text: &str) -> serde_json::Value {
    serde_json::from_str(text).unwrap()
}

const SAMPLE: &str =
    r#"{"b":[1,-2,3.5,null,true,{"x":""}],"a":"q\"\n€","n":18446744073709551615,"o":{}}"#;

#[test]
fn conversion_keeps_the_value() {
    assert_eq!(Json::from_value(value(SAMPLE)).to_value(), value(SAMPLE));
}

#[test]
fn text_is_compact_with_sorted_keys() {
    let json = Json::from_value(value(SAMPLE));
    assert_eq!(json.to_text(), value(SAMPLE).to_string());
    assert_eq!(Json::Null.to_text(), "null");
    assert_eq!(Json::Bool(true).to_text(), "true");
    assert_eq!(Json::integer(-5).to_text(), "-5");
    assert_eq!(Json::text("a\"b").to_text(), r#""a\"b""#);
    let mut entries: Vec<(String, Json)> = Vec::new();
    add_entry(&mut entries, "z", Json::integer(1));
    add_entry(&mut entries, "a", Json::Array(vec![Json::integer(2)]));
    assert_eq!(Json::Object(entries).to_text(), r#"{"a":[2],"z":1}"#);
}

#[test]
fn later_entries_hold() {
    let mut entries: Vec<(String, Json)> = Vec::new();
    add_entry(&mut entries, "k", Json::integer(1));
    add_entry(&mut entries, "k", Json::text("two"));
    let json = Json::Object(entries);
    assert_eq!(json.get_text("k"), Some("two"));
    assert_eq!(json.to_text(), r#"{"k":"two"}"#);
    assert_eq!(json.into_field("k").unwrap().to_text(), r#""two""#);
}

#[test]
fn parsing() {
    let json = Json::parse(SAMPLE.as_bytes()).unwrap();
    assert_eq!(json.get_text("a"), Some("q\"\n€"));
    assert!(json.get_text("n").is_none());
    assert!(json.get("missing").is_none());
    assert_eq!(json.get("o").unwrap().to_text(), "{}");
    assert!(Json::Null.get("a").is_none());
    assert!(Json::text("a").into_field("a").is_none());
    assert!(json.as_str().is_none());
    assert!(Json::parse(b"").is_none());
    assert!(Json::parse(b"{").is_none());
    assert!(Json::parse(b"1 2").is_none());
    assert!(Json::parse(b"\"\xff\"").is_none());
    assert_eq!(Json::parse(b" 7 ").unwrap().to_text(), "7");
}
