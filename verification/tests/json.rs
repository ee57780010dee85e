use soundcloud_archiver::json::{text_or_error, tree_of_value, tree_or_error, value_of_tree, Json};

fn member<'a>(doc: &'a Json, name: &str) -> &'a Json {
    doc.get(name).unwrap()
}

#[test]
fn parse_reads_every_kind_of_value() {
    let doc = Json::parse(
        br#"{"n": null, "t": true, "u": 18446744073709551615, "i": -5, "r": 1.5, "s": "x\ny", "a": [1, "two", []], "o": {"k": {}}}"#,
    )
    .unwrap();
    assert!(matches!(member(&doc, "n"), Json::Null));
    assert!(matches!(member(&doc, "t"), Json::Bool(true)));
    assert!(matches!(member(&doc, "u"), Json::Unsigned(u64::MAX)));
    assert!(matches!(member(&doc, "i"), Json::Signed(-5)));
    assert!(matches!(member(&doc, "r"), Json::Real));
    assert_eq!(member(&doc, "s").as_str(), Some("x\ny"));
    match member(&doc, "a") {
        Json::Array(items) => {
            assert_eq!(items.len(), 3);
            assert_eq!(items[0].as_u64(), Some(1));
            assert_eq!(items[1].as_str(), Some("two"));
            assert!(matches!(&items[2], Json::Array(inner) if inner.is_empty()));
        }
        _ => panic!("an array was expected"),
    }
    assert!(matches!(member(member(&doc, "o"), "k"), Json::Object(m) if m.is_empty()));
    assert!(doc.get("missing").is_none());
}

#[test]
fn parse_refuses_what_is_not_json() {
    assert!(Json::parse(b"").is_err());
    assert!(Json::parse(b"{").is_err());
    assert!(Json::parse(b"{\"a\": 1} x").is_err());
    assert!(Json::parse(&[0xff, 0xfe]).is_err());
    let failure = Json::parse(b"[1, 2").unwrap_err();
    assert!(!failure.message.is_empty());
}

#[test]
fn parse_keeps_the_last_of_repeated_names() {
    let doc = Json::parse(br#"{"a": 1, "a": 2}"#).unwrap();
    assert_eq!(member(&doc, "a").as_u64(), Some(2));
    match &doc {
        Json::Object(members) => assert_eq!(members.len(), 1),
        _ => panic!("an object was expected"),
    }
}

#[test]
fn get_takes_the_last_member_of_a_name() {
    let doc = Json::Object(vec![
        ("a".to_string(), Json::Unsigned(1)),
        ("b".to_string(), Json::Unsigned(2)),
        ("a".to_string(), Json::Unsigned(3)),
    ]);
    assert_eq!(doc.get("a").unwrap().as_u64(), Some(3));
    assert_eq!(doc.get("b").unwrap().as_u64(), Some(2));
    assert!(doc.get("c").is_none());
    assert!(Json::Array(Vec::new()).get("a").is_none());
    assert!(Json::Null.get("a").is_none());
}

#[test]
fn numbers_are_read_as_unsigned_where_they_fit() {
    assert_eq!(Json::Unsigned(7).as_u64(), Some(7));
    assert_eq!(Json::Signed(7).as_u64(), Some(7));
    assert_eq!(Json::Signed(0).as_u64(), Some(0));
    assert_eq!(Json::Signed(-1).as_u64(), None);
    assert_eq!(Json::Real.as_u64(), None);
    assert_eq!(Json::Text("7".to_string()).as_u64(), None);
    assert_eq!(Json::Unsigned(7).as_str(), None);
}

#[test]
fn compact_text_is_written() {
    let doc = Json::Object(vec![
        ("b".to_string(), Json::Array(vec![Json::Null, Json::Bool(false), Json::Signed(-3)])),
        ("a".to_string(), Json::Text("q\"t".to_string())),
        ("c".to_string(), Json::Unsigned(16742144)),
    ]);
    assert_eq!(
        doc.to_compact_text().unwrap(),
        r#"{"a":"q\"t","b":[null,false,-3],"c":16742144}"#
    );
}

#[test]
fn pretty_text_is_written() {
    let doc = Json::Object(vec![(
        "tracks".to_string(),
        Json::Object(vec![("1".to_string(), Json::Null)]),
    )]);
    assert_eq!(doc.to_pretty_text().unwrap(), "{\n  \"tracks\": {\n    \"1\": null\n  }\n}");
    assert_eq!(Json::Object(Vec::new()).to_pretty_text().unwrap(), "{}");
}

#[test]
fn later_member_replaces_earlier_in_text() {
    let doc = Json::Object(vec![
        ("a".to_string(), Json::Unsigned(1)),
        ("a".to_string(), Json::Unsigned(2)),
    ]);
    assert_eq!(doc.to_compact_text().unwrap(), r#"{"a":2}"#);
}

#[test]
fn number_without_value_is_not_written() {
    assert!(Json::Real.to_compact_text().is_err());
    assert!(Json::Array(vec![Json::Unsigned(1), Json::Real]).to_pretty_text().is_err());
    let nested = Json::Object(vec![("a".to_string(), Json::Array(vec![Json::Real]))]);
    assert!(nested.to_compact_text().is_err());
    assert!(value_of_tree(&nested).is_none());
}

#[test]
fn text_is_read_back_as_written() {
    let doc = Json::Object(vec![
        ("z".to_string(), Json::Array(vec![Json::Unsigned(1), Json::Text("é".to_string())])),
        ("a".to_string(), Json::Object(vec![("k".to_string(), Json::Signed(-9))])),
    ]);
    let text = doc.to_pretty_text().unwrap();
    let back = Json::parse(text.as_bytes()).unwrap();
    assert_eq!(back.to_compact_text().unwrap(), doc.to_compact_text().unwrap());
    assert_eq!(back.get("a").unwrap().get("k").unwrap().to_compact_text().unwrap(), "-9");
}

#[test]
fn values_of_serde_json_convert_both_ways() {
    let value: serde_json::Value = serde_json::from_str(r#"{"a": [1, -2, "x", null, true]}"#).unwrap();
    let tree = tree_of_value(value.clone());
    assert_eq!(tree.get("a").unwrap().to_compact_text().unwrap(), r#"[1,-2,"x",null,true]"#);
    let back = value_of_tree(&tree).unwrap();
    assert_eq!(back, value);
    assert_eq!(value_of_tree(&Json::Signed(5)).unwrap(), serde_json::Value::from(5u64));
}

#[test]
fn outcomes_of_serde_json_are_taken_over() {
    let read = tree_or_error(serde_json::from_str::<serde_json::Value>("[1]"));
    assert_eq!(read.unwrap().to_compact_text().unwrap(), "[1]");
    let failure = tree_or_error(serde_json::from_str::<serde_json::Value>("[1")).unwrap_err();
    assert!(failure.message.contains("EOF"));
    assert_eq!(text_or_error(Ok("t".to_string())).unwrap(), "t");
    let error = serde_json::from_str::<serde_json::Value>("?").unwrap_err();
    let message = error.to_string();
    assert_eq!(text_or_error(Err(error)).unwrap_err().message, message);
}
