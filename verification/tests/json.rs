use zotero_mcp::json::{single, Json, JsonObject};

fn round_trip(text: &str) -> String {
    Json::parse(text).unwrap().to_text()
}

#[test]
fn every_kind_of_value_is_written() {
    assert_eq!(Json::Null.to_text(), "null");
    assert_eq!(Json::Bool(true).to_text(), "true");
    assert_eq!(Json::Bool(false).to_text(), "false");
    assert_eq!(Json::Unsigned(u64::MAX).to_text(), "18446744073709551615");
    assert_eq!(Json::Negative(i64::MIN).to_text(), "-9223372036854775808");
    assert_eq!(Json::Decimal("0.1".to_string()).to_text(), "0.1");
    assert_eq!(Json::text("a\"b\\c\nd\u{1}é").to_text(), "\"a\\\"b\\\\c\\nd\\u0001é\"");
    assert_eq!(Json::Array(vec![]).to_text(), "[]");
    assert_eq!(Json::Array(vec![Json::Null, Json::Unsigned(1)]).to_text(), "[null,1]");
    assert_eq!(Json::Object(JsonObject::new()).to_text(), "{}");
    assert_eq!(Json::Object(single("k", Json::text("v"))).to_text(), "{\"k\":\"v\"}");
}

#[test]
fn every_kind_of_value_is_read() {
    assert!(matches!(Json::parse("null"), Ok(Json::Null)));
    assert!(matches!(Json::parse(" true "), Ok(Json::Bool(true))));
    assert!(matches!(Json::parse("0"), Ok(Json::Unsigned(0))));
    assert!(matches!(Json::parse("-7"), Ok(Json::Negative(-7))));
    match Json::parse("1.50") {
        Ok(Json::Decimal(t)) => assert_eq!(t, "1.5"),
        _ => panic!("expected a decimal number"),
    }
    assert_eq!(Json::parse("\"\\u00e9\"").unwrap().as_str(), Some("é"));
    assert_eq!(round_trip("[1, [2], {\"b\": 1, \"a\": [null]}]"), "[1,[2],{\"a\":[null],\"b\":1}]");
    assert_eq!(round_trip("{\"a\":1,\"a\":2}"), "{\"a\":2}");
    assert_eq!(round_trip("0.30000000000000004"), "0.30000000000000004");
}

#[test]
fn what_is_no_json_is_refused() {
    assert!(Json::parse("").is_err());
    assert!(Json::parse("{").is_err());
    assert!(Json::parse("[1,]").is_err());
    assert_eq!(Json::parse("nul").err().unwrap(), "EOF while parsing a value at line 1 column 3");
    assert_eq!(Json::parse("1e999").err().unwrap(), "number out of range at line 1 column 5");
    assert_eq!(Json::parse("1 2").err().unwrap(), "trailing characters at line 1 column 3");
}

#[test]
fn objects_are_ordered_by_key() {
    let mut o = JsonObject::new();
    o.insert("b".to_string(), Json::Unsigned(1));
    o.insert("a".to_string(), Json::Unsigned(2));
    o.insert("é".to_string(), Json::Unsigned(3));
    o.insert("Z".to_string(), Json::Unsigned(4));
    o.insert("ab".to_string(), Json::Unsigned(5));
    o.insert("".to_string(), Json::Unsigned(6));
    let keys: Vec<&str> = (0..o.len()).map(|i| o.key_at(i)).collect();
    assert_eq!(keys, vec!["", "Z", "a", "ab", "b", "é"]);
    assert_eq!(o.value_at(3).as_u64(), Some(5));

    o.insert("a".to_string(), Json::Unsigned(9));
    assert_eq!(o.len(), 6);
    assert_eq!(o.get("a").unwrap().as_u64(), Some(9));
    assert_eq!(o.get("b").unwrap().as_u64(), Some(1));
    assert!(o.get("c").is_none());
}

#[test]
fn equality_goes_by_value() {
    let parse = |t: &str| Json::parse(t).unwrap();
    assert!(parse("{\"a\":[1,{\"b\":null}],\"c\":\"x\"}")
        .equals(&parse("{\"c\":\"x\",\"a\":[1,{\"b\":null}]}")));
    assert!(!parse("[1,2]").equals(&parse("[2,1]")));
    assert!(!parse("[1]").equals(&parse("[1,1]")));
    assert!(!parse("{\"a\":1}").equals(&parse("{\"b\":1}")));
    assert!(!parse("{\"a\":1}").equals(&parse("{\"a\":2}")));
    assert!(!parse("1").equals(&parse("1.0")));
    assert!(!parse("1").equals(&parse("\"1\"")));
    assert!(parse("0.0").equals(&parse("-0.0")));
    assert!(parse("2.50").equals(&parse("2.5")));
    assert!(!parse("2.5").equals(&parse("2.6")));
    assert!(Json::Unsigned(3).equals(&Json::Negative(3)));
    assert!(!Json::Unsigned(3).equals(&Json::Negative(-3)));
    assert!(parse("true").equals(&Json::Bool(true)));
    assert!(!parse("null").equals(&Json::Bool(false)));
}

#[test]
fn parts_of_values() {
    let j = Json::parse("{\"t\":\"x\",\"n\":5,\"m\":-5,\"v\":[1]}").unwrap();
    assert_eq!(j.get("t").unwrap().as_str(), Some("x"));
    assert_eq!(j.get("n").unwrap().as_u64(), Some(5));
    assert_eq!(j.get("m").unwrap().as_u64(), None);
    assert_eq!(j.get("v").unwrap().as_array().unwrap().len(), 1);
    assert!(j.get("w").is_none());
    assert!(j.as_str().is_none());
    assert!(j.get("t").unwrap().get("x").is_none());
    assert!(j.get("t").unwrap().as_array().is_none());
    assert_eq!(Json::Negative(4).as_u64(), Some(4));
    assert_eq!(j.clone().to_text(), j.to_text());
}
