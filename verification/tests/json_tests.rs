use llm_router_gateway_api::json::{parse_json, Json, Member};

#[test]
fn parse_and_print_round_trip() {
    let text = r#"{"b":[1,2.5,-3,true,null,"x"],"a":{"k":"v"}}"#;
    let value = parse_json(text).unwrap();
    assert_eq!(value.to_text(), r#"{"a":{"k":"v"},"b":[1,2.5,-3,true,null,"x"]}"#);
}

#[test]
fn parse_reports_the_parser_message() {
    assert_eq!(parse_json("").unwrap_err(), "EOF while parsing a value at line 1 column 0");
    assert_eq!(parse_json("{} x").unwrap_err(), "trailing characters at line 1 column 4");
    assert!(parse_json("nul").is_err());
}

#[test]
fn get_reads_the_last_member_of_a_key() {
    let object = Json::Object(vec![
        Member { key: "a".to_string(), value: Json::from_u64(1) },
        Member { key: "b".to_string(), value: Json::from_u64(2) },
        Member { key: "a".to_string(), value: Json::from_u64(3) },
    ]);
    assert_eq!(object.get("a").unwrap().as_u64(), Some(3));
    assert_eq!(object.get("b").unwrap().as_u64(), Some(2));
    assert!(object.get("c").is_none());
    assert_eq!(object.to_text(), r#"{"a":3,"b":2}"#);
    assert!(Json::Null.get("a").is_none());
    assert!(Json::array(vec![]).get("a").is_none());
}

#[test]
fn set_and_remove() {
    let object = Json::object().set("x", Json::string("1")).set("y", Json::Bool(true));
    assert_eq!(object.to_text(), r#"{"x":"1","y":true}"#);
    let object = object.set("x", Json::Null);
    assert!(object.get("x").unwrap().is_null());
    assert_eq!(object.to_text(), r#"{"x":null,"y":true}"#);
    let object = object.remove("x");
    assert!(object.get("x").is_none());
    assert_eq!(object.to_text(), r#"{"y":true}"#);
    let object = object.remove("absent");
    assert_eq!(object.to_text(), r#"{"y":true}"#);
    assert_eq!(Json::string("s").remove("s").to_text(), r#""s""#);
    assert_eq!(Json::from_u64(7).set("k", Json::Null).to_text(), "7");
}

#[test]
fn accessors() {
    let value = parse_json(r#"{"s":"text","t":true,"n":18446744073709551615,"m":-1,"f":1.5,"a":[1]}"#)
        .unwrap();
    assert_eq!(value.get("s").unwrap().as_str(), Some("text"));
    assert_eq!(value.get("t").unwrap().as_bool(), Some(true));
    assert_eq!(value.get("n").unwrap().as_u64(), Some(u64::MAX));
    assert_eq!(value.get("m").unwrap().as_u64(), None);
    assert_eq!(value.get("f").unwrap().as_u64(), None);
    assert_eq!(value.get("a").unwrap().as_array().unwrap().len(), 1);
    assert!(value.is_object());
    assert!(value.get("s").unwrap().as_bool().is_none());
    assert_eq!(Json::from_i64(-5).to_text(), "-5");
}

#[test]
fn clone_keeps_the_value() {
    let value = parse_json(r#"{"a":[{"b":null},2],"c":"d"}"#).unwrap();
    assert_eq!(value.clone().to_text(), value.to_text());
}
