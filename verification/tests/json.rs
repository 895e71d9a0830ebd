use anime_tui::json::Json;

#[test]
fn json_is_read_and_written() {
    let v = Json::parse(r#"{"b":[1,-2,3.5,true,null,"x"],"a":{}}"#).unwrap();
    assert_eq!(v.text(), r#"{"a":{},"b":[1,-2,3.5,true,null,"x"]}"#);
    assert_eq!(v.copy().text(), v.text());
    assert!(Json::parse("{").is_err());
    assert_eq!(Json::unsigned(7).text(), "7");
}

#[test]
fn members_are_looked_up_by_key() {
    let v = Json::parse(r#"{"s":"t","n":7,"f":1.5,"l":[1],"b":false,"neg":-1}"#).unwrap();
    assert_eq!(v.str_at("s"), Some("t"));
    assert_eq!(v.string_at("n"), None);
    assert_eq!(v.u64_at("n"), Some(7));
    assert_eq!(v.u64_at("neg"), None);
    assert_eq!(v.u64_at("f"), None);
    assert_eq!(v.get("f").unwrap().as_double(), Some(1.5f64.to_bits()));
    assert_eq!(v.get("n").unwrap().as_double(), Some(7f64.to_bits()));
    assert_eq!(v.get("b").unwrap().as_bool(), Some(false));
    assert_eq!(v.list_at("l").unwrap().len(), 1);
    assert!(v.get("missing").is_none());
    assert!(Json::Null.get("x").is_none());
}

#[test]
fn lists_of_values_are_read() {
    assert_eq!(Json::parse_list("[1,2]").unwrap().len(), 2);
    assert!(Json::parse_list("{}").is_err());
}
