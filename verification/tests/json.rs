use moondream::json::parse_string_member;

#[test]
fn string_member_of_an_object() {
    assert_eq!(parse_string_member("{\"chunk\":\"a\"}", "chunk"), Some("a".to_string()));
    assert_eq!(parse_string_member(" { \"a\" : \"b\" , \"c\" : \"d\" } ", "c"), Some("d".to_string()));
    assert_eq!(parse_string_member("{\"a\":\"\\u00e9\"}", "a"), Some("\u{e9}".to_string()));
}

#[test]
fn last_of_two_equal_names_wins() {
    assert_eq!(parse_string_member("{\"a\":\"x\",\"a\":\"y\"}", "a"), Some("y".to_string()));
}

#[test]
fn no_string_member() {
    assert_eq!(parse_string_member("{\"chunk\":1}", "chunk"), None);
    assert_eq!(parse_string_member("{\"chunk\":[\"a\"]}", "chunk"), None);
    assert_eq!(parse_string_member("{\"chunk\":{\"chunk\":\"a\"}}", "chunk"), None);
    assert_eq!(parse_string_member("{}", "chunk"), None);
    assert_eq!(parse_string_member("\"chunk\"", "chunk"), None);
    assert_eq!(parse_string_member("[{\"chunk\":\"a\"}]", "chunk"), None);
    assert_eq!(parse_string_member("null", "chunk"), None);
}

#[test]
fn no_document() {
    assert_eq!(parse_string_member("", "chunk"), None);
    assert_eq!(parse_string_member("{\"chunk\":\"a\"", "chunk"), None);
    assert_eq!(parse_string_member("{'chunk':'a'}", "chunk"), None);
    assert_eq!(parse_string_member("{\"chunk\":\"a\"}{}", "chunk"), None);
    assert_eq!(parse_string_member("chunk", "chunk"), None);
}
