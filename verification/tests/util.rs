use sv::util::HttpMethod;

#[test]
fn method_tokens_are_upper_case() {
    assert_eq!(HttpMethod::Get.to_string(), "GET");
    assert_eq!(HttpMethod::Any.to_string(), "*");
}

#[test]
fn method_names_parse_in_any_case() {
    assert_eq!(HttpMethod::parse("get"), Some(HttpMethod::Get));
    assert_eq!(HttpMethod::parse("Delete"), Some(HttpMethod::Delete));
    assert_eq!(HttpMethod::parse("*"), Some(HttpMethod::Any));
    assert_eq!(HttpMethod::parse("fetch"), None);
    assert_eq!(HttpMethod::from("PATCH"), HttpMethod::Patch);
}
