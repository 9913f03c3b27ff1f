use db_advisor::advisor::DbAdvisor;

#[test]
fn balanced_span_ignores_braces_inside_strings() {
    let text = b"noise {\"a\":\"val{ue}\", \"b\":1} trailing";
    let got = DbAdvisor::extract_json_from_text(text).expect("span expected");
    assert_eq!(got, b"{\"a\":\"val{ue}\", \"b\":1}".to_vec());
}

#[test]
fn escaped_quote_does_not_end_the_string() {
    let text = b"{\"x\":\"a\\\"b}c\"}";
    let got = DbAdvisor::extract_json_from_text(text).expect("span expected");
    assert_eq!(got, b"{\"x\":\"a\\\"b}c\"}".to_vec());
}

#[test]
fn escaped_backslash_then_quote_ends_the_string() {
    let text = b"pre {\"x\":\"a\\\\\"}b\"} post";
    let got = DbAdvisor::extract_json_from_text(text).expect("span expected");
    assert_eq!(got, b"{\"x\":\"a\\\\\"}".to_vec());
}

#[test]
fn truncated_object_without_any_closing_brace_yields_nothing() {
    let text = b"{\"a\":1,\"b\":[1,2";
    assert_eq!(DbAdvisor::extract_json_from_text(text), None);
}

#[test]
fn unterminated_tail_falls_back_to_last_closing_brace() {
    let text = b"{\"a\":1} noise {\"b\":2";
    let got = DbAdvisor::extract_json_from_text(text).expect("span expected");
    assert_eq!(got, b"{\"a\":1}".to_vec());
}

#[test]
fn truncated_nested_object_uses_last_brace_best_effort() {
    let text = b"x {\"a\":{\"b\":1}, \"c\":[2";
    let got = DbAdvisor::extract_json_from_text(text).expect("span expected");
    assert_eq!(got, b"{\"a\":{\"b\":1}".to_vec());
}

#[test]
fn text_without_any_brace_yields_nothing() {
    assert_eq!(DbAdvisor::extract_json_from_text(b"plain prose only"), None);
}

#[test]
fn closing_brace_before_opening_one_yields_nothing() {
    assert_eq!(DbAdvisor::extract_json_from_text(b"} {"), None);
}
