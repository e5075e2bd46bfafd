use rockserver::headers::Headers;
use rockserver::transport::headers_are_accepted;
use rockserver::transport::is_header_name;
use rockserver::transport::is_header_value;
use rockserver::transport::is_method;
use rockserver::transport::is_query;

#[test]
fn methods_are_tokens() {
    assert!(is_method("GET"));
    assert!(is_method("DELETE"));
    assert!(is_method("PURGE"));
    assert!(is_method("get"));
    assert!(!is_method(""));
    assert!(!is_method("GE T"));
    assert!(!is_method("GET\n"));
}

#[test]
fn header_names_are_tokens() {
    assert!(is_header_name("content-type"));
    assert!(is_header_name("Content-Type"));
    assert!(is_header_name("x-rockserver-id"));
    assert!(!is_header_name(""));
    assert!(!is_header_name("content type"));
    assert!(!is_header_name("content:type"));
    assert!(!is_header_name("caf\u{e9}"));
}

#[test]
fn header_values_hold_no_control_characters_but_tab() {
    assert!(is_header_value(""));
    assert!(is_header_value("text/html; charset=utf-8"));
    assert!(is_header_value("a\tb"));
    assert!(is_header_value("caf\u{e9}"));
    assert!(is_header_value(" ~"));
    assert!(!is_header_value("a\nb"));
    assert!(!is_header_value("a\rb"));
    assert!(!is_header_value("a\u{0}b"));
    assert!(!is_header_value("a\u{1f}"));
    assert!(!is_header_value("\u{7f}"));
}

#[test]
fn header_list_is_accepted_where_each_entry_is() {
    let mut headers = Headers::new();
    assert!(headers_are_accepted(&headers));
    headers.append("accept".to_string(), "*/*".to_string());
    headers.append("x-trace".to_string(), "1".to_string());
    assert!(headers_are_accepted(&headers));
    headers.append("x trace".to_string(), "1".to_string());
    assert!(!headers_are_accepted(&headers));
    let mut values = Headers::new();
    values.append("accept".to_string(), "*/*".to_string());
    values.append("x-trace".to_string(), "1\n2".to_string());
    assert!(!headers_are_accepted(&values));
}

#[test]
fn query_is_taken_behind_its_path() {
    assert!(is_query("/a", &None));
    assert!(is_query("not a path", &None));
    assert!(is_query("/a", &Some("x=1&y=2".to_string())));
    assert!(is_query("/a", &Some(String::new())));
    assert!(!is_query("/a", &Some("x=1 2".to_string())));
    assert!(!is_query("/a b", &Some("x=1".to_string())));
    assert!(!is_query("/a", &Some("x=\n".to_string())));
}
