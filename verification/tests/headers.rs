use rockserver::headers::names_match;
use rockserver::headers::Headers;

fn pair(name: &str, value: &str) -> (String, String) {
    (name.to_string(), value.to_string())
}

#[test]
fn names_match_without_regard_to_ascii_case() {
    assert!(names_match("Content-Length", "content-length"));
    assert!(names_match("HOST", "host"));
    assert!(names_match("", ""));
    assert!(!names_match("host", "hosts"));
    assert!(!names_match("host", "hose"));
    assert!(!names_match("a", ""));
    assert!(!names_match("[", "{"));
    assert!(!names_match("@", "`"));
    assert!(names_match("Z", "z"));
    assert!(!names_match("\u{c9}", "\u{e9}"));
}

#[test]
fn new_list_is_empty() {
    let headers = Headers::new();
    assert_eq!(headers.len(), 0);
    assert_eq!(headers.get("host"), None);
}

#[test]
fn append_keeps_earlier_values() {
    let mut headers = Headers::new();
    headers.append("set-cookie".to_string(), "a=1".to_string());
    headers.append("Set-Cookie".to_string(), "b=2".to_string());
    assert_eq!(headers.entries, vec![pair("set-cookie", "a=1"), pair("Set-Cookie", "b=2")]);
    assert_eq!(headers.get("SET-COOKIE"), Some(&"a=1".to_string()));
    assert_eq!(headers.len(), 2);
}

#[test]
fn insert_replaces_every_value_of_the_name() {
    let mut headers = Headers::new();
    headers.append("Accept".to_string(), "text/html".to_string());
    headers.append("host".to_string(), "a".to_string());
    headers.append("ACCEPT".to_string(), "text/plain".to_string());
    headers.insert("accept".to_string(), "*/*".to_string());
    assert_eq!(headers.entries, vec![pair("host", "a"), pair("accept", "*/*")]);
    assert_eq!(headers.get("Accept"), Some(&"*/*".to_string()));
}

#[test]
fn remove_drops_every_value_of_the_name() {
    let mut headers = Headers::new();
    headers.append("Host".to_string(), "example.org".to_string());
    headers.append("accept".to_string(), "*/*".to_string());
    headers.append("host".to_string(), "other".to_string());
    headers.remove("host");
    assert_eq!(headers.entries, vec![pair("accept", "*/*")]);
    headers.remove("missing");
    assert_eq!(headers.entries, vec![pair("accept", "*/*")]);
}

#[test]
fn clone_keeps_the_entries() {
    let mut headers = Headers::new();
    headers.append("a".to_string(), "1".to_string());
    headers.append("b".to_string(), "2".to_string());
    assert_eq!(headers.clone(), headers);
}
