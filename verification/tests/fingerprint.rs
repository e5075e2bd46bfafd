use rockserver::cache::CacheReqParts;
use rockserver::fingerprint::fingerprint_of;
use rockserver::fingerprint::to_hex_lower;
use rockserver::headers::Headers;

fn request(method: &str, path: &str, body: &[u8]) -> CacheReqParts {
    CacheReqParts {
        method: method.to_string(),
        headers: Headers::new(),
        query: None,
        path: path.to_string(),
        body: body.to_vec(),
    }
}

#[test]
fn hex_is_lower_case_with_two_digits_per_byte() {
    assert_eq!(to_hex_lower(&[]), "");
    assert_eq!(to_hex_lower(&[0x00, 0x0a, 0xab, 0xff, 0x10, 0x9f]), "000aabff109f");
}

#[test]
fn fingerprint_is_the_md5_of_method_path_and_body_behind_their_lengths() {
    assert_eq!(fingerprint_of("GET", "/items/1", b""), "484acf145cd2338cc14003775aa3f861");
    assert_eq!(fingerprint_of("POST", "/submit", b"hello"), "50278a5dab946ec1ae6454f7c765d0be");
    assert_eq!(fingerprint_of("", "", b""), "693e9af84d3dfcc71e640e005bdc5e2e");
    assert_eq!(fingerprint_of("GET", "/a", &[0xff, 0xfe]), "99676570a2537ab08b7c531c5f412588");
}

#[test]
fn get_md5_agrees_with_the_fingerprint() {
    assert_eq!(request("GET", "/items/1", b"").get_md5(), "484acf145cd2338cc14003775aa3f861");
    assert_eq!(request("GET", "/", b"").get_md5(), "97f93141573defdefa578b4dc36f13f2");
}

#[test]
fn fingerprint_ignores_headers_and_query() {
    let plain = request("GET", "/items/1", b"x");
    let mut busy = request("GET", "/items/1", b"x");
    busy.headers.append("authorization".to_string(), "Bearer abc".to_string());
    busy.headers.append("x-trace-id".to_string(), "42".to_string());
    busy.query = Some("page=2".to_string());
    assert_eq!(plain.get_md5(), busy.get_md5());
}

#[test]
fn fingerprint_changes_with_method_path_and_body() {
    let base = request("GET", "/items/1", b"x").get_md5();
    assert_ne!(base, request("POST", "/items/1", b"x").get_md5());
    assert_ne!(base, request("GET", "/items/2", b"x").get_md5());
    assert_ne!(base, request("GET", "/items/1", b"y").get_md5());
    assert_ne!(base, request("GET", "/items/1", b"").get_md5());
}

#[test]
fn fingerprint_has_thirty_two_hex_digits() {
    let key = request("DELETE", "/things", &[0, 1, 2, 255]).get_md5();
    assert_eq!(key.len(), 32);
    assert!(key.chars().all(|c| c.is_ascii_digit() || ('a'..='f').contains(&c)));
}

#[test]
fn fingerprint_keeps_path_and_body_apart() {
    let split = request("GET", "/a", b"b").get_md5();
    let joined = request("GET", "/ab", b"").get_md5();
    assert_eq!(split, "ab2e059f277adfb6f386b0a468c14fbd");
    assert_eq!(joined, "3ead1c1752853906939e351b02d3a920");
    assert_ne!(split, joined);
    assert_ne!(request("GE", "T/a", b"").get_md5(), request("GET", "/a", b"").get_md5());
}

#[test]
fn fingerprint_of_a_part_longer_than_one_length_byte() {
    assert_eq!(fingerprint_of("GET", "/big", &[b'x'; 127]), "081d930bb382d6a7984483a3079ad61f");
    assert_eq!(fingerprint_of("GET", "/big", &[b'x'; 128]), "896070ab7e15db35bea62ddb2ae92113");
    assert_eq!(fingerprint_of("GET", "/big", &[b'x'; 300]), "1761630d87e2bdcb5a1e4f11ea604395");
}

#[test]
fn fingerprint_is_the_same_on_a_second_call() {
    let parts = request("PATCH", "/things/9", &[1, 2, 3]);
    let before = parts.clone();
    assert_eq!(parts.get_md5(), parts.get_md5());
    assert_eq!(parts, before);
}
