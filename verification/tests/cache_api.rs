use rockserver::body::TaggedBody;
use rockserver::cache::Cache;
use rockserver::cache::CacheConfig;
use rockserver::cache::CacheObject;
use rockserver::cache::CacheReqParts;
use rockserver::cache_api::delete_cache_json;
use rockserver::cache_api::get_cache_json;
use rockserver::cache_api::post_cache_json;
use rockserver::cache_api::ACCEPTED;
use rockserver::cache_api::BAD_REQUEST;
use rockserver::document::DocumentError;
use rockserver::document::EntryDocument;
use rockserver::document::RequestDocument;
use rockserver::headers::Headers;

fn entry(path: &str, status_code: u16, body: &[u8]) -> CacheObject {
    let mut response_headers = Headers::new();
    response_headers.append("key".to_string(), "src".to_string());
    CacheObject {
        request: CacheReqParts {
            method: "GET".to_string(),
            headers: Headers::new(),
            query: Some("a=1".to_string()),
            path: path.to_string(),
            body: vec![0x80, 0x81],
        },
        response_body: body.to_vec(),
        response_headers,
        status_code,
        config: CacheConfig::default(),
    }
}

fn document(path: &str, status_code: u16, body: TaggedBody) -> EntryDocument {
    let mut response_headers = Headers::new();
    response_headers.append("key".to_string(), "src".to_string());
    EntryDocument {
        request: RequestDocument {
            method: "GET".to_string(),
            headers: Headers::new(),
            query: Some("a=1".to_string()),
            path: path.to_string(),
            body: TaggedBody::Base64("gIE=".to_string()),
        },
        response_body: body,
        response_headers,
        status_code,
        config: CacheConfig::default(),
    }
}

fn sorted(mut documents: Vec<(String, EntryDocument)>) -> Vec<(String, EntryDocument)> {
    documents.sort_by(|a, b| a.0.cmp(&b.0));
    documents
}

#[test]
fn test_serde() {
    let value = entry("/x", 200, b"bytes");
    let written = value.to_document();
    assert_eq!(written.response_body, TaggedBody::String("bytes".to_string()));
    assert_eq!(written.response_headers.get("key"), Some(&"src".to_string()));
    assert_eq!(written.status_code, 200);
    let read = written.to_entry().unwrap();
    assert_eq!(value, read);
}

#[test]
fn document_tags_both_bodies() {
    let written = entry("/x", 200, b"bytes").to_document();
    assert_eq!(written, document("/x", 200, TaggedBody::String("bytes".to_string())));
    let binary = entry("/x", 200, &[0xff, 0xfe, 0x00]).to_document();
    assert_eq!(binary, document("/x", 200, TaggedBody::Base64("//4A".to_string())));
}

#[test]
fn document_with_a_status_out_of_range_is_refused() {
    let low = document("/x", 99, TaggedBody::String(String::new()));
    assert_eq!(low.to_entry(), Err(DocumentError::InvalidStatusCode(99)));
    let high = document("/x", 600, TaggedBody::String(String::new()));
    assert_eq!(high.to_entry(), Err(DocumentError::InvalidStatusCode(600)));
    let edge = document("/x", 599, TaggedBody::String(String::new()));
    assert_eq!(edge.to_entry(), Ok(entry("/x", 599, b"")));
    let first = document("/x", 100, TaggedBody::String(String::new()));
    assert_eq!(first.to_entry(), Ok(entry("/x", 100, b"")));
}

#[test]
fn document_with_corrupt_base64_reads_as_the_diagnostic_payload() {
    let read = document("/x", 200, TaggedBody::Base64("***".to_string())).to_entry().unwrap();
    assert_eq!(read.response_body, b"failed to decode base64 body".to_vec());
    assert_eq!(read.request.body, vec![0x80, 0x81]);
}

#[test]
fn dump_of_an_empty_store_is_empty() {
    assert_eq!(get_cache_json(&Cache::new()).len(), 0);
}

#[test]
fn dump_writes_one_document_for_each_entry() {
    let mut cache = Cache::new();
    cache.insert("b".to_string(), entry("/b", 404, &[0xff]));
    cache.insert("a".to_string(), entry("/a", 200, b"one"));
    assert_eq!(
        sorted(get_cache_json(&cache)),
        vec![
            ("a".to_string(), document("/a", 200, TaggedBody::String("one".to_string()))),
            ("b".to_string(), document("/b", 404, TaggedBody::Base64("/w==".to_string()))),
        ]
    );
}

#[test]
fn restore_installs_the_documents() {
    let mut cache = Cache::new();
    cache.insert("old".to_string(), entry("/old", 200, b"old"));
    let documents = vec![
        ("a".to_string(), document("/a", 200, TaggedBody::String("one".to_string()))),
        ("b".to_string(), document("/b", 404, TaggedBody::Base64("/w==".to_string()))),
    ];
    assert_eq!(post_cache_json(&mut cache, &documents), ACCEPTED);
    assert_eq!(ACCEPTED, 202);
    assert_eq!(cache.lookup("old"), None);
    assert_eq!(cache.lookup("a"), Some(entry("/a", 200, b"one")));
    assert_eq!(cache.lookup("b"), Some(entry("/b", 404, &[0xff])));
    assert_eq!(cache.dump_all().len(), 2);
}

#[test]
fn restore_of_a_refused_document_leaves_the_store_alone() {
    let mut cache = Cache::new();
    cache.insert("old".to_string(), entry("/old", 200, b"old"));
    let documents = vec![
        ("a".to_string(), document("/a", 200, TaggedBody::String("one".to_string()))),
        ("b".to_string(), document("/b", 1000, TaggedBody::String("bad".to_string()))),
    ];
    assert_eq!(post_cache_json(&mut cache, &documents), BAD_REQUEST);
    assert_eq!(BAD_REQUEST, 400);
    assert_eq!(cache.lookup("old"), Some(entry("/old", 200, b"old")));
    assert_eq!(cache.lookup("a"), None);
    assert_eq!(cache.dump_all().len(), 1);
}

#[test]
fn restore_of_a_dump_leaves_the_dump_unchanged() {
    let mut cache = Cache::new();
    cache.insert("a".to_string(), entry("/a", 200, b"one"));
    cache.insert("b".to_string(), entry("/b", 503, &[0xff, 0x00, 0x01]));
    cache.insert("c".to_string(), entry("/c", 204, b""));
    let before = sorted(get_cache_json(&cache));
    let dump = get_cache_json(&cache);
    assert_eq!(post_cache_json(&mut cache, &dump), ACCEPTED);
    assert_eq!(sorted(get_cache_json(&cache)), before);
}

#[test]
fn restore_of_nothing_empties_the_store() {
    let mut cache = Cache::new();
    cache.insert("a".to_string(), entry("/a", 200, b"one"));
    assert_eq!(post_cache_json(&mut cache, &Vec::new()), ACCEPTED);
    assert_eq!(get_cache_json(&cache).len(), 0);
}

#[test]
fn delete_empties_the_store() {
    let mut cache = Cache::new();
    cache.insert("a".to_string(), entry("/a", 200, b"one"));
    delete_cache_json(&mut cache);
    assert_eq!(get_cache_json(&cache).len(), 0);
    assert_eq!(cache.lookup("a"), None);
}

#[test]
fn document_with_a_method_that_is_none_is_refused() {
    let mut spaced = document("/x", 200, TaggedBody::String(String::new()));
    spaced.request.method = "G ET".to_string();
    assert_eq!(spaced.to_entry(), Err(DocumentError::InvalidMethod));
    let mut empty = document("/x", 200, TaggedBody::String(String::new()));
    empty.request.method = String::new();
    assert_eq!(empty.to_entry(), Err(DocumentError::InvalidMethod));
    let mut custom = document("/x", 200, TaggedBody::String(String::new()));
    custom.request.method = "PURGE".to_string();
    assert!(custom.to_entry().is_ok());
}

#[test]
fn document_with_a_header_that_is_none_is_refused() {
    let mut name = document("/x", 200, TaggedBody::String(String::new()));
    name.response_headers.append("bad name".to_string(), "v".to_string());
    assert_eq!(name.to_entry(), Err(DocumentError::InvalidHeader));
    let mut value = document("/x", 200, TaggedBody::String(String::new()));
    value.request.headers.append("accept".to_string(), "a\nb".to_string());
    assert_eq!(value.to_entry(), Err(DocumentError::InvalidHeader));
    let mut fine = document("/x", 200, TaggedBody::String(String::new()));
    fine.request.headers.append("Accept".to_string(), "text/html\t;q=1".to_string());
    assert!(fine.to_entry().is_ok());
}

#[test]
fn status_code_is_looked_at_before_method_and_headers() {
    let mut wrong = document("/x", 42, TaggedBody::String(String::new()));
    wrong.request.method = String::new();
    wrong.response_headers.append(String::new(), "v".to_string());
    assert_eq!(wrong.to_entry(), Err(DocumentError::InvalidStatusCode(42)));
    wrong.status_code = 200;
    assert_eq!(wrong.to_entry(), Err(DocumentError::InvalidMethod));
    wrong.request.method = "GET".to_string();
    wrong.request.query = Some("a b".to_string());
    assert_eq!(wrong.to_entry(), Err(DocumentError::InvalidHeader));
    wrong.response_headers = Headers::new();
    assert_eq!(wrong.to_entry(), Err(DocumentError::InvalidQuery));
    wrong.request.query = Some("a=b".to_string());
    assert!(wrong.to_entry().is_ok());
}

#[test]
fn document_with_a_query_that_is_none_is_refused() {
    let mut spaced = document("/x", 200, TaggedBody::String(String::new()));
    spaced.request.query = Some("a=1 2".to_string());
    assert_eq!(spaced.to_entry(), Err(DocumentError::InvalidQuery));
    let mut path = document("/x y", 200, TaggedBody::String(String::new()));
    assert_eq!(path.to_entry(), Err(DocumentError::InvalidQuery));
    path.request.query = None;
    assert!(path.to_entry().is_ok());
    let mut fine = document("/x", 200, TaggedBody::String(String::new()));
    fine.request.query = Some("a=1&b=%20".to_string());
    assert!(fine.to_entry().is_ok());
}

#[test]
fn restore_of_a_document_with_a_bad_header_leaves_the_store_alone() {
    let mut cache = Cache::new();
    cache.insert("old".to_string(), entry("/old", 200, b"old"));
    let mut bad = document("/b", 200, TaggedBody::String("bad".to_string()));
    bad.response_headers.append("x y".to_string(), "v".to_string());
    let documents = vec![("b".to_string(), bad)];
    assert_eq!(post_cache_json(&mut cache, &documents), BAD_REQUEST);
    assert_eq!(cache.lookup("old"), Some(entry("/old", 200, b"old")));
    assert_eq!(cache.lookup("b"), None);
}
