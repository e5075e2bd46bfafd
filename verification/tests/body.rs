use rockserver::body::payload_or_diagnostic;
use rockserver::body::TaggedBody;

const DIAGNOSTIC: &[u8] = b"failed to decode base64 body";

#[test]
fn encode_tags_utf8_as_text() {
    let body = TaggedBody::encode(b"hello");
    assert_eq!(body, TaggedBody::String("hello".to_string()));
}

#[test]
fn encode_tags_empty_payload_as_empty_text() {
    let body = TaggedBody::encode(b"");
    assert_eq!(body, TaggedBody::String(String::new()));
    assert_eq!(body.decode(), Vec::<u8>::new());
}

#[test]
fn encode_tags_multibyte_utf8_as_text() {
    let text = "h\u{e9}llo \u{4e16}\u{754c}";
    let body = TaggedBody::encode(text.as_bytes());
    assert_eq!(body, TaggedBody::String(text.to_string()));
    assert_eq!(body.decode(), text.as_bytes().to_vec());
}

#[test]
fn encode_tags_binary_as_base64() {
    let body = TaggedBody::encode(&[0xff, 0xfe, 0x00]);
    assert_eq!(body, TaggedBody::Base64("//4A".to_string()));
    let single = TaggedBody::encode(&[0x80]);
    assert_eq!(single, TaggedBody::Base64("gA==".to_string()));
}

#[test]
fn decode_reads_text_verbatim() {
    let body = TaggedBody::String("{\"id\":1}".to_string());
    assert_eq!(body.decode(), b"{\"id\":1}".to_vec());
}

#[test]
fn decode_reads_base64() {
    let body = TaggedBody::Base64("eyJpZCI6MX0=".to_string());
    assert_eq!(body.decode(), b"{\"id\":1}".to_vec());
    let binary = TaggedBody::Base64("//4A".to_string());
    assert_eq!(binary.decode(), vec![0xff, 0xfe, 0x00]);
}

#[test]
fn decode_of_corrupt_base64_gives_the_diagnostic_payload() {
    let body = TaggedBody::Base64("!!! not base64 !!!".to_string());
    assert_eq!(body.decode(), DIAGNOSTIC.to_vec());
    let short = TaggedBody::Base64("a".to_string());
    assert_eq!(short.decode(), DIAGNOSTIC.to_vec());
}

#[test]
fn decode_after_encode_is_the_identity() {
    let samples: Vec<Vec<u8>> = vec![
        vec![],
        b"plain text".to_vec(),
        vec![0],
        vec![0xff],
        vec![0xc3, 0x28],
        vec![0xe2, 0x82, 0xac],
        vec![0xf0, 0x9f, 0x98, 0x80, 0xff],
        (0u8..=255).collect(),
    ];
    for sample in samples {
        let body = TaggedBody::encode(&sample);
        assert_eq!(body.decode(), sample);
    }
}

#[test]
fn as_ref_gives_the_text_held() {
    assert_eq!(TaggedBody::String("abc".to_string()).as_ref(), b"abc");
    assert_eq!(TaggedBody::Base64("//4A".to_string()).as_ref(), b"//4A");
}

#[test]
fn payload_of_a_failed_decoding_is_the_diagnostic_payload() {
    assert_eq!(payload_or_diagnostic(Some(vec![1, 2, 3])), vec![1, 2, 3]);
    assert_eq!(payload_or_diagnostic(Some(Vec::new())), Vec::<u8>::new());
    assert_eq!(payload_or_diagnostic(None), DIAGNOSTIC.to_vec());
}

#[test]
fn clone_keeps_tag_and_text() {
    let text = TaggedBody::String("abc".to_string());
    assert_eq!(text.clone(), text);
    let binary = TaggedBody::Base64("//4A".to_string());
    assert_eq!(binary.clone(), binary);
}
