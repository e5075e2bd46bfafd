//! Body codec: a byte payload as tagged text, either the UTF-8 text itself
//! or its base64 form.

use vstd::prelude::*;
use vstd::slice::slice_to_vec;
use vstd::string::StrSliceExecFns;
use vstd::utf8::decode_utf8;
use vstd::utf8::decode_utf8_encode_utf8;
use vstd::utf8::encode_utf8;
use vstd::utf8::valid_utf8;

verus! {

/// The opaque error of `base64::decode`.
#[verifier::external_type_specification]
#[verifier::external_body]
pub struct ExDecodeError(base64::DecodeError);

/// The text that `base64::encode` produces for `bytes` (standard alphabet,
/// padded).
pub uninterp spec fn base64_text(bytes: Seq<u8>) -> Seq<char>;

/// The bytes that `base64::decode` recovers from `text`, or `None` where it
/// reports an error.
pub uninterp spec fn base64_bytes(text: Seq<char>) -> Option<Seq<u8>>;

/// Calls `base64::encode`. Trusted: the result is the base64 text of the
/// input, and `base64::decode` recovers the input from that text.
#[verifier::external_body]
fn base64_encode(bytes: &[u8]) -> (text: String)
    ensures
        text@ == base64_text(bytes@),
        base64_bytes(text@) == Some(bytes@),
{
    base64::encode(bytes)
}

/// Calls `base64::decode`. Trusted: the result is what `base64_bytes` names,
/// with an error exactly where that is `None`.
#[verifier::external_body]
fn base64_decode(text: &str) -> (r: Result<Vec<u8>, base64::DecodeError>)
    ensures
        match r {
            Ok(bytes) => base64_bytes(text@) == Some(bytes@),
            Err(_) => base64_bytes(text@) is None,
        },
{
    base64::decode(text)
}

/// Calls `String::from_utf8`. Trusted: it succeeds exactly on valid UTF-8,
/// and the string then holds the decoded characters.
#[verifier::external_body]
fn text_from_utf8(bytes: Vec<u8>) -> (r: Option<String>)
    ensures
        match r {
            Some(text) => valid_utf8(bytes@) && text@ == decode_utf8(bytes@),
            None => !valid_utf8(bytes@),
        },
{
    String::from_utf8(bytes).ok()
}

/// A payload in its persisted form.
#[derive(Debug, PartialEq, Eq)]
pub enum TaggedBody {
    /// Opaque binary, as base64 text.
    Base64(String),
    /// UTF-8 text, verbatim.
    String(String),
}

/// Mathematical model of a [`TaggedBody`].
pub ghost enum TaggedBodyView {
    Base64(Seq<char>),
    String(Seq<char>),
}

impl View for TaggedBody {
    type V = TaggedBodyView;

    open spec fn view(&self) -> TaggedBodyView {
        match self {
            TaggedBody::Base64(text) => TaggedBodyView::Base64(text@),
            TaggedBody::String(text) => TaggedBodyView::String(text@),
        }
    }
}

impl Clone for TaggedBody {
    fn clone(&self) -> (r: TaggedBody)
        ensures
            r@ == self@,
    {
        match self {
            TaggedBody::Base64(text) => TaggedBody::Base64(text.clone()),
            TaggedBody::String(text) => TaggedBody::String(text.clone()),
        }
    }
}

/// The payload that stands in for a binary body whose base64 text is
/// corrupt.
pub open spec fn decode_failure_bytes() -> Seq<u8> {
    encode_utf8("failed to decode base64 body"@)
}

/// The tagged form of a payload: text where the bytes are valid UTF-8,
/// base64 otherwise.
pub open spec fn encode_spec(bytes: Seq<u8>) -> TaggedBodyView {
    if valid_utf8(bytes) {
        TaggedBodyView::String(decode_utf8(bytes))
    } else {
        TaggedBodyView::Base64(base64_text(bytes))
    }
}

/// The payload of a tagged body. Corrupt base64 gives the fixed diagnostic
/// payload.
pub open spec fn decode_spec(body: TaggedBodyView) -> Seq<u8> {
    match body {
        TaggedBodyView::String(text) => encode_utf8(text),
        TaggedBodyView::Base64(text) => payload_of(base64_bytes(text)),
    }
}

/// The payload for what a base64 decoder gave: the bytes it recovered, or
/// the diagnostic payload where it reported an error.
pub open spec fn payload_of(decoded: Option<Seq<u8>>) -> Seq<u8> {
    match decoded {
        Some(bytes) => bytes,
        None => decode_failure_bytes(),
    }
}

/// The payload for what a base64 decoder gave, `None` standing for its
/// error: a corrupt body degrades to the diagnostic payload.
pub fn payload_or_diagnostic(decoded: Option<Vec<u8>>) -> (bytes: Vec<u8>)
    ensures
        bytes@ == payload_of(
            match decoded {
                Some(b) => Some(b@),
                None => None,
            },
        ),
{
    match decoded {
        Some(bytes) => bytes,
        None => "failed to decode base64 body".as_bytes_vec(),
    }
}

impl TaggedBody {
    /// Classifies `bytes` as text or binary and tags them. Never fails, and
    /// [`TaggedBody::decode`] gives the same bytes back.
    pub fn encode(bytes: &[u8]) -> (body: TaggedBody)
        ensures
            body@ == encode_spec(bytes@),
            decode_spec(body@) == bytes@,
    {
        match text_from_utf8(slice_to_vec(bytes)) {
            Some(text) => {
                proof {
                    decode_utf8_encode_utf8(bytes@);
                }
                TaggedBody::String(text)
            },
            None => TaggedBody::Base64(base64_encode(bytes)),
        }
    }

    /// The payload this body stands for. Never fails: corrupt base64 gives
    /// the diagnostic payload.
    pub fn decode(&self) -> (bytes: Vec<u8>)
        ensures
            bytes@ == decode_spec(self@),
    {
        match self {
            TaggedBody::String(text) => text.as_str().as_bytes_vec(),
            TaggedBody::Base64(text) => match base64_decode(text.as_str()) {
                Ok(bytes) => payload_or_diagnostic(Some(bytes)),
                Err(_) => payload_or_diagnostic(None),
            },
        }
    }

    /// The text held, whichever the tag.
    pub fn as_ref(&self) -> (text: &[u8])
        ensures
            text@ == encode_utf8(
                match self@ {
                    TaggedBodyView::Base64(t) => t,
                    TaggedBodyView::String(t) => t,
                },
            ),
    {
        match self {
            TaggedBody::Base64(text) => text.as_str().as_bytes(),
            TaggedBody::String(text) => text.as_str().as_bytes(),
        }
    }
}

/// A payload that is valid UTF-8 is tagged as text, and decoding that text
/// gives the payload back.
pub proof fn lemma_text_round_trip(bytes: Seq<u8>)
    requires
        valid_utf8(bytes),
    ensures
        decode_spec(encode_spec(bytes)) == bytes,
{
    decode_utf8_encode_utf8(bytes);
}

} // verus!
