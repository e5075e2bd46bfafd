//! What the HTTP transport takes as a method, as a header name, as a
//! header value and as a path with its query. A valid entry holds nothing
//! else.

use crate::fingerprint::is_lower_hex;
use crate::headers::with_header;
use crate::headers::without;
use crate::headers::HeaderView;
use crate::headers::Headers;
use hyper::header::HeaderName;
use hyper::http::uri::PathAndQuery;
use hyper::Method;
use std::str::FromStr;
use vstd::prelude::*;
use vstd::string::StringExecFns;
use vstd::utf8::encode_utf8;
use vstd::utf8::is_ascii_chars;
use vstd::utf8::is_ascii_chars_encode_utf8;

verus! {

/// Whether `Method::from_bytes` of the `http` crate takes the text as a
/// method.
pub uninterp spec fn method_accepted(text: Seq<char>) -> bool;

/// Whether `HeaderName::from_bytes` of the `http` crate takes the text as
/// a header name.
pub uninterp spec fn header_name_accepted(name: Seq<char>) -> bool;

/// Whether `PathAndQuery::from_str` of the `http` crate takes the text as
/// a path with its query.
pub uninterp spec fn path_and_query_accepted(text: Seq<char>) -> bool;

/// Calls `PathAndQuery::from_str`. Trusted: the result says whether the
/// call succeeded.
#[verifier::external_body]
fn parses_as_path_and_query(text: &str) -> (ok: bool)
    ensures
        ok == path_and_query_accepted(text@),
{
    PathAndQuery::from_str(text).is_ok()
}

/// Calls `Method::from_bytes`. Trusted: the result says whether the call
/// succeeded.
#[verifier::external_body]
fn parses_as_method(text: &str) -> (ok: bool)
    ensures
        ok == method_accepted(text@),
{
    Method::from_bytes(text.as_bytes()).is_ok()
}

/// Calls `HeaderName::from_bytes`. Trusted: the result says whether the
/// call succeeded.
#[verifier::external_body]
fn parses_as_header_name(name: &str) -> (ok: bool)
    ensures
        ok == header_name_accepted(name@),
{
    HeaderName::from_bytes(name.as_bytes()).is_ok()
}

/// A byte that may stand in a header value: a tab, or anything from the
/// space on but the delete character.
pub open spec fn value_byte_accepted(b: u8) -> bool {
    (b >= 32 && b != 127) || b == 9
}

/// Whether every byte of the value's UTF-8 form may stand in a header
/// value.
pub open spec fn header_value_accepted(value: Seq<char>) -> bool {
    forall|i: int|
        0 <= i < encode_utf8(value).len() ==> value_byte_accepted(#[trigger] encode_utf8(value)[i])
}

/// Whether every name and every value of the list is accepted.
pub open spec fn headers_accepted(headers: Seq<HeaderView>) -> bool {
    forall|i: int|
        0 <= i < headers.len() ==> header_name_accepted((#[trigger] headers[i]).0)
            && header_value_accepted(headers[i].1)
}

/// Whether the query, where there is one, is accepted behind the path and
/// a question mark. A request without a query has nothing to refuse.
pub open spec fn query_accepted(path: Seq<char>, query: Option<Seq<char>>) -> bool {
    match query {
        Some(q) => path_and_query_accepted(path + "?"@ + q),
        None => true,
    }
}

/// Tells whether the transport takes the query, where there is one, behind
/// the path.
pub fn is_query(path: &str, query: &Option<String>) -> (ok: bool)
    ensures
        ok == query_accepted(
            path@,
            match query {
                Some(q) => Some(q@),
                None => None,
            },
        ),
{
    match query {
        Some(q) => {
            let mut text = path.to_owned();
            text.append("?");
            text.append(q.as_str());
            proof {
                assert(text@ =~= path@ + "?"@ + q@);
            }
            parses_as_path_and_query(text.as_str())
        },
        None => true,
    }
}

/// Tells whether the transport takes `text` as a method.
pub fn is_method(text: &str) -> (ok: bool)
    ensures
        ok == method_accepted(text@),
{
    parses_as_method(text)
}

/// Tells whether the transport takes `name` as a header name.
pub fn is_header_name(name: &str) -> (ok: bool)
    ensures
        ok == header_name_accepted(name@),
{
    parses_as_header_name(name)
}

/// Tells whether `value` may stand as a header value.
pub fn is_header_value(value: &str) -> (ok: bool)
    ensures
        ok == header_value_accepted(value@),
{
    let bytes = value.as_bytes();
    let mut i: usize = 0;
    while i < bytes.len()
        invariant
            i <= bytes.len(),
            bytes@ == encode_utf8(value@),
            forall|j: int| 0 <= j < i ==> value_byte_accepted(#[trigger] bytes@[j]),
        decreases bytes.len() - i,
    {
        let b: u8 = bytes[i];
        if !((b >= 32 && b != 127) || b == 9) {
            return false;
        }
        i = i + 1;
    }
    true
}

/// Tells whether every name and every value of the list is accepted.
pub fn headers_are_accepted(headers: &Headers) -> (ok: bool)
    ensures
        ok == headers_accepted(headers@),
{
    let mut i: usize = 0;
    while i < headers.entries.len()
        invariant
            i <= headers.entries.len(),
            forall|j: int|
                0 <= j < i ==> header_name_accepted((#[trigger] headers@[j]).0)
                    && header_value_accepted(headers@[j].1),
        decreases headers.entries.len() - i,
    {
        let name_ok = is_header_name(headers.entries[i].0.as_str());
        let value_ok = is_header_value(headers.entries[i].1.as_str());
        proof {
            assert(headers@[i as int] == (headers.entries[i as int].0@, headers.entries[i as int].1@));
        }
        if !(name_ok && value_ok) {
            return false;
        }
        i = i + 1;
    }
    true
}

/// A text of lower-case hex digits may stand as a header value.
pub proof fn lemma_hex_text_is_header_value(text: Seq<char>)
    requires
        forall|i: int| 0 <= i < text.len() ==> is_lower_hex(#[trigger] text[i]),
    ensures
        header_value_accepted(text),
{
    assert(is_ascii_chars(text)) by {
        assert forall|i: int| 0 <= i < text.len() implies '\0' <= #[trigger] text[i]
            <= '\u{7f}' by {
            assert(is_lower_hex(text[i]));
        }
    }
    is_ascii_chars_encode_utf8(text);
    assert forall|i: int| 0 <= i < encode_utf8(text).len() implies value_byte_accepted(
        #[trigger] encode_utf8(text)[i],
    ) by {
        assert(is_lower_hex(text[i]));
        assert(text[i] as u8 == encode_utf8(text)[i]);
    }
}

/// What is left of an accepted list when a name is dropped is accepted.
pub proof fn lemma_without_accepted(headers: Seq<HeaderView>, name: Seq<char>)
    requires
        headers_accepted(headers),
    ensures
        headers_accepted(without(headers, name)),
    decreases headers.len(),
{
    if headers.len() > 0 {
        let front = headers.drop_last();
        assert(headers_accepted(front)) by {
            assert forall|i: int| 0 <= i < front.len() implies header_name_accepted(
                (#[trigger] front[i]).0,
            ) && header_value_accepted(front[i].1) by {
                assert(front[i] == headers[i]);
            }
        }
        lemma_without_accepted(front, name);
        let last = headers[headers.len() - 1];
        assert(header_name_accepted(last.0) && header_value_accepted(last.1));
    }
}

/// An accepted list stays accepted when a header is set whose name and
/// value are accepted.
pub proof fn lemma_with_header_accepted(
    headers: Seq<HeaderView>,
    name: Seq<char>,
    value: Seq<char>,
)
    requires
        headers_accepted(headers),
    ensures
        header_name_accepted(name) && header_value_accepted(value) ==> headers_accepted(
            with_header(headers, name, value),
        ),
{
    lemma_without_accepted(headers, name);
}

} // verus!
