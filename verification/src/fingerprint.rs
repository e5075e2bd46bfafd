//! Request fingerprint: the lower-case hex MD5 digest of method, path and
//! body, in that order, each behind its length.

use vstd::prelude::*;
use vstd::utf8::encode_utf8;
use vstd::utf8::encode_utf8_decode_utf8;

verus! {

/// The 16-byte digest that `md5::compute` gives for `data`.
pub uninterp spec fn md5_digest(data: Seq<u8>) -> Seq<u8>;

/// Calls `md5::compute`. Trusted: the result is the MD5 digest of the input.
#[verifier::external_body]
fn md5_compute(data: &[u8]) -> (digest: [u8; 16])
    ensures
        digest@ == md5_digest(data@),
{
    md5::compute(data).0
}

/// Calls `String::push`. Trusted: the character is appended.
#[verifier::external_body]
fn push_char(text: &mut String, c: char)
    ensures
        final(text)@ == old(text)@.push(c),
{
    text.push(c)
}

/// The lower-case hex digit of a value below sixteen.
pub open spec fn hex_digit(n: u8) -> char {
    if n < 10 {
        (48 + n) as u8 as char
    } else {
        (87 + n) as u8 as char
    }
}

/// Two lower-case hex digits per byte, high nibble first.
pub open spec fn hex_lower(bytes: Seq<u8>) -> Seq<char>
    decreases bytes.len(),
{
    if bytes.len() == 0 {
        Seq::empty()
    } else {
        hex_lower(bytes.drop_last()).push(hex_digit(bytes.last() / 16)).push(
            hex_digit(bytes.last() % 16),
        )
    }
}

/// Whether `c` is one of `0` to `9` or `a` to `f`.
pub open spec fn is_lower_hex(c: char) -> bool {
    ('0' <= c && c <= '9') || ('a' <= c && c <= 'f')
}

/// A length in base 128, lowest digit first, one byte per digit. Every
/// byte but the last has its high bit set, so the end of a length shows.
pub open spec fn length_prefix(n: nat) -> Seq<u8>
    decreases n,
{
    if n < 128 {
        seq![n as u8]
    } else {
        seq![(128 + n % 128) as u8] + length_prefix(n / 128)
    }
}

/// A part behind its length.
pub open spec fn framed(part: Seq<u8>) -> Seq<u8> {
    length_prefix(part.len()) + part
}

/// The bytes that are hashed: method, path and body, each behind its
/// length, so that the three parts stay apart.
pub open spec fn fingerprint_input(method: Seq<char>, path: Seq<char>, body: Seq<u8>) -> Seq<u8> {
    framed(encode_utf8(method)) + framed(encode_utf8(path)) + framed(body)
}

/// The fingerprint of a request. Headers and query take no part in it.
pub open spec fn fingerprint(method: Seq<char>, path: Seq<char>, body: Seq<u8>) -> Seq<char> {
    hex_lower(md5_digest(fingerprint_input(method, path, body)))
}

fn hex_digit_of(n: u8) -> (c: char)
    requires
        n < 16,
    ensures
        c == hex_digit(n),
{
    if n < 10 {
        (48 + n) as char
    } else {
        (87 + n) as char
    }
}

/// Writes `bytes` as lower-case hex: two digits for each byte.
pub fn to_hex_lower(bytes: &[u8]) -> (text: String)
    ensures
        text@ == hex_lower(bytes@),
        text@.len() == 2 * bytes@.len(),
        forall|i: int| 0 <= i < text@.len() ==> is_lower_hex(#[trigger] text@[i]),
{
    let mut text = String::new();
    let mut i: usize = 0;
    while i < bytes.len()
        invariant
            i <= bytes.len(),
            text@ == hex_lower(bytes@.take(i as int)),
        decreases bytes.len() - i,
    {
        let byte: u8 = bytes[i];
        proof {
            assert(bytes@.take(i + 1).drop_last() =~= bytes@.take(i as int));
            assert(bytes@.take(i + 1).last() == byte);
        }
        push_char(&mut text, hex_digit_of(byte / 16));
        push_char(&mut text, hex_digit_of(byte % 16));
        i = i + 1;
    }
    proof {
        assert(bytes@.take(bytes@.len() as int) =~= bytes@);
        lemma_hex_lower_len(bytes@);
        lemma_hex_lower_digits(bytes@);
    }
    text
}

/// Appends the length `n` to `out`.
fn push_length(out: &mut Vec<u8>, n: usize)
    ensures
        final(out)@ == old(out)@ + length_prefix(n as nat),
{
    let mut rest: usize = n;
    while rest >= 128
        invariant
            old(out)@ + length_prefix(n as nat) == out@ + length_prefix(rest as nat),
        decreases rest,
    {
        let ghost before = out@;
        let digit: u8 = (128 + rest % 128) as u8;
        out.push(digit);
        proof {
            assert(length_prefix(rest as nat) == seq![digit] + length_prefix((rest / 128) as nat));
            assert(before + (seq![digit] + length_prefix((rest / 128) as nat)) =~= before.push(
                digit,
            ) + length_prefix((rest / 128) as nat));
        }
        rest = rest / 128;
    }
    let ghost before = out@;
    out.push(rest as u8);
    proof {
        assert(before + length_prefix(rest as nat) =~= before.push(rest as u8));
    }
}

/// Appends `part` behind its length to `out`.
fn push_framed(out: &mut Vec<u8>, part: &[u8])
    ensures
        final(out)@ == old(out)@ + framed(part@),
{
    push_length(out, part.len());
    let ghost before = out@;
    out.extend_from_slice(part);
    proof {
        assert(out@ =~= before + part@);
        assert(old(out)@ + length_prefix(part@.len()) + part@ =~= old(out)@ + framed(part@));
    }
}

/// The fingerprint of the request with the given method, path and buffered
/// body: thirty-two lower-case hex digits.
pub fn fingerprint_of(method: &str, path: &str, body: &[u8]) -> (key: String)
    ensures
        key@ == fingerprint(method@, path@, body@),
        key@.len() == 32,
        forall|i: int| 0 <= i < key@.len() ==> is_lower_hex(#[trigger] key@[i]),
{
    let mut all: Vec<u8> = Vec::new();
    push_framed(&mut all, method.as_bytes());
    push_framed(&mut all, path.as_bytes());
    push_framed(&mut all, body);
    proof {
        assert(all@ =~= fingerprint_input(method@, path@, body@));
    }
    let digest = md5_compute(all.as_slice());
    to_hex_lower(&digest)
}

/// Every character of a hex text is a lower-case hex digit.
pub proof fn lemma_hex_lower_digits(bytes: Seq<u8>)
    ensures
        forall|i: int| 0 <= i < hex_lower(bytes).len() ==> is_lower_hex(#[trigger] hex_lower(bytes)[i]),
    decreases bytes.len(),
{
    if bytes.len() > 0 {
        lemma_hex_lower_digits(bytes.drop_last());
        lemma_hex_lower_len(bytes.drop_last());
        let x = bytes.last();
        assert(is_lower_hex(hex_digit(x / 16)));
        assert(is_lower_hex(hex_digit(x % 16)));
    }
}

/// A length shows where it ends: two texts that each begin with a length
/// are equal only where the lengths are, and what follows them.
pub proof fn lemma_length_prefix_unique(a: nat, x: Seq<u8>, b: nat, y: Seq<u8>)
    requires
        length_prefix(a) + x == length_prefix(b) + y,
    ensures
        a == b,
        x == y,
    decreases a,
{
    let left = length_prefix(a) + x;
    let right = length_prefix(b) + y;
    assert(left[0] == length_prefix(a)[0]);
    assert(right[0] == length_prefix(b)[0]);
    if a < 128 {
        assert(length_prefix(a)[0] == a as u8);
        if b >= 128 {
            assert(length_prefix(b)[0] == (128 + b % 128) as u8);
        }
        assert(b < 128);
        assert(x =~= left.skip(1));
        assert(y =~= right.skip(1));
    } else {
        assert(length_prefix(a)[0] == (128 + a % 128) as u8);
        if b < 128 {
            assert(length_prefix(b)[0] == b as u8);
        }
        assert(b >= 128);
        assert(length_prefix(b)[0] == (128 + b % 128) as u8);
        assert(a % 128 == b % 128);
        assert(left.skip(1) =~= length_prefix(a / 128) + x);
        assert(right.skip(1) =~= length_prefix(b / 128) + y);
        lemma_length_prefix_unique(a / 128, x, b / 128, y);
    }
}

/// A framed part shows where it ends: two texts that each begin with a
/// framed part are equal only where the parts are, and what follows them.
pub proof fn lemma_framed_unique(p: Seq<u8>, x: Seq<u8>, q: Seq<u8>, y: Seq<u8>)
    requires
        framed(p) + x == framed(q) + y,
    ensures
        p == q,
        x == y,
{
    assert(framed(p) + x =~= length_prefix(p.len()) + (p + x));
    assert(framed(q) + y =~= length_prefix(q.len()) + (q + y));
    lemma_length_prefix_unique(p.len(), p + x, q.len(), q + y);
    assert(p =~= (p + x).take(p.len() as int));
    assert(q =~= (q + y).take(q.len() as int));
    assert(x =~= (p + x).skip(p.len() as int));
    assert(y =~= (q + y).skip(q.len() as int));
}

/// What is hashed keeps the three parts apart: two requests give the same
/// bytes only where they agree in method, in path and in body.
pub proof fn lemma_fingerprint_input_injective(
    method1: Seq<char>,
    path1: Seq<char>,
    body1: Seq<u8>,
    method2: Seq<char>,
    path2: Seq<char>,
    body2: Seq<u8>,
)
    requires
        fingerprint_input(method1, path1, body1) == fingerprint_input(method2, path2, body2),
    ensures
        method1 == method2,
        path1 == path2,
        body1 == body2,
{
    let left_method = encode_utf8(method1);
    let right_method = encode_utf8(method2);
    let left_path = encode_utf8(path1);
    let right_path = encode_utf8(path2);
    assert(fingerprint_input(method1, path1, body1) =~= framed(left_method) + (framed(left_path) + framed(body1)));
    assert(fingerprint_input(method2, path2, body2) =~= framed(right_method) + (framed(right_path) + framed(body2)));
    lemma_framed_unique(left_method, framed(left_path) + framed(body1), right_method, framed(right_path) + framed(body2));
    lemma_framed_unique(left_path, framed(body1), right_path, framed(body2));
    assert(framed(body1) =~= framed(body1) + Seq::<u8>::empty());
    assert(framed(body2) =~= framed(body2) + Seq::<u8>::empty());
    lemma_framed_unique(body1, Seq::<u8>::empty(), body2, Seq::<u8>::empty());
    encode_utf8_decode_utf8(method1);
    encode_utf8_decode_utf8(method2);
    encode_utf8_decode_utf8(path1);
    encode_utf8_decode_utf8(path2);
}

/// The hex text has two characters for each byte.
pub proof fn lemma_hex_lower_len(bytes: Seq<u8>)
    ensures
        hex_lower(bytes).len() == 2 * bytes.len(),
    decreases bytes.len(),
{
    if bytes.len() > 0 {
        lemma_hex_lower_len(bytes.drop_last());
    }
}

/// Distinct byte strings have distinct hex texts: two requests share a
/// fingerprint only where their digests agree.
pub proof fn lemma_hex_lower_injective(a: Seq<u8>, b: Seq<u8>)
    requires
        hex_lower(a) == hex_lower(b),
    ensures
        a == b,
    decreases a.len(),
{
    lemma_hex_lower_len(a);
    lemma_hex_lower_len(b);
    if a.len() > 0 {
        let ha = hex_lower(a.drop_last());
        let hb = hex_lower(b.drop_last());
        let x = a.last();
        let y = b.last();
        lemma_hex_lower_len(a.drop_last());
        lemma_hex_lower_len(b.drop_last());
        let ta = ha.push(hex_digit(x / 16)).push(hex_digit(x % 16));
        let tb = hb.push(hex_digit(y / 16)).push(hex_digit(y % 16));
        assert(ta == tb);
        assert(ta[ta.len() - 1] == tb[tb.len() - 1]);
        assert(ta[ta.len() - 2] == tb[tb.len() - 2]);
        assert(hex_digit(x % 16) == hex_digit(y % 16));
        assert(hex_digit(x / 16) == hex_digit(y / 16));
        assert(x == y);
        assert(ha =~= ta.take(ta.len() - 2));
        assert(hb =~= tb.take(tb.len() - 2));
        lemma_hex_lower_injective(a.drop_last(), b.drop_last());
        assert(a =~= a.drop_last().push(x));
        assert(b =~= b.drop_last().push(y));
    } else {
        assert(a =~= b);
    }
}

/// Two requests have one fingerprint only where they agree in method, path
/// and body, or MD5 gives one digest for the two different texts that are
/// hashed for them.
pub proof fn lemma_fingerprint_collision(
    method1: Seq<char>,
    path1: Seq<char>,
    body1: Seq<u8>,
    method2: Seq<char>,
    path2: Seq<char>,
    body2: Seq<u8>,
)
    ensures
        fingerprint(method1, path1, body1) == fingerprint(method2, path2, body2) ==> (method1
            == method2 && path1 == path2 && body1 == body2) || (fingerprint_input(
            method1,
            path1,
            body1,
        ) != fingerprint_input(method2, path2, body2) && md5_digest(
            fingerprint_input(method1, path1, body1),
        ) == md5_digest(fingerprint_input(method2, path2, body2))),
{
    if fingerprint(method1, path1, body1) == fingerprint(method2, path2, body2) {
        lemma_hex_lower_injective(
            md5_digest(fingerprint_input(method1, path1, body1)),
            md5_digest(fingerprint_input(method2, path2, body2)),
        );
        if fingerprint_input(method1, path1, body1) == fingerprint_input(method2, path2, body2) {
            lemma_fingerprint_input_injective(method1, path1, body1, method2, path2, body2);
        }
    }
}

} // verus!
