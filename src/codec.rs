use vstd::prelude::*;
use vstd::utf8::{decode_utf8, valid_utf8};
use vstd::string::StringSliceAdditionalSpecFns;
use base64::Engine;

verus! {

/// What the standard base64 engine (standard alphabet, with padding) makes of `b`.
pub uninterp spec fn b64_encoded(b: Seq<u8>) -> Seq<u8>;

/// What the standard base64 engine decodes `s` to, or `None` where `s` is malformed.
pub uninterp spec fn b64_decoded(s: Seq<u8>) -> Option<Seq<u8>>;

/// Length of the padded base64 text of `n` bytes.
pub open spec fn b64_len(n: nat) -> nat {
    4 * ((n + 2) / 3)
}

/// Relies on base64's `STANDARD.encode`: four output characters per started group of
/// three input bytes (padding on), and the standard engine decodes the output back to
/// the input. Panics only where that length overflows `usize`.
#[verifier::external_body]
fn b64_encode(b: &[u8]) -> (r: Vec<u8>)
    requires
        b64_len(b@.len()) <= usize::MAX,
    ensures
        r@ == b64_encoded(b@),
        r@.len() == b64_len(b@.len()),
        b64_decoded(r@) == Some(b@),
{
    base64::prelude::BASE64_STANDARD.encode(b).into_bytes()
}

/// Relies on base64's `STANDARD.decode`: the decoded bytes, or an error for malformed input.
#[verifier::external_body]
fn b64_decode(s: &[u8]) -> (r: Option<Vec<u8>>)
    ensures
        match r {
            Some(v) => b64_decoded(s@) == Some(v@),
            None => b64_decoded(s@) is None,
        },
{
    base64::prelude::BASE64_STANDARD.decode(s).ok()
}

/// Relies on `String::from_utf8`: the text of `b` when `b` is valid UTF-8, an error otherwise.
#[verifier::external_body]
fn utf8_text(b: Vec<u8>) -> (r: Option<String>)
    ensures
        r is Some <==> valid_utf8(b@),
        r matches Some(s) ==> s@ == decode_utf8(b@),
{
    String::from_utf8(b).ok()
}

/// Base64 text of `b`, as bytes.
pub fn encode_payload(b: &[u8]) -> (r: Vec<u8>)
    requires
        b64_len(b@.len()) <= usize::MAX,
    ensures
        r@ == b64_encoded(b@),
        r@.len() == b64_len(b@.len()),
        b64_decoded(r@) == Some(b@),
{
    b64_encode(b)
}

/// Decoding is a function of the encoded bytes: encodings that decode to distinct
/// logical payloads are themselves distinct, so two payloads never decode-collide.
pub proof fn lemma_distinct_payloads_decode_apart(e1: Seq<u8>, e2: Seq<u8>, p1: Seq<u8>, p2: Seq<u8>)
    requires
        b64_decoded(e1) == Some(p1),
        b64_decoded(e2) == Some(p2),
        p1 != p2,
    ensures
        e1 != e2,
        b64_decoded(e1) != b64_decoded(e2),
{
}

/// The logical text carried by a base64 payload view.
pub open spec fn decoded_text(view: Seq<u8>) -> Option<Seq<char>> {
    match b64_decoded(view) {
        Some(v) => if valid_utf8(v) {
            Some(decode_utf8(v))
        } else {
            None
        },
        None => None,
    }
}

/// Decodes a payload view: base64 first, then UTF-8. Either step failing is a decode failure.
pub fn decode_payload(view: &[u8]) -> (r: Option<String>)
    ensures
        match r {
            Some(s) => decoded_text(view@) == Some(s@),
            None => decoded_text(view@) is None,
        },
{
    match b64_decode(view) {
        Some(v) => utf8_text(v),
        None => None,
    }
}

/// ASCII decimal digits of `n`, most significant first, without leading zeros.
pub open spec fn decimal(n: nat) -> Seq<u8>
    decreases n,
{
    if n < 10 {
        seq![(48 + n) as u8]
    } else {
        decimal(n / 10).push((48 + n % 10) as u8)
    }
}

spec fn pow10(k: nat) -> nat
    decreases k,
{
    if k == 0 {
        1
    } else {
        10 * pow10((k - 1) as nat)
    }
}

proof fn lemma_decimal_len(n: nat, k: nat)
    requires
        1 <= k,
        n < pow10(k),
    ensures
        decimal(n).len() <= k,
    decreases n,
{
    if n >= 10 {
        reveal_with_fuel(pow10, 2);
        assert(k >= 2);
        lemma_decimal_len(n / 10, (k - 1) as nat);
    }
}

fn push_decimal(out: &mut Vec<u8>, n: u32)
    ensures
        final(out)@ == old(out)@ + decimal(n as nat),
    decreases n,
{
    if n >= 10 {
        push_decimal(out, n / 10);
    }
    out.push((48 + n % 10) as u8);
    assert(final(out)@ =~= old(out)@ + decimal(n as nat));
}

/// Fixed leading text of the payload that `req_data` produces.
pub open spec fn payload_prefix() -> Seq<u8> {
    "some string information 123 with - data {inside} and port: "@.map_values(|c: char| c as u8)
}

/// The logical payload for a capability: the fixed text followed by the capability in decimal.
pub open spec fn req_text(port: u32) -> Seq<u8> {
    payload_prefix() + decimal(port as nat)
}

/// Produces the logical payload bytes for a capability (an ASCII text).
pub fn req_data(port: u32) -> (r: Vec<u8>)
    ensures
        r@ == req_text(port),
        r@.len() <= 70,
{
    let prefix: &str = "some string information 123 with - data {inside} and port: ";
    let bytes = prefix.as_bytes();
    let mut out: Vec<u8> = Vec::new();
    proof {
        reveal_strlit("some string information 123 with - data {inside} and port: ");
        vstd::string::is_ascii_spec_bytes(prefix);
    }
    let mut i: usize = 0;
    while i < bytes.len()
        invariant
            bytes@ == prefix.spec_bytes(),
            i <= bytes@.len(),
            out@ == bytes@.subrange(0, i as int),
        decreases bytes@.len() - i,
    {
        out.push(bytes[i]);
        i = i + 1;
        assert(out@ =~= bytes@.subrange(0, i as int));
    }
    assert(out@ =~= payload_prefix());
    push_decimal(&mut out, port);
    proof {
        reveal_with_fuel(pow10, 11);
        lemma_decimal_len(port as nat, 10);
    }
    out
}

} // verus!
