//! The checksum of a game's data package: the SHA-1 digest of its JSON encoding,
//! written in lower-case hex, compared without regard to ASCII case.

use vstd::prelude::*;

verus! {

/// The SHA-1 digest of `data`.
pub uninterp spec fn sha1_of(data: Seq<u8>) -> Seq<u8>;

/// `sha1::Sha1::digest`: the SHA-1 digest of `data`, twenty bytes; which bytes is left
/// to the name `sha1_of`.
#[verifier::external_body]
fn sha1_digest(data: &[u8]) -> (r: Vec<u8>)
    ensures
        r@ == sha1_of(data@),
        r@.len() == 20,
{
    <sha1::Sha1 as sha1::Digest>::digest(data).to_vec()
}

/// The lower-case hex digit of `n`, which is below 16.
pub open spec fn hex_digit(n: int) -> char {
    if n < 10 {
        (48 + n) as char
    } else {
        (87 + n) as char
    }
}

/// `bytes` in lower-case hex: two digits a byte, the high one first.
pub open spec fn hex_spec(bytes: Seq<u8>) -> Seq<char>
    decreases bytes.len(),
{
    if bytes.len() == 0 {
        Seq::empty()
    } else {
        seq![hex_digit((bytes[0] / 16) as int), hex_digit((bytes[0] % 16) as int)] + hex_spec(bytes.drop_first())
    }
}

/// `hex::encode`: `bytes` in lower-case hex, two digits a byte, the high one first.
#[verifier::external_body]
fn hex_encode(bytes: &[u8]) -> (r: String)
    ensures
        r@ == hex_spec(bytes@),
{
    hex::encode(bytes)
}

/// A byte with ASCII upper-case letters made lower-case.
pub open spec fn ascii_lower(b: u8) -> u8 {
    if 65 <= b <= 90 {
        (b + 32) as u8
    } else {
        b
    }
}

/// Whether two byte strings are equal when ASCII letters are compared without case.
pub open spec fn ascii_case_eq(a: Seq<u8>, b: Seq<u8>) -> bool {
    a.len() == b.len() && forall|i: int| 0 <= i < a.len() ==> ascii_lower(#[trigger] a[i]) == ascii_lower(b[i])
}

fn to_ascii_lower(b: u8) -> (r: u8)
    ensures
        r == ascii_lower(b),
{
    if 65 <= b && b <= 90 {
        b + 32
    } else {
        b
    }
}

/// Whether `a` and `b` are the same text when ASCII letters are compared without
/// case (`str::eq_ignore_ascii_case`).
pub fn eq_ignore_ascii_case(a: &str, b: &str) -> (r: bool)
    ensures
        r == ascii_case_eq(vstd::utf8::encode_utf8(a@), vstd::utf8::encode_utf8(b@)),
{
    let x = a.as_bytes();
    let y = b.as_bytes();
    if x.len() != y.len() {
        return false;
    }
    let mut i: usize = 0;
    while i < x.len()
        invariant
            x@ == vstd::utf8::encode_utf8(a@),
            y@ == vstd::utf8::encode_utf8(b@),
            x@.len() == y@.len(),
            0 <= i <= x@.len(),
            forall|j: int| 0 <= j < i ==> ascii_lower(#[trigger] x@[j]) == ascii_lower(y@[j]),
        decreases x.len() - i,
    {
        if to_ascii_lower(x[i]) != to_ascii_lower(y[i]) {
            return false;
        }
        i += 1;
    }
    true
}

/// The checksum written from a SHA-1 digest: the digest in lower-case hex.
pub fn checksum_from_digest(digest: &[u8]) -> (r: String)
    ensures
        r@ == hex_spec(digest@),
{
    hex_encode(digest)
}

/// The checksum of a game's data package from its JSON encoding: its SHA-1 digest in
/// lower-case hex.
pub fn calculate_checksum(json: &[u8]) -> (r: String)
    ensures
        r@ == hex_spec(sha1_of(json@)),
{
    let digest = sha1_digest(json);
    checksum_from_digest(digest.as_slice())
}

/// Whether `checksum` is the SHA-1 digest `digest` in hex, regardless of the case of
/// its hex digits.
pub fn checksum_matches_digest(checksum: &str, digest: &[u8]) -> (r: bool)
    ensures
        r == ascii_case_eq(
            vstd::utf8::encode_utf8(checksum@),
            vstd::utf8::encode_utf8(hex_spec(digest@)),
        ),
{
    let calculated = checksum_from_digest(digest);
    eq_ignore_ascii_case(checksum, calculated.as_str())
}

/// Whether `checksum` is the checksum of the data package whose JSON encoding is
/// `json`, regardless of the case of its hex digits.
pub fn checksum_is_valid(checksum: &str, json: &[u8]) -> (r: bool)
    ensures
        r == ascii_case_eq(
            vstd::utf8::encode_utf8(checksum@),
            vstd::utf8::encode_utf8(hex_spec(sha1_of(json@))),
        ),
{
    let digest = sha1_digest(json);
    checksum_matches_digest(checksum, digest.as_slice())
}

} // verus!
