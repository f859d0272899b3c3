//! Protected secrets are stored as base64 text of the DPAPI blob.

use vstd::prelude::*;
use base64::Engine;

verus! {

/// The standard base64 alphabet: `A`-`Z`, `a`-`z`, `0`-`9`, `+`, `/` for
/// the values 0 to 63.
pub open spec fn base64_char(v: int) -> char {
    if v < 26 {
        ('A' as int + v) as char
    } else if v < 52 {
        ('a' as int + (v - 26)) as char
    } else if v < 62 {
        ('0' as int + (v - 52)) as char
    } else if v == 62 {
        '+'
    } else {
        '/'
    }
}

/// Standard (padded) base64 text of some bytes: each group of three bytes
/// becomes four characters of six bits each; a last group of one or two
/// bytes is padded with zero bits and `=` to four characters.
pub open spec fn base64_encoded(b: Seq<u8>) -> Seq<char>
    decreases b.len(),
{
    if b.len() == 0 {
        Seq::empty()
    } else if b.len() == 1 {
        let x = b[0] as int;
        seq![base64_char(x / 4), base64_char((x % 4) * 16), '=', '=']
    } else if b.len() == 2 {
        let x = b[0] as int;
        let y = b[1] as int;
        seq![base64_char(x / 4), base64_char((x % 4) * 16 + y / 16), base64_char((y % 16) * 4), '=']
    } else {
        let x = b[0] as int;
        let y = b[1] as int;
        let z = b[2] as int;
        seq![base64_char(x / 4), base64_char((x % 4) * 16 + y / 16), base64_char((y % 16) * 4 + z / 64), base64_char(z % 64)]
            + base64_encoded(b.subrange(3, b.len() as int))
    }
}

/// The bytes standard base64 text stands for, `None` when it is not valid
/// base64.
pub uninterp spec fn base64_decoded(text: Seq<char>) -> Option<Seq<u8>>;

/// `base64::engine::general_purpose::STANDARD.encode(bytes)`. Claimed: the
/// text is the standard padded base64 of the bytes ([`base64_encoded`], as
/// RFC 4648 defines it and the `STANDARD` engine writes it), and decoding it
/// gives the bytes back (the engine accepts its own canonical output).
#[verifier::external_body]
fn b64_encode(bytes: &[u8]) -> (r: String)
    ensures
        r@ == base64_encoded(bytes@),
        base64_decoded(r@) == Some(bytes@),
{
    base64::engine::general_purpose::STANDARD.encode(bytes)
}

/// `base64::engine::general_purpose::STANDARD.decode(text)`, `None` on a
/// decoding error. Claimed: the answer is a function of the text.
#[verifier::external_body]
fn b64_decode(text: &str) -> (r: Option<Vec<u8>>)
    ensures
        match r {
            Some(v) => base64_decoded(text@) == Some(v@),
            None => base64_decoded(text@) is None,
        },
{
    match base64::engine::general_purpose::STANDARD.decode(text) {
        Ok(v) => Some(v),
        Err(_) => None,
    }
}

/// The stored form of a protected blob: its base64 text, which decodes back
/// to the blob.
pub fn encode_blob(protected: &[u8]) -> (r: String)
    ensures
        r@ == base64_encoded(protected@),
        base64_decoded(r@) == Some(protected@),
{
    b64_encode(protected)
}

/// The protected blob a stored text holds: nothing for an empty text or one
/// that is not base64.
pub fn decode_blob(b64: &str) -> (r: Option<Vec<u8>>)
    ensures
        b64@.len() == 0 ==> r is None,
        b64@.len() > 0 ==> match r {
            Some(v) => base64_decoded(b64@) == Some(v@),
            None => base64_decoded(b64@) is None,
        },
{
    if crate::text::chars_of(b64).len() == 0 {
        return None;
    }
    b64_decode(b64)
}

} // verus!
