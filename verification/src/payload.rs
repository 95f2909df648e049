//! Opaque payloads, which the control protocol carries as base64 text.

use crate::escape::{is_unescaped, needs_no_escape};
use base64::engine::general_purpose::STANDARD;
use base64::Engine;
use vstd::prelude::*;

verus! {

/// The character of the standard base64 alphabet that stands for the six bits `v`.
pub open spec fn base64_char(v: int) -> char {
    if v < 26 {
        ((65 + v) as u32) as char
    } else if v < 52 {
        ((97 + v - 26) as u32) as char
    } else if v < 62 {
        ((48 + v - 52) as u32) as char
    } else if v == 62 {
        '+'
    } else {
        '/'
    }
}

/// The padded standard base64 text of `bytes`: four characters for each three bytes.
pub open spec fn base64_text(bytes: Seq<u8>) -> Seq<char>
    decreases bytes.len(),
{
    let b0 = bytes[0] as int;
    let b1 = bytes[1] as int;
    let b2 = bytes[2] as int;
    if bytes.len() == 0 {
        seq![]
    } else if bytes.len() == 1 {
        seq![base64_char(b0 / 4), base64_char(b0 % 4 * 16), '=', '=']
    } else if bytes.len() == 2 {
        seq![
            base64_char(b0 / 4),
            base64_char(b0 % 4 * 16 + b1 / 16),
            base64_char(b1 % 16 * 4),
            '=',
        ]
    } else {
        seq![
            base64_char(b0 / 4),
            base64_char(b0 % 4 * 16 + b1 / 16),
            base64_char(b1 % 16 * 4 + b2 / 64),
            base64_char(b2 % 64),
        ] + base64_text(bytes.skip(3))
    }
}

/// The bytes whose base64 text is `text`, where there are any.
pub open spec fn base64_bytes(text: Seq<char>) -> Option<Seq<u8>> {
    if exists|bytes: Seq<u8>| base64_text(bytes) == text {
        Some(choose|bytes: Seq<u8>| base64_text(bytes) == text)
    } else {
        None
    }
}

/// Calls `base64`'s `Engine::encode` with the `STANDARD` engine: the standard alphabet, with
/// padding. The text returned is the base64 text of the bytes.
#[verifier::external_body]
pub(crate) fn standard_encode(bytes: &[u8]) -> (text: String)
    ensures
        text@ == base64_text(bytes@),
{
    STANDARD.encode(bytes)
}

/// Calls `base64`'s `Engine::decode` with the `STANDARD` engine, which takes canonical padding
/// and canonical trailing bits only. It succeeds on exactly the texts that encoding can give, and
/// returns the bytes that give the text.
#[verifier::external_body]
fn standard_decode(text: &str) -> (bytes: Option<Vec<u8>>)
    ensures
        match bytes {
            Some(b) => base64_text(b@) == text@,
            None => forall|b: Seq<u8>| #[trigger] base64_text(b) != text@,
        },
{
    STANDARD.decode(text).ok()
}

/// The bytes that a base64 text stands for, or nothing where it is no base64 text.
pub fn decode_payload(text: &str) -> (bytes: Option<Vec<u8>>)
    ensures
        match bytes {
            Some(b) => base64_bytes(text@) == Some(b@),
            None => base64_bytes(text@) is None,
        },
{
    let bytes = standard_decode(text);
    proof {
        if bytes is Some {
            law_payload_reads_back(bytes->0@);
        }
    }
    bytes
}

/// A character of the base64 alphabet, or the padding character.
pub open spec fn is_base64_char(c: char) -> bool {
    ||| 'A' <= c <= 'Z'
    ||| 'a' <= c <= 'z'
    ||| '0' <= c <= '9'
    ||| c == '+'
    ||| c == '/'
    ||| c == '='
}

/// A base64 text holds four characters for each three bytes begun, all of the base64 alphabet.
pub proof fn law_base64_text_is_plain(bytes: Seq<u8>)
    ensures
        base64_text(bytes).len() == (bytes.len() + 2) / 3 * 4,
        forall|i: int|
            0 <= i < base64_text(bytes).len() ==> is_base64_char(#[trigger] base64_text(bytes)[i]),
    decreases bytes.len(),
{
    if bytes.len() >= 3 {
        law_base64_text_is_plain(bytes.skip(3));
    }
}

/// Different payloads have different base64 texts.
pub proof fn law_base64_text_is_injective(a: Seq<u8>, b: Seq<u8>)
    requires
        base64_text(a) == base64_text(b),
    ensures
        a == b,
    decreases a.len(),
{
    law_base64_text_is_plain(a);
    law_base64_text_is_plain(b);
    let s = base64_text(a);
    let t = base64_text(b);
    if a.len() > 0 {
        assert(s[0] == t[0] && s[1] == t[1] && s[2] == t[2] && s[3] == t[3]);
        if a.len() >= 3 && b.len() >= 3 {
            assert(s.skip(4) =~= base64_text(a.skip(3)));
            assert(t.skip(4) =~= base64_text(b.skip(3)));
            law_base64_text_is_injective(a.skip(3), b.skip(3));
            assert(a =~= seq![a[0], a[1], a[2]] + a.skip(3));
            assert(b =~= seq![b[0], b[1], b[2]] + b.skip(3));
        } else {
            assert(a =~= b);
        }
    } else {
        assert(a =~= b);
    }
}

/// Decoding the base64 text of a payload gives the payload back.
pub proof fn law_payload_reads_back(bytes: Seq<u8>)
    ensures
        base64_bytes(base64_text(bytes)) == Some(bytes),
{
    let text = base64_text(bytes);
    assert(exists|b: Seq<u8>| base64_text(b) == text);
    let chosen = choose|b: Seq<u8>| base64_text(b) == text;
    law_base64_text_is_injective(chosen, bytes);
}

/// A base64 text stands between quotation marks as it is, and decodes to what was encoded.
pub proof fn lemma_payload_text(bytes: Seq<u8>)
    ensures
        needs_no_escape(base64_text(bytes)),
        base64_bytes(base64_text(bytes)) == Some(bytes),
{
    law_base64_text_is_plain(bytes);
    law_payload_reads_back(bytes);
    assert forall|i: int| 0 <= i < base64_text(bytes).len() implies is_unescaped(
        #[trigger] base64_text(bytes)[i],
    ) by {
        assert(is_base64_char(base64_text(bytes)[i]));
    }
}

} // verus!
