//! Base64, as the graphics protocol and the video hosts use it.

use base64::Engine as _;
use vstd::prelude::*;

verus! {

/// The base64 text of some bytes: standard alphabet, padded.
pub uninterp spec fn base64_text(data: Seq<u8>) -> Seq<char>;

/// The bytes that a base64 text stands for, or nothing when it is malformed.
pub uninterp spec fn base64_bytes(s: Seq<u8>) -> Option<Seq<u8>>;

/// How many characters the base64 text of `n` bytes has.
pub open spec fn base64_len(n: nat) -> nat {
    4 * ((n + 2) / 3)
}

/// The base64 text of `n` bytes is short enough to be held in memory.
pub open spec fn encodable(n: nat) -> bool {
    base64_len(n) <= isize::MAX
}

/// The characters of base64 text.
pub open spec fn base64_char(c: char) -> bool {
    ('A' <= c <= 'Z') || ('a' <= c <= 'z') || ('0' <= c <= '9') || c == '+' || c == '/' || c == '='
}

/// Whether the base64 text of `n` bytes is short enough to be held in memory.
pub fn can_encode(n: usize) -> (r: bool)
    ensures
        r == encodable(n as nat),
{
    let groups: usize = n / 3;
    let started: usize = if n % 3 == 0 {
        groups
    } else {
        groups + 1
    };
    started <= (isize::MAX / 4) as usize
}

/// `base64::Engine::encode` with the `STANDARD` engine. Its result depends on the
/// bytes alone, has four characters for every started group of three bytes, is made
/// of the characters of the alphabet, and decodes to the bytes again. It panics on input whose text
/// does not fit in memory, which is left out.
#[verifier::external_body]
pub(crate) fn encode_base64(data: &[u8]) -> (r: String)
    requires
        encodable(data@.len()),
    ensures
        r@ == base64_text(data@),
        r@.len() == base64_len(data@.len()),
        forall|i: int| 0 <= i < r@.len() ==> base64_char(#[trigger] r@[i]),
        base64_bytes(vstd::utf8::encode_utf8(r@)) == Some(data@),
{
    base64::engine::general_purpose::STANDARD.encode(data)
}

/// `base64::Engine::decode` with the `STANDARD` engine. Its result depends on the
/// given bytes alone; which of them are base64 is left unstated.
#[verifier::external_body]
pub(crate) fn decode_base64(s: &[u8]) -> (r: Option<Vec<u8>>)
    ensures
        match r {
            Some(v) => base64_bytes(s@) == Some(v@),
            None => base64_bytes(s@) is None,
        },
{
    base64::engine::general_purpose::STANDARD.decode(s).ok()
}

} // verus!
