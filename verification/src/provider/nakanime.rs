//! Nakanime provider (host: nakanime.tv): what is asked of the site and what its
//! replies mean. The requests themselves are made by the caller.
//!
//! ## Encryption
//!
//! API responses (`/api/catalog/search`, `/api/sources/anime`) are XOR-
//! encrypted with a per-session arithmetic key: `key[i] = (start + i*step) % 256`,
//! repeating every 32 bytes. `start` and `step` follow from the first two bytes and
//! the fixed JSON prefix (`{"data":[` for catalog, `[{` for sources).

pub mod endpoints;
pub mod parse;

use crate::app::SortMode;
use crate::errors::{provider_changed, Error, Fault, Result};
use crate::json;
use crate::json::{Json, JsonModel};
use crate::models;
use crate::models::{CatalogPage, PlayableSource};
use crate::number;
use crate::provider::nakanime::endpoints::{
    ANIME_PAGE_PATH, CATALOG_KEYWORD_PARAM, CATALOG_PER_PAGE, CATALOG_SEARCH_PATH, CATALOG_SORT_DEFAULT,
};
use crate::text;
use vstd::prelude::*;
use vstd::slice::{slice_subrange, slice_to_vec};

verus! {

/// The `i`-th byte of the key: it grows by `step` from `start` and starts over every
/// 32 bytes.
pub open spec fn key_byte(start: u8, step: u8, i: int) -> u8 {
    ((start + (i % 32) * step) % 256) as u8
}

/// The bytes combined with the key. Doing it twice gives the bytes again.
pub open spec fn ciphered(bytes: Seq<u8>, start: u8, step: u8) -> Seq<u8> {
    Seq::new(bytes.len(), |i: int| bytes[i] ^ key_byte(start, step, i))
}

/// The first byte of the key under which `body` begins with `prefix`.
pub open spec fn key_start(body: Seq<u8>, prefix: Seq<u8>) -> u8 {
    body[0] ^ prefix[0]
}

/// How much the key grows from byte to byte.
pub open spec fn key_step(body: Seq<u8>, prefix: Seq<u8>) -> u8 {
    (((body[1] ^ prefix[1]) - key_start(body, prefix)) % 256) as u8
}

/// The plain bytes of a response: the body itself when it begins with the prefix.
pub open spec fn deciphered(body: Seq<u8>, prefix: Seq<u8>) -> Seq<u8> {
    if text::starts_with(body, prefix) {
        body
    } else {
        ciphered(body, key_start(body, prefix), key_step(body, prefix))
    }
}

/// Bytes in hexadecimal with spaces between them.
pub open spec fn hex_dump(bytes: Seq<u8>) -> Seq<char> {
    text::join(bytes.map_values(|b: u8| number::hex_byte(b, false)), " "@)
}

/// The first bytes of a body, as many as an error message shows.
pub open spec fn first_bytes(body: Seq<u8>) -> Seq<u8> {
    body.take(
        if body.len() < 32 {
            body.len() as int
        } else {
            32
        },
    )
}

/// What a response says, or why it says nothing.
pub open spec fn decrypted(context: Seq<char>, body: Seq<u8>, prefix: Seq<u8>) -> std::result::Result<
    Seq<char>,
    Fault,
> {
    if body.len() < 2 {
        Err(Fault::ProviderChanged { context, detail: "response body too short"@ })
    } else if vstd::utf8::valid_utf8(deciphered(body, prefix)) {
        Ok(vstd::utf8::decode_utf8(deciphered(body, prefix)))
    } else if text::starts_with(body, prefix) {
        Err(Fault::ProviderChanged { context, detail: "response is not valid UTF-8"@ })
    } else {
        Err(
            Fault::ProviderChanged {
                context,
                detail: "decryption failed — raw: "@ + hex_dump(first_bytes(body)),
            },
        )
    }
}

/// Combining with the same key twice changes nothing.
pub proof fn law_cipher_twice(bytes: Seq<u8>, start: u8, step: u8)
    ensures
        ciphered(ciphered(bytes, start, step), start, step) == bytes,
{
    assert forall|i: int| 0 <= i < bytes.len() implies ciphered(
        ciphered(bytes, start, step),
        start,
        step,
    )[i] == bytes[i] by {
        let b = bytes[i];
        let k = key_byte(start, step, i);
        assert((b ^ k) ^ k == b) by (bit_vector);
    }
    assert(ciphered(ciphered(bytes, start, step), start, step) =~= bytes);
}

/// Whatever the key was, a text that begins with the known prefix is read back from
/// its encryption, and a response that is that encryption says that text.
pub proof fn law_decrypt_recovers(
    context: Seq<char>,
    plain: Seq<u8>,
    prefix: Seq<u8>,
    start: u8,
    step: u8,
)
    requires
        text::starts_with(plain, prefix),
        prefix.len() >= 2,
    ensures
        deciphered(ciphered(plain, start, step), prefix) == plain,
        vstd::utf8::valid_utf8(plain) ==> decrypted(context, ciphered(plain, start, step), prefix)
            == Ok::<Seq<char>, Fault>(vstd::utf8::decode_utf8(plain)),
{
    let body = ciphered(plain, start, step);
    let p0 = plain[0];
    let p1 = plain[1];
    assert(plain.subrange(0, prefix.len() as int)[0] == p0);
    assert(plain.subrange(0, prefix.len() as int)[1] == p1);
    assert((0int % 32) * step == 0) by (nonlinear_arith);
    assert((1int % 32) * step == step) by (nonlinear_arith);
    assert(key_byte(start, step, 0) == start);
    let k1 = key_byte(start, step, 1);
    assert((p0 ^ start) ^ p0 == start) by (bit_vector);
    assert((p1 ^ k1) ^ p1 == k1) by (bit_vector);
    assert(key_start(body, prefix) == start);
    assert(key_step(body, prefix) == step);
    law_cipher_twice(plain, start, step);
    if text::starts_with(body, prefix) {
        assert(body.subrange(0, prefix.len() as int)[0] == body[0]);
        assert(body.subrange(0, prefix.len() as int)[1] == body[1]);
        assert((p0 ^ start) == p0 ==> start == 0) by (bit_vector);
        assert((p1 ^ k1) == p1 ==> k1 == 0) by (bit_vector);
        assert(step == 0);
        assert forall|i: int| 0 <= i < plain.len() implies body[i] == plain[i] by {
            let b = plain[i];
            assert(key_byte(0, 0, i) == 0) by {
                assert((i % 32) * 0 == 0) by (nonlinear_arith);
            }
            assert(b ^ 0 == b) by (bit_vector);
        }
        assert(body =~= plain);
    }
}

/// The plain bytes of a response that is long enough to tell the key.
pub fn decipher(body: &[u8], known_prefix: &[u8]) -> (r: Vec<u8>)
    requires
        body@.len() >= 2,
        known_prefix@.len() >= 2 || text::starts_with(body@, known_prefix@),
    ensures
        r@ == deciphered(body@, known_prefix@),
{
    // Already plain JSON?
    if text::bytes_begin(body, known_prefix) {
        return slice_to_vec(body);
    }
    let start: u8 = body[0] ^ known_prefix[0];
    let second: u8 = body[1] ^ known_prefix[1];
    let step: u8 = second.wrapping_sub(start);
    assert(step == key_step(body@, known_prefix@));
    let mut out: Vec<u8> = Vec::new();
    let mut i: usize = 0;
    while i < body.len()
        invariant
            i <= body@.len(),
            out@ == ciphered(body@.take(i as int), start, step),
        decreases body@.len() - i,
    {
        let at: u32 = (i % 32) as u32;
        assert(at * step <= 31 * 255) by (nonlinear_arith)
            requires
                at <= 31,
                step <= 255,
        ;
        let key: u32 = (start as u32 + at * (step as u32)) % 256;
        assert(key as u8 == key_byte(start, step, i as int));
        out.push(body[i] ^ (key as u8));
        assert(ciphered(body@.take(i + 1), start, step) =~= ciphered(
            body@.take(i as int),
            start,
            step,
        ).push(body@[i as int] ^ (key as u8)));
        i = i + 1;
    }
    assert(body@.take(body@.len() as int) =~= body@);
    out
}

/// Writes bytes in hexadecimal with spaces between them.
fn dump(bytes: &[u8]) -> (r: String)
    ensures
        r@ == hex_dump(bytes@),
{
    let ghost all = bytes@.map_values(|b: u8| number::hex_byte(b, false));
    let mut out = String::new();
    let mut i: usize = 0;
    while i < bytes.len()
        invariant
            i <= bytes@.len(),
            all == bytes@.map_values(|b: u8| number::hex_byte(b, false)),
            out@ == text::join(all.take(i as int), " "@),
        decreases bytes@.len() - i,
    {
        if i > 0 {
            out.append(" ");
        }
        number::put_hex(&mut out, bytes[i], false);
        assert(all.take(i + 1).drop_last() =~= all.take(i as int));
        if i == 0 {
            assert(all.take(0) =~= Seq::<Seq<char>>::empty());
            assert(out@ =~= all[0]);
        }
        i = i + 1;
    }
    assert(all.take(all.len() as int) =~= all);
    out
}

/// Decrypt (or pass through) an XOR-encrypted API response.
///
/// The cipher is `key[i] = (start + (i % 32) * step) % 256`. Both `start` and `step`
/// follow from the first two bytes and `known_prefix` (the fixed JSON prefix the
/// server always emits). If the body already starts with the prefix it is returned
/// as-is (server sent plain JSON).
pub fn dynamic_decrypt(context: &str, body: &[u8], known_prefix: &[u8]) -> (r: Result<String>)
    requires
        body@.len() >= 2 ==> known_prefix@.len() >= 2 || text::starts_with(body@, known_prefix@),
    ensures
        match r {
            Ok(s) => decrypted(context@, body@, known_prefix@) == Ok::<Seq<char>, Fault>(s@),
            Err(e) => decrypted(context@, body@, known_prefix@) == Err::<Seq<char>, Fault>(e@),
        },
{
    if body.len() < 2 {
        return Err(provider_changed(context, "response body too short"));
    }
    let plain = decipher(body, known_prefix);
    match text::utf8_text(plain) {
        Some(s) => Ok(s),
        None => {
            if text::bytes_begin(body, known_prefix) {
                return Err(provider_changed(context, "response is not valid UTF-8"));
            }
            let shown: usize = if body.len() < 32 {
                body.len()
            } else {
                32
            };
            let raw_hex = dump(slice_subrange(body, 0, shown));
            assert(body@.subrange(0, shown as int) =~= first_bytes(body@));
            let detail = text::cat("decryption failed — raw: ", raw_hex.as_str());
            Err(provider_changed(context, detail.as_str()))
        },
    }
}

/// The byte that two hexadecimal digits stand for.
pub open spec fn hex_pair(h: u8, l: u8) -> Option<u8> {
    if h < 128 && l < 128 && number::is_digit(h as char, 16) && number::is_digit(l as char, 16) {
        Some((number::digit_value(h as char)->0 * 16 + number::digit_value(l as char)->0) as u8)
    } else {
        None
    }
}

/// The bytes of a percent-encoded value from position `i` on, read from the left: a percent
/// sign with two hexadecimal digits behind it stands with them for one byte, one with two
/// other bytes behind it is kept with them, and everything else is kept.
pub open spec fn percent_bytes(s: Seq<u8>, i: int) -> Seq<u8>
    decreases s.len() - i,
{
    if i < 0 || i >= s.len() {
        Seq::empty()
    } else if s[i] != 0x25 || i + 2 >= s.len() {
        seq![s[i]] + percent_bytes(s, i + 1)
    } else {
        match hex_pair(s[i + 1], s[i + 2]) {
            Some(b) => seq![b] + percent_bytes(s, i + 3),
            None => seq![0x25u8, s[i + 1], s[i + 2]] + percent_bytes(s, i + 3),
        }
    }
}

/// The text of a percent-encoded value. What stands for bytes that are no UTF-8 is what
/// [`text::lossy`] puts there.
pub open spec fn percent_decoded(s: Seq<char>) -> Seq<char> {
    let bytes = percent_bytes(vstd::utf8::encode_utf8(s), 0);
    if vstd::utf8::valid_utf8(bytes) {
        vstd::utf8::decode_utf8(bytes)
    } else {
        text::lossy(bytes)
    }
}

fn pair_value(h: u8, l: u8) -> (r: Option<u8>)
    ensures
        r == hex_pair(h, l),
{
    if h >= 128 || l >= 128 {
        return None;
    }
    match (number::digit_of(h as char), number::digit_of(l as char)) {
        (Some(a), Some(b)) if a < 16 && b < 16 => Some((a * 16 + b) as u8),
        _ => None,
    }
}

/// Minimal percent-decode for cookie values (handles %XX sequences only).
pub fn percent_decode(s: &str) -> (r: String)
    ensures
        r@ == percent_decoded(s@),
{
    let bytes = s.as_bytes();
    let ghost all = vstd::utf8::encode_utf8(s@);
    let ghost whole = percent_bytes(all, 0);
    let mut result: Vec<u8> = Vec::new();
    let mut i: usize = 0;
    assert(result@ + percent_bytes(all, 0) =~= whole);
    while i < bytes.len()
        invariant
            bytes@ == all,
            i <= bytes.len(),
            whole == percent_bytes(all, 0),
            result@ + percent_bytes(all, i as int) == whole,
        decreases bytes.len() - i,
    {
        let ghost before = result@;
        let b: u8 = bytes[i];
        if b != 0x25 || bytes.len() - i <= 2 {
            result.push(b);
            assert(before.push(b) + percent_bytes(all, i + 1) =~= before + (seq![b]
                + percent_bytes(all, i + 1)));
            i = i + 1;
        } else {
            let h: u8 = bytes[i + 1];
            let l: u8 = bytes[i + 2];
            match pair_value(h, l) {
                Some(byte) => {
                    result.push(byte);
                    assert(before.push(byte) + percent_bytes(all, i + 3) =~= before + (seq![byte]
                        + percent_bytes(all, i + 3)));
                },
                None => {
                    result.push(0x25);
                    result.push(h);
                    result.push(l);
                    assert(before.push(0x25).push(h).push(l) + percent_bytes(all, i + 3)
                        =~= before + (seq![0x25u8, h, l] + percent_bytes(all, i + 3)));
                },
            }
            i = i + 3;
        }
    }
    assert(result@ + percent_bytes(all, i as int) =~= result@);
    text::lossy_text(result.as_slice())
}

/// Bytes without a percent sign are kept.
proof fn lemma_no_percent(s: Seq<u8>, i: int)
    requires
        0 <= i <= s.len(),
        forall|k: int| 0 <= k < s.len() ==> #[trigger] s[k] != 0x25,
    ensures
        percent_bytes(s, i) == s.subrange(i, s.len() as int),
    decreases s.len() - i,
{
    if i < s.len() {
        lemma_no_percent(s, i + 1);
    }
    assert(percent_bytes(s, i) =~= s.subrange(i, s.len() as int));
}

/// The bytes of a character beyond ASCII are beyond ASCII.
proof fn lemma_scalar_bytes(c: u32)
    by (bit_vector)
    ensures
        c <= 0x7f ==> (c & 0x7f) as u8 == c,
        (0xC0 | ((c >> 6) & 0x1F) as u8) >= 0x80,
        (0xE0 | ((c >> 12) & 0x0F) as u8) >= 0x80,
        (0xF0 | ((c >> 18) & 0x7) as u8) >= 0x80,
        (0x80 | (c & 0x3F) as u8) >= 0x80,
        (0x80 | ((c >> 6) & 0x3F) as u8) >= 0x80,
        (0x80 | ((c >> 12) & 0x3F) as u8) >= 0x80,
{
}

/// The byte of a percent sign stands only for a percent sign.
proof fn lemma_percent_byte(s: Seq<char>)
    requires
        forall|k: int| 0 <= k < s.len() ==> #[trigger] s[k] != '%',
    ensures
        forall|k: int|
            0 <= k < vstd::utf8::encode_utf8(s).len() ==> #[trigger] vstd::utf8::encode_utf8(s)[k]
                != 0x25,
    decreases s.len(),
{
    if s.len() > 0 {
        let c = s[0] as u32;
        let rest = s.drop_first();
        assert forall|k: int| 0 <= k < rest.len() implies #[trigger] rest[k] != '%' by {
            assert(rest[k] == s[k + 1]);
        }
        lemma_percent_byte(rest);
        assert(s[0] != '%');
        vstd::utf8::char_u32_cast(s[0], c);
        assert(c != 0x25);
        lemma_scalar_bytes(c);
        let first = vstd::utf8::encode_scalar(c);
        assert forall|k: int| 0 <= k < first.len() implies #[trigger] first[k] != 0x25 by {
        }
        let all = vstd::utf8::encode_utf8(s);
        let others = vstd::utf8::encode_utf8(rest);
        assert(all == first + others);
        assert forall|k: int| 0 <= k < all.len() implies #[trigger] all[k] != 0x25 by {
            if k >= first.len() {
                assert(all[k] == others[k - first.len()]);
            }
        }
    }
}

/// A value without a percent sign decodes to itself.
pub proof fn law_decode_keeps(s: Seq<char>)
    requires
        forall|k: int| 0 <= k < s.len() ==> #[trigger] s[k] != '%',
    ensures
        percent_decoded(s) == s,
{
    let bytes = vstd::utf8::encode_utf8(s);
    lemma_percent_byte(s);
    lemma_no_percent(bytes, 0);
    assert(bytes.subrange(0, bytes.len() as int) =~= bytes);
    vstd::utf8::encode_utf8_valid_utf8(s);
    vstd::utf8::encode_utf8_decode_utf8(s);
}

/// The value of the session token in a list of cookies: that of the first cookie with
/// its name.
pub open spec fn token_value(cookies: Seq<Seq<char>>, i: int) -> Option<Seq<char>>
    decreases cookies.len() - i,
{
    if i < 0 || i >= cookies.len() {
        None
    } else {
        let part = text::trim(cookies[i]);
        if text::starts_with(part, "XSRF-TOKEN="@) {
            Some(part.subrange("XSRF-TOKEN="@.len() as int, part.len() as int))
        } else {
            token_value(cookies, i + 1)
        }
    }
}

/// Read the XSRF-TOKEN cookie from the site's cookies (set on the first GET); empty
/// when there is none.
pub fn xsrf_token(cookies: &str) -> (r: String)
    ensures
        match token_value(text::split(cookies@, |c: char| c == ';'), 0) {
            Some(v) => r@ == percent_decoded(v),
            None => r@.len() == 0,
        },
{
    let all = text::chars_of(cookies);
    let parts = text::split_at_char(all.as_slice(), ';');
    let name = text::chars_of("XSRF-TOKEN=");
    let mut i: usize = 0;
    while i < parts.len()
        invariant
            i <= parts@.len(),
            name@ == "XSRF-TOKEN="@,
            text::pieces(parts@) == text::split(cookies@, |c: char| c == ';'),
            token_value(text::pieces(parts@), i as int) == token_value(text::pieces(parts@), 0),
        decreases parts@.len() - i,
    {
        let part = text::trimmed(parts[i].as_slice());
        assert(text::pieces(parts@)[i as int] == parts@[i as int]@);
        if text::begins(part, name.as_slice()) {
            let val = text::string_of(slice_subrange(part, name.len(), part.len()));
            return percent_decode(val.as_str());
        }
        i = i + 1;
    }
    String::new()
}

/// A base URL without the slashes at its end.
pub open spec fn normalized(base: Seq<char>) -> Seq<char>
    decreases base.len(),
{
    if base.len() > 0 && base.last() == '/' {
        normalized(base.drop_last())
    } else {
        base
    }
}

/// A base URL without the slashes at its end, so that paths can be put behind it.
pub fn normalize_base(base: &str) -> (r: String)
    ensures
        r@ == normalized(base@),
{
    let s = text::chars_of(base);
    let mut n: usize = s.len();
    assert(s@.take(n as int) =~= s@);
    while n > 0 && s[n - 1] == '/'
        invariant
            n <= s@.len(),
            normalized(s@.take(n as int)) == normalized(s@),
        decreases n,
    {
        assert(s@.take(n as int).drop_last() =~= s@.take(n - 1));
        n = n - 1;
    }
    assert(s@.subrange(0, n as int) =~= s@.take(n as int));
    text::string_of(slice_subrange(s.as_slice(), 0, n))
}

/// The URL of a path on the site.
pub fn site_url(base_url: &str, path: &str) -> (r: String)
    ensures
        r@ == normalized(base_url@) + path@,
{
    let base = normalize_base(base_url);
    text::cat(base.as_str(), path)
}

/// The orderings that the site knows.
pub open spec fn known_sort(sort: Seq<char>) -> bool {
    sort == "relevance"@ || sort == "title_asc"@ || sort == "year_desc"@ || sort == "year_asc"@
        || sort == "popularity"@ || sort == "trending"@ || sort == "score"@
}

/// The characters that a query keeps.
pub open spec fn unreserved(b: u8) -> bool {
    (0x41 <= b <= 0x5a) || (0x61 <= b <= 0x7a) || (0x30 <= b <= 0x39) || b == 0x2d || b == 0x5f || b
        == 0x2e || b == 0x7e
}

/// How a byte stands in a query.
pub open spec fn query_byte(b: u8) -> Seq<char> {
    if unreserved(b) {
        seq![b as char]
    } else if b == 0x20 {
        seq!['+']
    } else {
        seq!['%'] + number::hex_byte(b, true)
    }
}

/// How the first `n` bytes stand in a query.
pub open spec fn query_bytes(s: Seq<u8>, n: int) -> Seq<char>
    decreases n,
{
    if n <= 0 {
        Seq::empty()
    } else {
        query_bytes(s, n - 1) + query_byte(s[n - 1])
    }
}

/// How a text stands in a query.
pub open spec fn url_encoded(s: Seq<char>) -> Seq<char> {
    query_bytes(vstd::utf8::encode_utf8(s), vstd::utf8::encode_utf8(s).len() as int)
}

/// The characters that an encoded query is made of.
pub open spec fn query_char(c: char) -> bool {
    ('A' <= c <= 'Z') || ('a' <= c <= 'z') || ('0' <= c <= '9') || c == '-' || c == '_' || c == '.'
        || c == '~' || c == '+' || c == '%'
}

/// An encoded text holds no character that ends or divides a query.
pub proof fn law_url_encoded_is_safe(s: Seq<char>)
    ensures
        forall|i: int| 0 <= i < url_encoded(s).len() ==> query_char(#[trigger] url_encoded(s)[i]),
{
    lemma_query_bytes(vstd::utf8::encode_utf8(s), vstd::utf8::encode_utf8(s).len() as int);
}

/// A text with every plus sign turned into a space.
pub open spec fn plus_as_space(s: Seq<char>) -> Seq<char> {
    s.map_values(
        |c: char|
            if c == '+' {
                ' '
            } else {
                c
            },
    )
}

/// Encoding loses nothing: when every plus sign of an encoded text is turned into a
/// space, the value decodes to the text again.
pub proof fn law_url_round_trip(s: Seq<char>)
    ensures
        percent_decoded(plus_as_space(url_encoded(s))) == s,
{
    let bytes = vstd::utf8::encode_utf8(s);
    let n = bytes.len() as int;
    let q = plus_as_space(url_encoded(s));
    law_url_encoded_is_safe(s);
    assert forall|i| 0 <= i < q.len() implies '\0' <= #[trigger] q[i] <= '\u{7f}' by {
        assert(query_char(url_encoded(s)[i]));
    }
    assert(vstd::utf8::is_ascii_chars(q));
    vstd::utf8::is_ascii_chars_encode_utf8(q);
    lemma_decode_from(bytes, 0);
    assert(bytes.subrange(0, n) =~= bytes);
    assert(query_bytes(bytes, 0).len() == 0);
    vstd::utf8::encode_utf8_valid_utf8(s);
    vstd::utf8::encode_utf8_decode_utf8(s);
}

/// The first bytes stand in a query before the others.
proof fn lemma_query_prefix(s: Seq<u8>, k: int, n: int)
    requires
        0 <= k <= n <= s.len(),
    ensures
        query_bytes(s, k).len() <= query_bytes(s, n).len(),
        query_bytes(s, n).take(query_bytes(s, k).len() as int) == query_bytes(s, k),
    decreases n,
{
    if k < n {
        lemma_query_prefix(s, k, n - 1);
        assert(query_bytes(s, n).take(query_bytes(s, k).len() as int) =~= query_bytes(
            s,
            n - 1,
        ).take(query_bytes(s, k).len() as int));
    } else {
        assert(query_bytes(s, n).take(query_bytes(s, k).len() as int) =~= query_bytes(s, k));
    }
}

/// The two digits that a byte is written in stand for it.
proof fn lemma_hex_pair(b: u8)
    ensures
        hex_pair(number::hex_byte(b, true)[0] as u8, number::hex_byte(b, true)[1] as u8) == Some(b),
{
    let h = b / 16;
    let l = b % 16;
    assert(h < 16 && l < 16 && h * 16 + l == b);
    lemma_hex_digit(h as nat);
    lemma_hex_digit(l as nat);
}

proof fn lemma_hex_digit(d: nat)
    requires
        d < 16,
    ensures
        (number::hex_digit(d, true) as u8) < 128,
        (number::hex_digit(d, true) as u8) as char == number::hex_digit(d, true),
        number::digit_value(number::hex_digit(d, true)) == Some(d),
{
}

/// Decoding from where the `k`-th byte stands gives the bytes from there on.
#[verifier::spinoff_prover]
#[verifier::rlimit(40)]
proof fn lemma_decode_from(s: Seq<u8>, k: int)
    requires
        0 <= k <= s.len(),
        vstd::utf8::is_ascii_chars(plus_as_space(query_bytes(s, s.len() as int))),
    ensures
        percent_bytes(
            vstd::utf8::encode_utf8(plus_as_space(query_bytes(s, s.len() as int))),
            query_bytes(s, k).len() as int,
        ) == s.subrange(k, s.len() as int),
    decreases s.len() - k,
{
    let n = s.len() as int;
    let whole = query_bytes(s, n);
    let q = plus_as_space(whole);
    let e = vstd::utf8::encode_utf8(q);
    let at = query_bytes(s, k).len() as int;
    vstd::utf8::is_ascii_chars_encode_utf8(q);
    if k < n {
        lemma_decode_from(s, k + 1);
        lemma_query_prefix(s, k + 1, n);
        let b = s[k];
        let written = query_byte(b);
        assert(query_bytes(s, k + 1) == query_bytes(s, k) + written);
        assert forall|j: int| 0 <= j < written.len() implies whole[at + j] == #[trigger] written[j] by {
            assert(whole.take(query_bytes(s, k + 1).len() as int)[at + j] == query_bytes(s, k + 1)[at
                + j]);
        }
        assert(whole[at] == written[0]);
        assert(e[at] == q[at] as u8);
        if !unreserved(b) && b != 0x20 {
            assert(whole[at + 1] == written[1]);
            assert(whole[at + 2] == written[2]);
            assert(e[at + 1] == q[at + 1] as u8);
            assert(e[at + 2] == q[at + 2] as u8);
            lemma_hex_pair(b);
            lemma_hex_digit((b / 16) as nat);
            lemma_hex_digit((b % 16) as nat);
            assert(q[at] == '%');
        }
        assert(percent_bytes(e, at) =~= seq![b] + s.subrange(k + 1, n));
    }
    assert(percent_bytes(e, at) =~= s.subrange(k, n));
}

proof fn lemma_query_bytes(s: Seq<u8>, n: int)
    requires
        n <= s.len(),
    ensures
        forall|i: int|
            0 <= i < query_bytes(s, n).len() ==> query_char(#[trigger] query_bytes(s, n)[i]),
    decreases n,
{
    if n > 0 {
        lemma_query_bytes(s, n - 1);
        let b = s[n - 1];
        let tail = query_byte(b);
        assert forall|i: int| 0 <= i < tail.len() implies query_char(#[trigger] tail[i]) by {
            if !unreserved(b) && b != 0x20 {
                assert(tail =~= seq![
                    '%',
                    number::hex_digit((b / 16) as nat, true),
                    number::hex_digit((b % 16) as nat, true),
                ]);
            }
        }
        let head = query_bytes(s, n - 1);
        assert forall|i: int| 0 <= i < query_bytes(s, n).len() implies query_char(
            #[trigger] query_bytes(s, n)[i],
        ) by {
            if i < head.len() {
                assert(query_bytes(s, n)[i] == head[i]);
            } else {
                assert(query_bytes(s, n)[i] == tail[i - head.len()]);
            }
        }
    }
}

/// A text as it stands in a query.
pub fn urlencode(s: &str) -> (r: String)
    ensures
        r@ == url_encoded(s@),
{
    let bytes = s.as_bytes();
    let ghost all = vstd::utf8::encode_utf8(s@);
    let mut out = String::new();
    let mut i: usize = 0;
    while i < bytes.len()
        invariant
            bytes@ == all,
            i <= bytes.len(),
            out@ == query_bytes(all, i as int),
        decreases bytes.len() - i,
    {
        let b: u8 = bytes[i];
        let ghost before = out@;
        let kept = (0x41 <= b && b <= 0x5a) || (0x61 <= b && b <= 0x7a) || (0x30 <= b && b <= 0x39)
            || b == 0x2d || b == 0x5f || b == 0x2e || b == 0x7e;
        if kept {
            out.push(b as char);
        } else if b == 0x20 {
            out.push('+');
        } else {
            out.push('%');
            number::put_hex(&mut out, b, true);
        }
        assert(out@ =~= before + query_byte(b));
        i = i + 1;
    }
    out
}

/// The path and query of a catalogue request. An ordering that the site does not know
/// is replaced by the default one.
pub open spec fn catalog_request(query: Seq<char>, page: u32, sort: Seq<char>) -> Seq<char> {
    let known = if known_sort(sort) {
        sort
    } else {
        CATALOG_SORT_DEFAULT@
    };
    let first = CATALOG_SEARCH_PATH@ + "?sort="@ + known + "&per_page="@ + number::digits(
        CATALOG_PER_PAGE as nat,
    ) + "&page="@ + number::digits(page as nat);
    if query.len() == 0 {
        first
    } else {
        first + "&"@ + CATALOG_KEYWORD_PARAM@ + "="@ + url_encoded(query)
    }
}

/// The path and query that fetch one page of the catalogue.
pub fn catalog_path(query: &str, page: u32, sort: &str) -> (r: String)
    ensures
        r@ == catalog_request(query@, page, sort@),
{
    let known = text::str_same(sort, "relevance") || text::str_same(sort, "title_asc")
        || text::str_same(sort, "year_desc") || text::str_same(sort, "year_asc")
        || text::str_same(sort, "popularity") || text::str_same(sort, "trending")
        || text::str_same(sort, "score");
    let mut out = CATALOG_SEARCH_PATH.to_string();
    out.append("?sort=");
    if known {
        out.append(sort);
    } else {
        out.append(CATALOG_SORT_DEFAULT);
    }
    out.append("&per_page=");
    out.append(number::decimal(CATALOG_PER_PAGE as u64).as_str());
    out.append("&page=");
    out.append(number::decimal(page as u64).as_str());
    let q = text::chars_of(query);
    if q.len() > 0 {
        out.append("&");
        out.append(CATALOG_KEYWORD_PARAM);
        out.append("=");
        out.append(urlencode(query).as_str());
    }
    out
}

/// The id is a number.
pub open spec fn numeric(id: Seq<char>) -> bool {
    id.len() > 0 && forall|i: int| 0 <= i < id.len() ==> '0' <= #[trigger] id[i] <= '9'
}

/// Refuses an id that is no number, before it becomes part of a URL.
pub fn validate_numeric_id(id: &str) -> (r: Result<()>)
    ensures
        r is Ok <==> numeric(id@),
        r matches Err(e) ==> e@ == Fault::InvalidUrl(
            "non-numeric nakanime id: "@ + text::quoted(id@),
        ),
{
    let s = text::chars_of(id);
    let mut ok = s.len() > 0;
    let mut i: usize = 0;
    while i < s.len() && ok
        invariant
            i <= s@.len(),
            s@ == id@,
            ok ==> s@.len() > 0 && forall|j: int| 0 <= j < i ==> '0' <= #[trigger] s@[j] <= '9',
            !ok ==> !numeric(s@),
        decreases s@.len() - i,
    {
        if s[i] < '0' || s[i] > '9' {
            ok = false;
        }
        i = i + 1;
    }
    if ok {
        Ok(())
    } else {
        let id = text::quoted_text(id);
        Err(Error::InvalidUrl(text::cat("non-numeric nakanime id: ", id.as_str())))
    }
}

/// The number that an id writes; 0 when it is too large.
pub open spec fn id_number(id: Seq<char>) -> u64 {
    match number::parsed(id, 10, u64::MAX as nat) {
        Some(n) => n as u64,
        None => 0,
    }
}

/// What is asked of the sources endpoint.
pub open spec fn sources_request(anime: Seq<char>, episode: Seq<char>) -> JsonModel {
    JsonModel::Object(
        seq![
            ("anime_id"@, JsonModel::Number(json::unsigned_parts(id_number(anime)))),
            ("episode_id"@, JsonModel::Number(json::unsigned_parts(id_number(episode)))),
            ("title"@, JsonModel::Text(""@)),
            ("turnstile_token"@, JsonModel::Text(""@)),
        ],
    )
}

fn id_value(id: &str) -> (r: u64)
    ensures
        r == id_number(id@),
{
    let s = text::chars_of(id);
    match number::parse(s.as_slice(), 10, u64::MAX) {
        Some(n) => n,
        None => 0,
    }
}

/// The keys of the sources request come in order.
proof fn lemma_sources_keys(anime: Seq<char>, episode: Seq<char>)
    ensures
        json::ordered(sources_request(anime, episode)),
{
    reveal_strlit("anime_id");
    reveal_strlit("episode_id");
    reveal_strlit("title");
    reveal_strlit("turnstile_token");
    reveal_with_fuel(json::key_before, 3);
    reveal_with_fuel(json::ordered, 2);
    assert("title"@.subrange(1, 5)[0] == 'i');
    assert("turnstile_token"@.subrange(1, 15)[0] == 'u');
    assert(json::key_before("title"@, "turnstile_token"@));
    assert(json::key_before("anime_id"@, "episode_id"@));
    assert(json::key_before("anime_id"@, "title"@));
    assert(json::key_before("anime_id"@, "turnstile_token"@));
    assert(json::key_before("episode_id"@, "title"@));
    assert(json::key_before("episode_id"@, "turnstile_token"@));
}

/// The JSON body that asks for the sources of an episode.
pub fn sources_body(anime: &str, episode: &str) -> (r: String)
    ensures
        r@ == json::json_text(sources_request(anime@, episode@)),
{
    let mut members: Vec<(String, Json)> = Vec::new();
    members.push(("anime_id".to_string(), Json::unsigned(id_value(anime))));
    members.push(("episode_id".to_string(), Json::unsigned(id_value(episode))));
    members.push(("title".to_string(), Json::Text("".to_string())));
    members.push(("turnstile_token".to_string(), Json::Text("".to_string())));
    let body = Json::Object(members);
    proof {
        lemma_sources_keys(anime@, episode@);
        reveal_with_fuel(json::model, 2);
        assert(body@->Object_0 =~= sources_request(anime@, episode@)->Object_0);
    }
    body.text()
}

/// What came of one attempt at a GET request.
#[derive(Debug)]
pub enum Reply {
    /// A success status, with the body or the reason why it could not be read.
    Body(std::result::Result<Vec<u8>, String>),
    /// Another status, as text.
    Status(String),
    /// The request took too long.
    TimedOut,
    /// The request failed.
    Failed(String),
}

/// What follows an attempt.
#[derive(Debug)]
pub enum Attempt {
    /// The request is over.
    Done(Result<Vec<u8>>),
    /// The request is made again after a pause.
    Again { wait_ms: u64 },
}

/// How many attempts are made at most.
pub const ATTEMPTS: u32 = 3;

/// What follows the `attempt`-th attempt, counted from 0: only a timeout or a failed
/// request is worth another one, and the pause grows with each.
pub open spec fn followed_by(attempt: u32, reply: Reply, next: Attempt) -> bool {
    match (reply, next) {
        (Reply::Body(Ok(b)), Attempt::Done(Ok(got))) => got@ == b@,
        (Reply::Body(Err(m)), Attempt::Done(Err(e))) => e@ == Fault::Network(m@),
        (Reply::Status(s), Attempt::Done(Err(e))) => e@ == Fault::Provider(
            "unexpected status "@ + s@,
        ),
        (Reply::TimedOut, Attempt::Done(Err(e))) => attempt + 1 >= ATTEMPTS && e@ == Fault::Timeout,
        (Reply::Failed(m), Attempt::Done(Err(e))) => attempt + 1 >= ATTEMPTS && e@
            == Fault::Network(m@),
        (Reply::TimedOut, Attempt::Again { wait_ms }) => attempt + 1 < ATTEMPTS && wait_ms == 200
            * (attempt + 1),
        (Reply::Failed(_), Attempt::Again { wait_ms }) => attempt + 1 < ATTEMPTS && wait_ms == 200
            * (attempt + 1),
        _ => false,
    }
}

/// Decides what follows an attempt at a GET request: retries up to 3 times on
/// transient network failures.
pub fn get_step(attempt: u32, reply: Reply) -> (r: Attempt)
    ensures
        followed_by(attempt, reply, r),
{
    let again = attempt < ATTEMPTS - 1;
    match reply {
        Reply::Body(Ok(bytes)) => Attempt::Done(Ok(bytes)),
        Reply::Body(Err(m)) => Attempt::Done(Err(Error::Network(m))),
        Reply::Status(s) => Attempt::Done(
            Err(Error::Provider(text::cat("unexpected status ", s.as_str()))),
        ),
        Reply::TimedOut => if again {
            Attempt::Again { wait_ms: 200 * (attempt as u64 + 1) }
        } else {
            Attempt::Done(Err(Error::Timeout))
        },
        Reply::Failed(m) => if again {
            Attempt::Again { wait_ms: 200 * (attempt as u64 + 1) }
        } else {
            Attempt::Done(Err(Error::Network(m)))
        },
    }
}

/// What a page request gave: the page, or an error for a status that is no success.
pub fn page_body(success: bool, status: &str, body: std::result::Result<String, String>) -> (r:
    Result<String>)
    ensures
        match (r, success, body) {
            (Err(e), false, _) => e@ == Fault::Provider("page returned status "@ + status@),
            (Ok(s), true, Ok(b)) => s == b,
            (Err(e), true, Err(m)) => e@ == Fault::Network(m@),
            _ => false,
        },
{
    if !success {
        return Err(Error::Provider(text::cat("page returned status ", status)));
    }
    match body {
        Ok(s) => Ok(s),
        Err(m) => Err(Error::Network(m)),
    }
}

/// The error that refuses an id.
pub open spec fn refused(id: Seq<char>) -> Fault {
    Fault::InvalidUrl("non-numeric nakanime id: "@ + text::quoted(id))
}

/// The path of a title's page. A hostile id is refused before any request.
pub fn details_path(id: &str) -> (r: Result<String>)
    ensures
        match r {
            Ok(path) => numeric(id@) && path@ == text::replace(ANIME_PAGE_PATH@, "{id}"@, id@),
            Err(e) => !numeric(id@) && e@ == refused(id@),
        },
{
    match validate_numeric_id(id) {
        Ok(_) => Ok(endpoints::with_id(ANIME_PAGE_PATH, id)),
        Err(e) => Err(e),
    }
}

/// The body of the request for an episode's sources. Hostile ids are refused before any
/// request, the anime's first.
pub fn resolve_request(anime: &str, episode: &str) -> (r: Result<String>)
    ensures
        match r {
            Ok(body) => numeric(anime@) && numeric(episode@) && body@ == json::json_text(
                sources_request(anime@, episode@),
            ),
            Err(e) => if numeric(anime@) {
                !numeric(episode@) && e@ == refused(episode@)
            } else {
                e@ == refused(anime@)
            },
        },
{
    if let Err(e) = validate_numeric_id(anime) {
        return Err(e);
    }
    if let Err(e) = validate_numeric_id(episode) {
        return Err(e);
    }
    Ok(sources_body(anime, episode))
}

/// The key starts with its first byte, grows by its step from byte to byte, and starts
/// over every 32 bytes.
pub proof fn law_key(start: u8, step: u8, i: int)
    requires
        0 <= i,
    ensures
        key_byte(start, step, 0) == start,
        key_byte(start, step, i + 32) == key_byte(start, step, i),
        i % 32 != 31 ==> key_byte(start, step, i + 1) == (key_byte(start, step, i) + step) % 256,
{
    assert((i + 32) % 32 == i % 32);
    assert((0int % 32) * step == 0) by (nonlinear_arith);
    if i % 32 != 31 {
        assert((i + 1) % 32 == i % 32 + 1);
        let k = i % 32;
        assert((k + 1) * step == k * step + step) by (nonlinear_arith);
        let a = start + k * step;
        assert((a % 256 + step) % 256 == (a + step) % 256);
    }
}

/// The prefixes are those of the JSON that the responses are.
pub proof fn law_prefixes()
    ensures
        catalog_prefix() == vstd::utf8::encode_utf8("{\"data\":["@),
        sources_prefix() == vstd::utf8::encode_utf8("[{"@),
{
    reveal_strlit("{\"data\":[");
    reveal_strlit("[{");
    assert(vstd::utf8::is_ascii_chars("{\"data\":["@));
    assert(vstd::utf8::is_ascii_chars("[{"@));
    vstd::utf8::is_ascii_chars_encode_utf8("{\"data\":["@);
    vstd::utf8::is_ascii_chars_encode_utf8("[{"@);
    assert(catalog_prefix() =~= vstd::utf8::encode_utf8("{\"data\":["@));
    assert(sources_prefix() =~= vstd::utf8::encode_utf8("[{"@));
}

/// A response is dumped byte by byte, two digits each, with spaces between.
pub proof fn law_hex_dump(bytes: Seq<u8>, b: u8)
    ensures
        hex_dump(seq![b]) == number::hex_byte(b, false),
        bytes.len() > 0 ==> hex_dump(bytes.push(b)) == hex_dump(bytes) + " "@ + number::hex_byte(
            b,
            false,
        ),
        first_bytes(bytes).len() <= 32,
        bytes.len() <= 32 ==> first_bytes(bytes) == bytes,
        bytes.len() > 32 ==> first_bytes(bytes) == bytes.take(32),
{
    let f = |b: u8| number::hex_byte(b, false);
    assert(seq![b].map_values(f) =~= seq![f(b)]);
    assert(bytes.push(b).map_values(f).drop_last() =~= bytes.map_values(f));
    assert(bytes.push(b).map_values(f).last() == f(b));
    assert(bytes.len() <= 32 ==> first_bytes(bytes) =~= bytes);
}

/// A byte that is written in two hexadecimal digits of either case behind a percent sign
/// is read back, and so is what follows.
pub proof fn law_percent_pair(b: u8, upper: bool, rest: Seq<u8>)
    ensures
        percent_bytes(
            seq![
                0x25u8,
                number::hex_byte(b, upper)[0] as u8,
                number::hex_byte(b, upper)[1] as u8,
            ] + rest,
            0,
        ) == seq![b] + percent_bytes(rest, 0),
{
    let pair = seq![
        0x25u8,
        number::hex_byte(b, upper)[0] as u8,
        number::hex_byte(b, upper)[1] as u8,
    ];
    let s = pair + rest;
    let h = b / 16;
    let l = b % 16;
    assert(h < 16 && l < 16 && h * 16 + l == b);
    lemma_hex_digit_of(h as nat, upper);
    lemma_hex_digit_of(l as nat, upper);
    assert(s[0] == 0x25 && s[1] == pair[1] && s[2] == pair[2]);
    assert(hex_pair(pair[1], pair[2]) == Some(b));
    lemma_percent_behind(pair, rest, 0);
}

proof fn lemma_hex_digit_of(d: nat, upper: bool)
    requires
        d < 16,
    ensures
        (number::hex_digit(d, upper) as u8) < 128,
        (number::hex_digit(d, upper) as u8) as char == number::hex_digit(d, upper),
        number::digit_value(number::hex_digit(d, upper)) == Some(d),
{
}

proof fn lemma_percent_behind(a: Seq<u8>, b: Seq<u8>, i: int)
    requires
        0 <= i <= b.len(),
    ensures
        percent_bytes(a + b, a.len() + i) == percent_bytes(b, i),
    decreases b.len() - i,
{
    if i < b.len() {
        assert((a + b)[a.len() + i] == b[i]);
        if i + 2 < b.len() {
            assert((a + b)[a.len() + i + 1] == b[i + 1]);
            assert((a + b)[a.len() + i + 2] == b[i + 2]);
            lemma_percent_behind(a, b, i + 3);
        }
        lemma_percent_behind(a, b, i + 1);
    }
}

/// The session token is the value of the first cookie of its name, wherever it stands
/// among the cookies and whatever white space stands around it.
pub proof fn law_token(before: Seq<Seq<char>>, cookie: Seq<char>, value: Seq<char>, behind: Seq<Seq<char>>)
    requires
        text::trim(cookie) == "XSRF-TOKEN="@ + value,
        forall|i: int|
            0 <= i < before.len() ==> !text::starts_with(
                text::trim(#[trigger] before[i]),
                "XSRF-TOKEN="@,
            ),
    ensures
        token_value(before.push(cookie) + behind, 0) == Some(value),
        token_value(before, 0) is None,
{
    let all = before.push(cookie) + behind;
    let part = text::trim(cookie);
    let name = "XSRF-TOKEN="@;
    assert(part.subrange(0, name.len() as int) =~= name);
    assert(part.subrange(name.len() as int, part.len() as int) =~= value);
    lemma_token(all, 0, before.len() as int);
    lemma_no_token(before, 0);
}

proof fn lemma_token(cookies: Seq<Seq<char>>, i: int, k: int)
    requires
        0 <= i <= k < cookies.len(),
        text::starts_with(text::trim(cookies[k]), "XSRF-TOKEN="@),
        forall|j: int|
            i <= j < k ==> !text::starts_with(text::trim(#[trigger] cookies[j]), "XSRF-TOKEN="@),
    ensures
        token_value(cookies, i) == Some(
            text::trim(cookies[k]).subrange(
                "XSRF-TOKEN="@.len() as int,
                text::trim(cookies[k]).len() as int,
            ),
        ),
    decreases k - i,
{
    if i < k {
        lemma_token(cookies, i + 1, k);
    }
}

proof fn lemma_no_token(cookies: Seq<Seq<char>>, i: int)
    requires
        0 <= i <= cookies.len(),
        forall|j: int|
            i <= j < cookies.len() ==> !text::starts_with(
                text::trim(#[trigger] cookies[j]),
                "XSRF-TOKEN="@,
            ),
    ensures
        token_value(cookies, i) is None,
    decreases cookies.len() - i,
{
    if i < cookies.len() {
        lemma_no_token(cookies, i + 1);
    }
}

/// Slashes at the end of a base URL do not matter, and nothing else of it is lost.
pub proof fn law_base_url(base: Seq<char>)
    ensures
        normalized(base.push('/')) == normalized(base),
        base.len() > 0 && base.last() != '/' ==> normalized(base) == base,
        normalized(base).len() > 0 ==> normalized(base).last() != '/',
    decreases base.len(),
{
    assert(base.push('/').drop_last() =~= base);
    if base.len() > 0 && base.last() == '/' {
        law_base_url(base.drop_last());
    }
}

/// Every sort mode of the app is one that the site knows, so what is asked for is the
/// page of that number in that very order, of so many titles, for the keyword if there is
/// one; an order that the site does not know is asked for as the default one.
pub proof fn law_catalog_request(query: Seq<char>, page: u32, mode: SortMode, other: Seq<char>)
    ensures
        ({
            let first = |sort: Seq<char>|
                "/api/catalog/search"@ + "?sort="@ + sort + "&per_page="@ + "32"@ + "&page="@
                    + number::digits(page as nat);
            &&& catalog_request(Seq::empty(), page, mode.query()) == first(mode.query())
            &&& query.len() > 0 ==> catalog_request(query, page, mode.query()) == first(
                mode.query(),
            ) + "&"@ + "keyword"@ + "="@ + url_encoded(query)
            &&& (forall|m: SortMode| #[trigger] m.query() != other) ==> catalog_request(
                query,
                page,
                other,
            ) == catalog_request(query, page, SortMode::Relevance.query())
        }),
{
    reveal_strlit("32");
    reveal_with_fuel(number::digits, 3);
    assert(number::digits(32) =~= "32"@);
    if forall|m: SortMode| #[trigger] m.query() != other {
        assert(SortMode::Relevance.query() != other);
        assert(SortMode::TitleAsc.query() != other);
        assert(SortMode::YearDesc.query() != other);
        assert(SortMode::YearAsc.query() != other);
        assert(SortMode::Popularity.query() != other);
        assert(SortMode::Trending.query() != other);
        assert(SortMode::Score.query() != other);
    }
}

/// An id is a number exactly when it has a character and all of them are digits; every
/// number written in decimal is one, and reads back.
pub proof fn law_numeric_ids(n: u64)
    ensures
        numeric(number::digits(n as nat)),
        id_number(number::digits(n as nat)) == n,
        !numeric(Seq::empty()),
{
    number::lemma_digits(n as nat);
    number::law_decimal_round_trip(n as nat, u64::MAX as nat);
}

/// The sources of an episode are asked for by the numbers of the anime and the episode,
/// each under its name.
pub proof fn law_sources_request(anime: u64, episode: u64)
    ensures
        ({
            let r = sources_request(number::digits(anime as nat), number::digits(episode as nat));
            &&& json::at(r, "anime_id"@) == JsonModel::Number(json::unsigned_parts(anime))
            &&& json::at(r, "episode_id"@) == JsonModel::Number(json::unsigned_parts(episode))
            &&& json::at(r, "title"@) == JsonModel::Text(""@)
            &&& json::at(r, "turnstile_token"@) == JsonModel::Text(""@)
        }),
{
    let a = number::digits(anime as nat);
    let e = number::digits(episode as nat);
    let r = sources_request(a, e);
    law_numeric_ids(anime);
    law_numeric_ids(episode);
    lemma_sources_keys(a, e);
    let m = r->Object_0;
    assert(m[0] == ("anime_id"@, m[0].1) && m[1] == ("episode_id"@, m[1].1) && m[2] == (
        "title"@,
        m[2].1,
    ) && m[3] == ("turnstile_token"@, m[3].1));
    json::law_members_are_found(r, "anime_id"@, m[0].1);
    json::law_members_are_found(r, "episode_id"@, m[1].1);
    json::law_members_are_found(r, "title"@, m[2].1);
    json::law_members_are_found(r, "turnstile_token"@, m[3].1);
}

/// A request that timed out or failed is made three times in all, with a pause of a fifth
/// of a second that grows by as much each time; a reply is never asked for again.
pub proof fn law_retries(attempt: u32, reply: Reply, next: Attempt)
    requires
        followed_by(attempt, reply, next),
    ensures
        next is Again <==> attempt < 2 && (reply is TimedOut || reply is Failed),
        next matches Attempt::Again { wait_ms } ==> wait_ms == 200 * (attempt + 1),
        reply matches Reply::Body(Ok(b)) ==> (next matches Attempt::Done(Ok(got)) && got@ == b@),
        reply is TimedOut && attempt >= 2 ==> (next matches Attempt::Done(Err(e)) && e@
            == Fault::Timeout),
        reply matches Reply::Failed(m) ==> attempt >= 2 ==> (next matches Attempt::Done(Err(e)) && e@
            == Fault::Network(m@)),
        reply is Status ==> (next matches Attempt::Done(Err(e)) && e@ is Provider),
{
}

/// The page of a title is at its id.
pub proof fn law_details_path(id: Seq<char>)
    ensures
        text::replace(ANIME_PAGE_PATH@, "{id}"@, id) == "/anime/"@ + id,
{
    reveal_strlit("/anime/{id}");
    reveal_strlit("{id}");
    reveal_strlit("/anime/");
    let t = ANIME_PAGE_PATH@;
    let p = "{id}"@;
    assert forall|i: int| 0 <= i < 7 implies !text::occurs_at(t, p, i) by {
        assert(t.subrange(i, i + 4)[0] == t[i]);
        assert(t[i] != '{');
    }
    assert(t.subrange(7, 11) =~= p);
    assert(text::occurs_at(t, p, 7));
    reveal_with_fuel(text::replace_from, 10);
    assert(text::replace_from(t, p, id, 11) =~= Seq::<char>::empty());
    assert(text::replace_from(t, p, id, 7) =~= id);
    assert(text::replace(t, p, id) =~= "/anime/"@ + id);
}

/// How a catalogue response begins.
pub open spec fn catalog_prefix() -> Seq<u8> {
    seq![0x7b, 0x22, 0x64, 0x61, 0x74, 0x61, 0x22, 0x3a, 0x5b]
}

/// How a sources response begins.
pub open spec fn sources_prefix() -> Seq<u8> {
    seq![0x5b, 0x7b]
}

/// What a catalogue text says of a page.
pub open spec fn page_parsed(json: Seq<char>, r: Result<CatalogPage>) -> bool {
    match (json::json_parsed(json), r) {
        (Ok(v), Ok(page)) => parse::catalog_page(v) == Some(page@),
        (Ok(v), Err(e)) => parse::catalog_page(v) is None && e@ == parse::no_data(),
        (Err(m), Err(e)) => e@ == parse::not_json("catalog"@, m),
        (Err(_), Ok(_)) => false,
    }
}

/// The page that the response to a catalogue request describes.
pub fn catalog_reply(body: &[u8]) -> (r: Result<CatalogPage>)
    ensures
        match decrypted("catalog"@, body@, catalog_prefix()) {
            Ok(text) => page_parsed(text, r),
            Err(f) => r matches Err(e) && e@ == f,
        },
{
    // The bytes of `{"data":[`.
    let prefix: [u8; 9] = [0x7b, 0x22, 0x64, 0x61, 0x74, 0x61, 0x22, 0x3a, 0x5b];
    assert(prefix@ =~= catalog_prefix());
    match dynamic_decrypt("catalog", body, prefix.as_slice()) {
        Ok(json) => parse::parse_catalog_page(json.as_str()),
        Err(e) => Err(e),
    }
}

/// What a sources text says.
pub open spec fn sources_parsed(json: Seq<char>, r: Result<Vec<PlayableSource>>) -> bool {
    match (json::json_list_parsed(json), r) {
        (Ok(items), Ok(v)) => items.len() > 0 && models::source_models(v@) == parse::sources_of(
            items,
        ),
        (Ok(items), Err(e)) => items.len() == 0 && e@ == parse::no_sources(),
        (Err(m), Err(e)) => e@ == parse::not_json("sources"@, m),
        (Err(_), Ok(_)) => false,
    }
}

/// The sources that the response to a sources request lists.
pub fn sources_reply(status: u16, body: &[u8]) -> (r: Result<Vec<PlayableSource>>)
    ensures
        status != 200 ==> (r matches Err(e) && e@ == Fault::Provider(
            "sources endpoint returned status "@ + number::digits(status as nat),
        )),
        status == 200 ==> match decrypted("sources"@, body@, sources_prefix()) {
            Ok(text) => sources_parsed(text, r),
            Err(f) => r matches Err(e) && e@ == f,
        },
{
    if status != 200 {
        let code = number::decimal(status as u64);
        return Err(
            Error::Provider(text::cat("sources endpoint returned status ", code.as_str())),
        );
    }
    // The bytes of `[{`.

    let prefix: [u8; 2] = [0x5b, 0x7b];
    assert(prefix@ =~= sources_prefix());
    match dynamic_decrypt("sources", body, prefix.as_slice()) {
        Ok(json) => parse::parse_episode_sources(json.as_str()),
        Err(e) => Err(e),
    }
}

/// A reply that is the encryption, under any key, of a list of sources lists those
/// sources; a reply with another status than success is an error.
pub proof fn law_sources_reply(
    status: u16,
    body: &[u8],
    json: Seq<char>,
    items: Seq<JsonModel>,
    start: u8,
    step: u8,
    r: Result<Vec<PlayableSource>>,
)
    requires
        call_ensures(sources_reply, (status, body), r),
        body@ == ciphered(vstd::utf8::encode_utf8(json), start, step),
        text::starts_with(vstd::utf8::encode_utf8(json), vstd::utf8::encode_utf8("[{"@)),
        json::json_list_parsed(json) == Ok::<Seq<JsonModel>, Seq<char>>(items),
        items.len() > 0,
    ensures
        status == 200 ==> (r matches Ok(v) && models::source_models(v@) == parse::sources_of(items)),
        status != 200 ==> (r matches Err(e) && e@ is Provider),
{
    law_prefixes();
    let plain = vstd::utf8::encode_utf8(json);
    vstd::utf8::encode_utf8_valid_utf8(json);
    vstd::utf8::encode_utf8_decode_utf8(json);
    law_decrypt_recovers("sources"@, plain, sources_prefix(), start, step);
}

/// A reply that is the encryption, under any key, of a catalogue page says that page.
pub proof fn law_catalog_reply(
    body: &[u8],
    json: Seq<char>,
    v: JsonModel,
    page: crate::models::PageModel,
    start: u8,
    step: u8,
    r: Result<CatalogPage>,
)
    requires
        call_ensures(catalog_reply, (body,), r),
        body@ == ciphered(vstd::utf8::encode_utf8(json), start, step),
        text::starts_with(vstd::utf8::encode_utf8(json), vstd::utf8::encode_utf8("{\"data\":["@)),
        json::json_parsed(json) == Ok::<JsonModel, Seq<char>>(v),
        parse::catalog_page(v) == Some(page),
    ensures
        r matches Ok(p) && p@ == page,
{
    law_prefixes();
    let plain = vstd::utf8::encode_utf8(json);
    vstd::utf8::encode_utf8_valid_utf8(json);
    vstd::utf8::encode_utf8_decode_utf8(json);
    law_decrypt_recovers("catalog"@, plain, catalog_prefix(), start, step);
}

/// The token is read from the cookies of the site, which stand between semicolons, and
/// decoded.
pub proof fn law_xsrf_token(cookies: &str, first: Seq<char>, value: Seq<char>, r: String)
    requires
        call_ensures(xsrf_token, (cookies,), r),
        !first.contains(';'),
        !value.contains(';'),
        !text::starts_with(text::trim(first), "XSRF-TOKEN="@),
        text::trim(" XSRF-TOKEN="@ + value) == "XSRF-TOKEN="@ + value,
        cookies@ == first + ";"@ + (" XSRF-TOKEN="@ + value),
    ensures
        r@ == percent_decoded(value),
{
    reveal_strlit(";");
    reveal_strlit(" XSRF-TOKEN=");
    let sep = |c: char| c == ';';
    let second = " XSRF-TOKEN="@ + value;
    assert forall|k: int| 0 <= k < first.len() implies first[k] != ';' by {
        assert(first.contains(first[k]));
    }
    assert forall|k: int| 0 <= k < second.len() implies second[k] != ';' by {
        if k >= " XSRF-TOKEN="@.len() {
            let j = k - " XSRF-TOKEN="@.len();
            assert(second[k] == value[j]);
            assert(value.contains(value[j]));
        }
    }
    let parts = seq![first, second];
    assert(parts.drop_last() =~= seq![first]);
    assert(text::join(seq![first], seq![';']) == first);
    assert(";"@ =~= seq![';']);
    assert(text::join(parts, seq![';']) == first + seq![';'] + second);
    text::law_split_undoes_join(parts, sep, ';');
    law_token(seq![first], second, value, Seq::empty());
    assert(seq![first].push(second) + Seq::<Seq<char>>::empty() =~= parts);
}

/// A path of the site is put behind its address, whether that ends in a slash or not.
pub proof fn law_site_url(base: &str, path: &str, host: Seq<char>, r: String)
    requires
        call_ensures(site_url, (base, path), r),
        host.len() > 0,
        host.last() != '/',
        base@ == host || base@ == host.push('/'),
    ensures
        r@ == host + path@,
{
    law_base_url(host);
}

/// What is no digit makes an id none.
pub proof fn law_other_ids(id: Seq<char>, i: int)
    requires
        0 <= i < id.len(),
        id[i] < '0' || id[i] > '9',
    ensures
        !numeric(id),
{
}

/// A page is read exactly where its status says success and its body came: else the
/// status, or what the network did, is the error.
pub proof fn law_page_body(
    success: bool,
    status: &str,
    body: std::result::Result<String, String>,
    r: Result<String>,
)
    requires
        call_ensures(page_body, (success, status, body), r),
    ensures
        r is Ok <==> success && body is Ok,
        r matches Ok(s) ==> body == Ok::<String, String>(s),
        !success ==> (r matches Err(e) && e@ == Fault::Provider(
            "page returned status "@ + status@,
        )),
        success && body is Err ==> (r matches Err(e) && e@ == Fault::Network(body->Err_0@)),
{
}

/// A body that is no JSON is told from one that lacks what it is read for.
pub proof fn law_parse_failures(json: Seq<char>, m: Seq<char>, v: JsonModel)
    ensures
        json::json_parsed(json) == Err::<JsonModel, Seq<char>>(m) ==> forall|r: Result<CatalogPage>|
            #[trigger] page_parsed(json, r) ==> (r matches Err(e) && e@ == (
            Fault::ProviderChanged { context: "catalog"@, detail: "not valid JSON: "@ + m })),
        json::json_list_parsed(json) == Err::<Seq<JsonModel>, Seq<char>>(m) ==> forall|
            r: Result<Vec<PlayableSource>>,
        | #[trigger]
            sources_parsed(json, r) ==> (r matches Err(e) && e@ == (
            Fault::ProviderChanged { context: "sources"@, detail: "not valid JSON: "@ + m })),
        json::json_list_parsed(json) == Ok::<Seq<JsonModel>, Seq<char>>(Seq::empty()) ==> forall|
            r: Result<Vec<PlayableSource>>,
        | #[trigger] sources_parsed(json, r) ==> r is Err,
        json::json_parsed(json) == Ok::<JsonModel, Seq<char>>(v) && json::as_list(
            json::at(v, "data"@),
        ) is None ==> forall|r: Result<CatalogPage>| #[trigger] page_parsed(json, r) ==> r is Err,
{
}

/// Letters, digits, hyphens, underscores, dots and tildes stand for themselves in a query,
/// a blank stands as a plus sign, and every other byte in hexadecimal behind a percent
/// sign.
pub proof fn law_query_byte(b: u8)
    ensures
        ('a' as u8 <= b <= 'z' as u8) || ('A' as u8 <= b <= 'Z' as u8) || ('0' as u8 <= b <= '9' as u8)
            || b == '-' as u8 || b == '_' as u8 || b == '.' as u8 || b == '~' as u8
            ==> query_byte(b) == seq![b as char],
        b == ' ' as u8 ==> query_byte(b) == seq!['+'],
        b >= 0x80 || b < 0x20 || b == '%' as u8 || b == '+' as u8 || b == '&' as u8 || b == '=' as u8
            || b == '#' as u8 || b == '?' as u8 || b == '/' as u8 ==> query_byte(b).len() == 3
            && query_byte(b)[0] == '%',
{
    number::law_hex_byte(b, true);
}

/// An id that is no number is refused as an invalid address, whatever it was given for.
pub proof fn law_refused_ids(
    id: &str,
    other: &str,
    checked: Result<()>,
    path: Result<String>,
    body: Result<String>,
)
    requires
        !numeric(id@),
        call_ensures(validate_numeric_id, (id,), checked),
        call_ensures(details_path, (id,), path),
        call_ensures(resolve_request, (id, other), body),
    ensures
        checked matches Err(e) && e@ == Fault::InvalidUrl(
            "non-numeric nakanime id: "@ + text::quoted(id@),
        ),
        path matches Err(e) && e@ == Fault::InvalidUrl(
            "non-numeric nakanime id: "@ + text::quoted(id@),
        ),
        body matches Err(e) && e@ == Fault::InvalidUrl(
            "non-numeric nakanime id: "@ + text::quoted(id@),
        ),
{
}

} // verus!
