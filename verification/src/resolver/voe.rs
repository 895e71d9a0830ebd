//! The VOE video host: its obfuscated payload, its mirror pages and its
//! proof-of-work gate.

use crate::codec;
use crate::json;
use crate::json::{Json, JsonModel};
use crate::number;
use crate::resolver;
use crate::text;
use vstd::prelude::*;
use vstd::slice::slice_subrange;

verus! {

broadcast use {vstd::utf8::encode_utf8_valid_utf8, vstd::utf8::encode_utf8_decode_utf8};

/// A letter moved on by half the alphabet; other characters stay.
pub open spec fn rot13_char(c: char) -> char {
    if 'a' <= c <= 'z' {
        ((c as u32 - 0x61 + 13) % 26 + 0x61) as char
    } else if 'A' <= c <= 'Z' {
        ((c as u32 - 0x41 + 13) % 26 + 0x41) as char
    } else {
        c
    }
}

pub open spec fn rot13(s: Seq<char>) -> Seq<char> {
    s.map_values(|c: char| rot13_char(c))
}

/// `s` without the junk digraphs that VOE interleaves into its payload, taken out one
/// sort after another.
pub open spec fn stripped(s: Seq<char>) -> Seq<char> {
    let none = Seq::<char>::empty();
    let s = text::replace(s, "@$"@, none);
    let s = text::replace(s, "^^"@, none);
    let s = text::replace(s, "~@"@, none);
    let s = text::replace(s, "%?"@, none);
    let s = text::replace(s, "*~"@, none);
    let s = text::replace(s, "!!"@, none);
    text::replace(s, "#&"@, none)
}

/// Every byte made smaller by three, going round at zero.
pub open spec fn minus_three(s: Seq<u8>) -> Seq<u8> {
    s.map_values(|b: u8| ((b - 3) % 256) as u8)
}

/// Every byte made larger by three, going round at the top.
pub open spec fn plus_three(s: Seq<u8>) -> Seq<u8> {
    s.map_values(|b: u8| ((b + 3) % 256) as u8)
}

/// What VOE's payload stands for: ROT13, strip the junk, base64, each byte down by
/// three, reverse, base64, UTF-8.
pub open spec fn decoded(payload: Seq<char>) -> Option<Seq<char>> {
    let s = stripped(rot13(text::trim(payload)));
    match codec::base64_bytes(vstd::utf8::encode_utf8(s)) {
        Some(c) => match codec::base64_bytes(minus_three(c).reverse()) {
            Some(f) => if vstd::utf8::valid_utf8(f) {
                Some(vstd::utf8::decode_utf8(f))
            } else {
                None
            },
            None => None,
        },
        None => None,
    }
}

/// Applies ROT13.
fn rotate(s: &[char]) -> (r: Vec<char>)
    ensures
        r@ == rot13(s@),
{
    let mut out: Vec<char> = Vec::new();
    let mut i: usize = 0;
    while i < s.len()
        invariant
            i <= s@.len(),
            out@ == rot13(s@.take(i as int)),
        decreases s@.len() - i,
    {
        let c = s[i];
        let next = if 'a' <= c && c <= 'z' {
            let n: u8 = (c as u8 - 0x61 + 13) % 26 + 0x61;
            n as char
        } else if 'A' <= c && c <= 'Z' {
            let n: u8 = (c as u8 - 0x41 + 13) % 26 + 0x41;
            n as char
        } else {
            c
        };
        assert(next == rot13_char(c));
        out.push(next);
        assert(rot13(s@.take(i + 1)) =~= rot13(s@.take(i as int)).push(next));
        i = i + 1;
    }
    assert(s@.take(s@.len() as int) =~= s@);
    out
}

/// Takes every occurrence of a digraph out.
fn without(s: Vec<char>, junk: &str) -> (r: Vec<char>)
    requires
        junk@.len() > 0,
    ensures
        r@ == text::replace(s@, junk@, Seq::empty()),
{
    let p = text::chars_of(junk);
    let none: Vec<char> = Vec::new();
    text::replaced(s.as_slice(), p.as_slice(), none.as_slice())
}

/// Takes the junk digraphs out.
fn strip(s: Vec<char>) -> (r: Vec<char>)
    ensures
        r@ == stripped(s@),
{
    proof {
        reveal_strlit("@$");
        reveal_strlit("^^");
        reveal_strlit("~@");
        reveal_strlit("%?");
        reveal_strlit("*~");
        reveal_strlit("!!");
        reveal_strlit("#&");
    }
    let s = without(s, "@$");
    let s = without(s, "^^");
    let s = without(s, "~@");
    let s = without(s, "%?");
    let s = without(s, "*~");
    let s = without(s, "!!");
    without(s, "#&")
}

/// The bytes in reverse, each made smaller by three.
fn unshift(c: &Vec<u8>) -> (r: Vec<u8>)
    ensures
        r@ == minus_three(c@).reverse(),
{
    let mut out: Vec<u8> = Vec::new();
    let mut i: usize = c.len();
    while i > 0
        invariant
            i <= c@.len(),
            out@.len() == c@.len() - i,
            forall|k: int|
                0 <= k < out@.len() ==> out@[k] == minus_three(c@)[c@.len() - 1 - k],
        decreases i,
    {
        i = i - 1;
        out.push(c[i].wrapping_sub(3));
    }
    assert(out@ =~= minus_three(c@).reverse());
    out
}

/// Decode VOE's obfuscated payload string (element 0 of the `application/json`
/// array): ROT13 → strip the junk digraphs → base64 → shift each byte by −3 →
/// reverse → base64 → UTF-8 JSON. Returns the decoded JSON string.
pub fn voe_decode(payload: &str) -> (r: Option<String>)
    ensures
        text::opt_text(r) == decoded(payload@),
{
    let p = text::chars_of(payload);
    let s = strip(rotate(text::trimmed(p.as_slice())));
    let s = text::string_of(s.as_slice());
    let c = match codec::decode_base64(s.as_str().as_bytes()) {
        Some(c) => c,
        None => return None,
    };
    let e = unshift(&c);
    let f = match codec::decode_base64(e.as_slice()) {
        Some(f) => f,
        None => return None,
    };
    text::utf8_text(f)
}

/// Rotating twice gives the text again.
pub proof fn law_rot13_twice(s: Seq<char>)
    ensures
        rot13(rot13(s)) == s,
{
    assert(rot13(rot13(s)) =~= s);
}

/// A text in which a pattern does not stand is not changed by replacing it.
proof fn lemma_replace_nothing(s: Seq<char>, p: Seq<char>, i: int)
    requires
        0 <= i <= s.len(),
        p.len() > 0,
        forall|k: int| 0 <= k < s.len() ==> #[trigger] s[k] != p[0],
    ensures
        text::replace_from(s, p, Seq::empty(), i) == s.subrange(i, s.len() as int),
    decreases s.len() - i,
{
    if i < s.len() {
        if text::occurs_at(s, p, i) {
            assert(s.subrange(i, i + p.len())[0] == s[i]);
        }
        lemma_replace_nothing(s, p, i + 1);
        assert(seq![s[i]] + s.subrange(i + 1, s.len() as int) =~= s.subrange(i, s.len() as int));
    } else {
        assert(text::replace_from(s, p, Seq::empty(), i) =~= s.subrange(i, s.len() as int));
    }
}

/// Base64 text holds no junk.
proof fn lemma_base64_is_not_junk(s: Seq<char>)
    requires
        forall|i: int| 0 <= i < s.len() ==> codec::base64_char(#[trigger] s[i]),
    ensures
        stripped(s) == s,
{
    reveal_strlit("@$");
    reveal_strlit("^^");
    reveal_strlit("~@");
    reveal_strlit("%?");
    reveal_strlit("*~");
    reveal_strlit("!!");
    reveal_strlit("#&");
    lemma_replace_nothing(s, "@$"@, 0);
    lemma_replace_nothing(s, "^^"@, 0);
    lemma_replace_nothing(s, "~@"@, 0);
    lemma_replace_nothing(s, "%?"@, 0);
    lemma_replace_nothing(s, "*~"@, 0);
    lemma_replace_nothing(s, "!!"@, 0);
    lemma_replace_nothing(s, "#&"@, 0);
    assert(s.subrange(0, s.len() as int) =~= s);
}

/// A text without white space is not changed by trimming.
pub proof fn lemma_trim_nothing(s: Seq<char>)
    requires
        forall|i: int| 0 <= i < s.len() ==> !text::white(#[trigger] s[i]),
    ensures
        text::trim(s) == s,
{
    if s.len() > 0 {
        assert(!text::white(s[0]));
        assert(!text::white(s[s.len() - 1]));
    }
}

/// A payload of `n` bytes can be encoded twice over.
pub open spec fn voe_encodable(n: nat) -> bool {
    codec::encodable(n) && codec::encodable(codec::base64_len(n))
}

/// Build a VOE-obfuscated payload from a JSON string. Decoding it gives the JSON back.
pub fn voe_encode(json: &str) -> (r: String)
    requires
        voe_encodable(vstd::utf8::encode_utf8(json@).len()),
    ensures
        decoded(r@) == Some(json@),
{
    let ghost data = vstd::utf8::encode_utf8(json@);
    let inner = codec::encode_base64(json.as_bytes());
    proof {
        assert(vstd::utf8::is_ascii_chars(inner@)) by {
            assert forall|i| 0 <= i < inner@.len() implies '\0' <= #[trigger] inner@[i]
                <= '\u{7f}' by {
                assert(codec::base64_char(inner@[i]));
            }
        }
        vstd::utf8::is_ascii_chars_encode_utf8(inner@);
    }
    let bytes = inner.as_str().as_bytes();
    let ghost e = bytes@;
    let mut shifted: Vec<u8> = Vec::new();
    let mut i: usize = bytes.len();
    while i > 0
        invariant
            i <= bytes@.len(),
            e == bytes@,
            shifted@.len() == e.len() - i,
            forall|k: int|
                0 <= k < shifted@.len() ==> shifted@[k] == plus_three(e)[e.len() - 1 - k],
        decreases i,
    {
        i = i - 1;
        shifted.push(bytes[i].wrapping_add(3));
    }
    assert(minus_three(shifted@).reverse() =~= e);
    let outer = codec::encode_base64(shifted.as_slice());
    let o = text::chars_of(outer.as_str());
    let payload = rotate(o.as_slice());
    proof {
        assert forall|k: int| 0 <= k < payload@.len() implies !text::white(
            #[trigger] payload@[k],
        ) by {
            assert(codec::base64_char(outer@[k]));
        }
        lemma_trim_nothing(payload@);
        law_rot13_twice(outer@);
        lemma_base64_is_not_junk(outer@);
    }
    text::string_of(payload.as_slice())
}

/// The text of the first `<script type="application/json">…</script>` block, trimmed.
pub open spec fn json_script(html: Seq<char>) -> Option<Seq<char>> {
    match text::find(html, "application/json"@) {
        Some(at) => match text::find_from(html, ">"@, at) {
            Some(tag) => match text::find_from(html, "</script>"@, tag + 1) {
                Some(end) => Some(text::trim(html.subrange(tag + 1, end))),
                None => None,
            },
            None => None,
        },
        None => None,
    }
}

fn extract_json_script(html: &[char]) -> (r: Option<String>)
    ensures
        text::opt_text(r) == json_script(html@),
{
    let key = text::chars_of("application/json");
    let close = text::chars_of(">");
    let script = text::chars_of("</script>");
    proof {
        reveal_strlit(">");
    }
    let at: usize = match text::position(html, key.as_slice()) {
        Some(i) => i,
        None => return None,
    };
    let tag: usize = match text::position_from(html, close.as_slice(), at) {
        Some(i) => i,
        None => return None,
    };
    match text::position_from(html, script.as_slice(), tag + 1) {
        Some(end) => {
            proof {
                text::lemma_find_from(html@, "</script>"@, tag + 1);
            }
            Some(text::string_of(text::trimmed(slice_subrange(html, tag + 1, end))))
        },
        None => None,
    }
}

/// The first of a list of texts; none when the list holds anything else.
pub open spec fn first_text(v: JsonModel) -> Option<Seq<char>> {
    match v {
        JsonModel::List(items) => if items.len() > 0 && forall|i: int|
            0 <= i < items.len() ==> (#[trigger] items[i]) is Text {
            json::as_text(items[0])
        } else {
            None
        },
        _ => None,
    }
}

/// The stream in the decoded JSON: the HLS one, else the progressive one.
pub open spec fn stream_in(v: JsonModel) -> Option<Seq<char>> {
    match json::member(v, "source"@) {
        Some(s) => json::as_text(s),
        None => json::as_text(json::at(v, "direct_access_url"@)),
    }
}

/// The first of a list of texts.
pub fn payload_from_json(v: &Json) -> (r: Option<String>)
    ensures
        text::opt_text(r) == first_text(v@),
{
    match v {
        Json::List(items) => {
            let ghost all = v@->List_0;
            if items.len() == 0 {
                return None;
            }
            let mut i: usize = 0;
            while i < items.len()
                invariant
                    *v == Json::List(*items),
                    all == v@->List_0,
                    i <= items@.len(),
                    forall|k: int| 0 <= k < i ==> (#[trigger] all[k]) is Text,
                decreases items@.len() - i,
            {
                assert(all[i as int] == json::model(items@[i as int]));
                if items[i].as_str().is_none() {
                    assert(!(all[i as int] is Text));
                    return None;
                }
                i = i + 1;
            }
            assert(all[0] == json::model(items@[0]));
            match items[0].as_str() {
                Some(s) => Some(s.to_string()),
                None => None,
            }
        },
        _ => None,
    }
}

/// The stream in the decoded JSON.
pub fn stream_from_json(v: &Json) -> (r: Option<String>)
    ensures
        text::opt_text(r) == stream_in(v@),
{
    match v.get("source") {
        Some(s) => match s.as_str() {
            Some(s) => Some(s.to_string()),
            None => None,
        },
        None => v.string_at("direct_access_url"),
    }
}

/// What a text says as JSON.
pub open spec fn said(s: Seq<char>) -> Option<JsonModel> {
    match json::json_parsed(s) {
        Ok(v) => Some(v),
        Err(_) => None,
    }
}

/// The stream of a VOE page.
pub open spec fn page_stream(html: Seq<char>) -> Option<Seq<char>> {
    match json_script(html) {
        Some(raw) => match said(text::trim(raw)) {
            Some(v) => match first_text(v) {
                Some(payload) => match decoded(payload) {
                    Some(inner) => match said(inner) {
                        Some(w) => stream_in(w),
                        None => None,
                    },
                    None => None,
                },
                None => None,
            },
            None => None,
        },
        None => None,
    }
}

/// Extract the playable stream URL from a VOE embed page: read the obfuscated payload
/// from `<script type="application/json">["…"]</script>`, [`voe_decode`] it, and take
/// the `source` (HLS) — or `direct_access_url` (progressive mp4) — from the decoded
/// JSON. The caller adds the `Referer`.
pub fn voe_stream_url(html: &str) -> (r: Option<String>)
    ensures
        text::opt_text(r) == page_stream(html@),
{
    let page = text::chars_of(html);
    let raw = match extract_json_script(page.as_slice()) {
        Some(raw) => raw,
        None => return None,
    };
    // The script body is a JSON array whose first element is the obfuscated payload.
    let list = match Json::parse(text::str_trimmed(raw.as_str()).as_str()) {
        Ok(v) => v,
        Err(_) => return None,
    };
    let payload = match payload_from_json(&list) {
        Some(p) => p,
        None => return None,
    };
    let inner = match voe_decode(payload.as_str()) {
        Some(s) => s,
        None => return None,
    };
    match Json::parse(inner.as_str()) {
        Ok(v) => stream_from_json(&v),
        Err(_) => None,
    }
}

/// The characters that end an address in a stub page.
pub open spec fn mirror_ends() -> Seq<char> {
    seq!['\'', '"', ' ', '\\', '\n', '\r', '<', ')']
}

/// The absolute embed address that begins at position `i` behind a quote, if one does.
pub open spec fn mirror_at(s: Seq<char>, i: int) -> Option<Seq<char>> {
    let cand = resolver::up_to_any(resolver::tail(s, i), mirror_ends());
    if i > 0 && (s[i - 1] == '\'' || s[i - 1] == '"') && resolver::address_at(s, i)
        && text::contains(cand, "/e/"@) {
        Some(cand)
    } else {
        None
    }
}

/// The first quoted absolute embed address at or behind `i`.
pub open spec fn mirror_from(s: Seq<char>, i: int) -> Option<Seq<char>>
    decreases s.len() - i,
{
    if i < 0 || i >= s.len() {
        None
    } else if mirror_at(s, i) is Some {
        mirror_at(s, i)
    } else {
        mirror_from(s, i + 1)
    }
}

/// The first quoted absolute embed URL (`http(s)://…/e/…`) in the page — the target
/// of VOE's JS `window.location`/mirror redirect stub. Only meaningful on a stub
/// (a real page resolves via [`voe_stream_url`] before we look here).
pub fn voe_mirror_target(html: &str) -> (r: Option<String>)
    ensures
        text::opt_text(r) == mirror_from(html@, 0),
{
    let s = text::chars_of(html);
    let plain = text::chars_of("http://");
    let secure = text::chars_of("https://");
    let embed = text::chars_of("/e/");
    let mut ends: Vec<char> = Vec::new();
    ends.push('\'');
    ends.push('"');
    ends.push(' ');
    ends.push('\\');
    ends.push('\n');
    ends.push('\r');
    ends.push('<');
    ends.push(')');
    assert(ends@ =~= mirror_ends());
    let mut i: usize = 0;
    while i < s.len()
        invariant
            i <= s@.len(),
            s@ == html@,
            plain@ == "http://"@,
            secure@ == "https://"@,
            embed@ == "/e/"@,
            ends@ == mirror_ends(),
            mirror_from(s@, i as int) == mirror_from(s@, 0),
        decreases s@.len() - i,
    {
        if i > 0 && (s[i - 1] == '\'' || s[i - 1] == '"') && (text::matches_at(
            s.as_slice(),
            plain.as_slice(),
            i,
        ) || text::matches_at(s.as_slice(), secure.as_slice(), i)) {
            let cand = resolver::cut_at_any(
                slice_subrange(s.as_slice(), i, s.len()),
                ends.as_slice(),
            );
            if text::has(cand, embed.as_slice()) {
                return Some(text::string_of(cand));
            }
        }
        i = i + 1;
    }
    None
}

/// The `<form>` fields of VOE's "Confirm you're human" proof-of-work gate page.
#[derive(Debug, PartialEq, Eq)]
pub struct VoeGate {
    /// Form POST target (also the page's own URL).
    pub action: String,
    /// Laravel CSRF `_token`.
    pub token: String,
    /// URL that returns the PBKDF2 challenge JSON.
    pub challenge_url: String,
}

/// What stands between a marker and the next double quote.
pub open spec fn quoted_behind(html: Seq<char>, marker: Seq<char>) -> Option<Seq<char>> {
    match text::find(html, marker) {
        Some(at) => {
            let rest = resolver::tail(html, at + marker.len());
            match text::find_any_from(rest, seq!['"'], 0) {
                Some(end) => Some(rest.take(end)),
                None => None,
            }
        },
        None => None,
    }
}

/// The string between `marker` and the next `"`.
fn quoted_after(html: &[char], marker: &str) -> (r: Option<String>)
    ensures
        text::opt_text(r) == quoted_behind(html@, marker@),
{
    let m = text::chars_of(marker);
    let at: usize = match text::position(html, m.as_slice()) {
        Some(i) => i,
        None => return None,
    };
    let mut quote: Vec<char> = Vec::new();
    quote.push('"');
    assert(quote@ =~= seq!['"']);
    let rest = slice_subrange(html, at + m.len(), html.len());
    match text::position_any_from(rest, quote.as_slice(), 0) {
        Some(end) => {
            let s = slice_subrange(rest, 0, end);
            assert(s@ =~= rest@.take(end as int));
            Some(text::string_of(s))
        },
        None => None,
    }
}

/// The form fields of a gate page: action, token and challenge address.
pub open spec fn gate_fields(html: Seq<char>) -> Option<(Seq<char>, Seq<char>, Seq<char>)> {
    if !text::contains(html, "altcha-widget"@) {
        None
    } else {
        match (
            quoted_behind(html, "action=\""@),
            quoted_behind(html, "name=\"_token\" value=\""@),
            quoted_behind(html, "challenge=\""@),
        ) {
            (Some(a), Some(t), Some(c)) => Some((a, t, c)),
            _ => None,
        }
    }
}

/// Parse VOE's PoW gate page, or `None` if it isn't one. Presence of `altcha-widget`
/// marks such a page; we then read the form action, CSRF `_token`, and challenge URL.
pub fn voe_gate(html: &str) -> (r: Option<VoeGate>)
    ensures
        match r {
            Some(g) => gate_fields(html@) == Some((g.action@, g.token@, g.challenge_url@)),
            None => gate_fields(html@) is None,
        },
{
    let s = text::chars_of(html);
    let widget = text::chars_of("altcha-widget");
    if !text::has(s.as_slice(), widget.as_slice()) {
        return None;
    }
    let action = quoted_after(s.as_slice(), "action=\"");
    let token = quoted_after(s.as_slice(), "name=\"_token\" value=\"");
    let challenge_url = quoted_after(s.as_slice(), "challenge=\"");
    match (action, token, challenge_url) {
        (Some(action), Some(token), Some(challenge_url)) => Some(
            VoeGate { action, token, challenge_url },
        ),
        _ => None,
    }
}

/// The byte that the `i`-th pair of hexadecimal digits stands for.
pub open spec fn hex_at(s: Seq<char>, i: int) -> Option<nat> {
    number::parsed(s.subrange(2 * i, 2 * i + 2), 16, 255)
}

/// The bytes that hexadecimal text stands for; none when it is malformed.
pub open spec fn hex_bytes(s: Seq<char>) -> Option<Seq<u8>> {
    if s.len() % 2 == 0 && forall|i: int| 0 <= i < s.len() / 2 ==> (#[trigger] hex_at(s, i)) is Some {
        Some(Seq::new(s.len() / 2, |i: int| hex_at(s, i)->0 as u8))
    } else {
        None
    }
}

/// The hexadecimal text of bytes.
pub open spec fn hex_text(b: Seq<u8>) -> Seq<char>
    decreases b.len(),
{
    if b.len() == 0 {
        Seq::empty()
    } else {
        hex_text(b.drop_last()) + number::hex_byte(b.last(), false)
    }
}

proof fn lemma_hex_text(b: Seq<u8>)
    ensures
        hex_text(b).len() == 2 * b.len(),
        forall|i: int|
            0 <= i < b.len() ==> #[trigger] hex_text(b).subrange(2 * i, 2 * i + 2)
                == number::hex_byte(b[i], false),
    decreases b.len(),
{
    if b.len() > 0 {
        let head = b.drop_last();
        lemma_hex_text(head);
        assert forall|i: int| 0 <= i < b.len() implies #[trigger] hex_text(b).subrange(
            2 * i,
            2 * i + 2,
        ) == number::hex_byte(b[i], false) by {
            if i < head.len() {
                assert(hex_text(b).subrange(2 * i, 2 * i + 2) =~= hex_text(head).subrange(
                    2 * i,
                    2 * i + 2,
                ));
            } else {
                assert(hex_text(b).subrange(2 * i, 2 * i + 2) =~= number::hex_byte(
                    b.last(),
                    false,
                ));
            }
        }
    }
}

proof fn lemma_hex_byte(b: u8)
    ensures
        number::parsed(number::hex_byte(b, false), 16, 255) == Some(b as nat),
{
    let s = number::hex_byte(b, false);
    let d = number::unsigned_part(s);
    assert(d == s);
    assert(s.drop_last() =~= seq![s[0]]);
    assert(seq![s[0]].drop_last() =~= Seq::<char>::empty());
    reveal_with_fuel(number::value, 3);
    assert(number::digit_value(s[0]) == Some((b / 16) as nat));
    assert(number::digit_value(s[1]) == Some((b % 16) as nat));
    assert(number::value(s, 16) == (b / 16) * 16 + b % 16);
}

/// Hexadecimal text reads back as the bytes it was written from.
pub proof fn law_hex_round_trip(b: Seq<u8>)
    ensures
        hex_bytes(hex_text(b)) == Some(b),
{
    lemma_hex_text(b);
    let s = hex_text(b);
    assert forall|i: int| 0 <= i < s.len() / 2 implies (#[trigger] hex_at(s, i)) == Some(
        b[i] as nat,
    ) by {
        lemma_hex_byte(b[i]);
    }
    assert(hex_bytes(s)->0 =~= b);
}

/// Text of an odd length, or with anything but two hexadecimal digits for a byte, is no
/// hexadecimal text.
pub proof fn law_malformed_hex(s: Seq<char>, i: int)
    ensures
        s.len() % 2 == 1 ==> hex_bytes(s) is None,
        0 <= i < s.len() / 2 && number::digit_value(s[2 * i + 1]) is None ==> hex_bytes(s) is None,
        s.len() == 0 ==> hex_bytes(s) == Some(Seq::<u8>::empty()),
{
    if 0 <= i < s.len() / 2 && number::digit_value(s[2 * i + 1]) is None {
        let pair = s.subrange(2 * i, 2 * i + 2);
        let u = number::unsigned_part(pair);
        assert(u[u.len() - 1] == s[2 * i + 1]);
        assert(!number::is_digit(u[u.len() - 1], 16));
        assert(hex_at(s, i) is None);
    }
    if s.len() == 0 {
        assert(hex_bytes(s)->0 =~= Seq::<u8>::empty());
    }
}

/// The bytes that hexadecimal text stands for.
pub fn hex_to_bytes(s: &str) -> (r: Option<Vec<u8>>)
    ensures
        match r {
            Some(v) => hex_bytes(s@) == Some(v@),
            None => hex_bytes(s@) is None,
        },
{
    let c = text::chars_of(s);
    if c.len() % 2 != 0 {
        return None;
    }
    let mut out: Vec<u8> = Vec::new();
    let mut i: usize = 0;
    while i < c.len() / 2
        invariant
            c@ == s@,
            c@.len() % 2 == 0,
            i <= c@.len() / 2,
            out@.len() == i,
            forall|k: int| 0 <= k < i ==> (#[trigger] hex_at(s@, k)) == Some(out@[k] as nat),
        decreases c@.len() / 2 - i,
    {
        match number::parse(slice_subrange(c.as_slice(), 2 * i, 2 * i + 2), 16, 255) {
            Some(n) => {
                assert(hex_at(s@, i as int) == Some(n as nat));
                out.push(n as u8);
            },
            None => {
                assert(hex_at(s@, i as int) is None);
                return None;
            },
        }
        i = i + 1;
    }
    assert(hex_bytes(s@)->0 =~= out@);
    Some(out)
}

/// The hexadecimal text of bytes.
pub fn bytes_to_hex(b: &[u8]) -> (r: String)
    ensures
        r@ == hex_text(b@),
{
    let mut s = String::new();
    let mut i: usize = 0;
    while i < b.len()
        invariant
            i <= b@.len(),
            s@ == hex_text(b@.take(i as int)),
        decreases b@.len() - i,
    {
        number::put_hex(&mut s, b[i], false);
        assert(b@.take(i + 1).drop_last() =~= b@.take(i as int));
        i = i + 1;
    }
    assert(b@.take(b@.len() as int) =~= b@);
    s
}

/// The key that PBKDF2 with HMAC-SHA-256 derives from a secret.
pub uninterp spec fn derived_key(iterations: u32, salt: Seq<u8>, secret: Seq<u8>, len: nat) -> Seq<
    u8,
>;

/// The sizes that a derivation can be asked for: the key is no longer than the
/// algorithm allows and fits in memory, and the inputs are no longer than the hash takes.
pub open spec fn derivable(len: nat, salt: nat, secret: nat) -> bool {
    len <= 0xffff_ffff * 32 && len <= isize::MAX && salt < 0x1000_0000_0000_0000 && secret
        < 0x1000_0000_0000_0000
}

/// `ring::pbkdf2::derive` with `PBKDF2_HMAC_SHA256`, into a buffer of the given length.
/// The key depends on the arguments alone; which key it is is left unstated. It panics
/// on a key or an input that is too long, which is left out.
#[verifier::external_body]
fn derive_key(iterations: u32, salt: &[u8], secret: &[u8], len: usize) -> (r: Vec<u8>)
    requires
        iterations > 0,
        derivable(len as nat, salt@.len(), secret@.len()),
    ensures
        r@ == derived_key(iterations, salt@, secret@, len as nat),
        r@.len() == len,
{
    let mut out = vec![0u8; len];
    let rounds = std::num::NonZeroU32::new(iterations).unwrap();
    ring::pbkdf2::derive(ring::pbkdf2::PBKDF2_HMAC_SHA256, rounds, salt, secret, &mut out);
    out
}

/// A proof-of-work challenge.
#[derive(Debug)]
pub struct Challenge {
    pub nonce: Vec<u8>,
    pub salt: Vec<u8>,
    pub prefix: Vec<u8>,
    pub cost: u32,
    pub key_length: u64,
}

/// What a [`Challenge`] holds.
pub ghost struct ChallengeModel {
    pub nonce: Seq<u8>,
    pub salt: Seq<u8>,
    pub prefix: Seq<u8>,
    pub cost: u32,
    pub key_length: u64,
}

impl View for Challenge {
    type V = ChallengeModel;

    open spec fn view(&self) -> ChallengeModel {
        ChallengeModel {
            nonce: self.nonce@,
            salt: self.salt@,
            prefix: self.prefix@,
            cost: self.cost,
            key_length: self.key_length,
        }
    }
}

/// How many counters are tried.
pub const MAX_COUNTER: u32 = 0x100_0000;

/// A counter as four bytes, the highest first.
pub open spec fn big_endian(n: u32) -> Seq<u8> {
    seq![
        (n / 0x100_0000) as u8,
        (n / 0x1_0000 % 0x100) as u8,
        (n / 0x100 % 0x100) as u8,
        (n % 0x100) as u8,
    ]
}

impl ChallengeModel {
    /// How long the derived key is.
    pub open spec fn len(self) -> nat {
        if self.key_length == 0 {
            1
        } else {
            self.key_length as nat
        }
    }

    /// The key of a counter.
    pub open spec fn key(self, counter: u32) -> Seq<u8> {
        derived_key(self.cost, self.salt, self.nonce + big_endian(counter), self.len())
    }

    /// The counter solves the challenge: its key begins with the wanted prefix.
    pub open spec fn solved_by(self, counter: u32) -> bool {
        text::starts_with(self.key(counter), self.prefix)
    }

    /// The first counter at or behind `from` that solves the challenge, among those
    /// that are tried.
    pub open spec fn solution(self, from: u32) -> Option<u32>
        decreases MAX_COUNTER - from,
    {
        if from >= MAX_COUNTER {
            None
        } else if self.solved_by(from) {
            Some(from)
        } else {
            self.solution((from + 1) as u32)
        }
    }

    /// The challenge can be worked on.
    pub open spec fn workable(self) -> bool {
        self.cost > 0 && derivable(self.len(), self.salt.len(), self.nonce.len() + 4)
    }
}

/// The solution that is found solves the challenge, and no smaller counter does; when
/// none is found, none of the counters that are tried does.
pub proof fn law_smallest_solution(c: ChallengeModel, from: u32)
    ensures
        match c.solution(from) {
            Some(n) => from <= n < MAX_COUNTER && c.solved_by(n) && forall|k: u32|
                from <= k < n ==> !(#[trigger] c.solved_by(k)),
            None => forall|k: u32| from <= k < MAX_COUNTER ==> !(#[trigger] c.solved_by(k)),
        },
    decreases MAX_COUNTER - from,
{
    if from < MAX_COUNTER && !c.solved_by(from) {
        law_smallest_solution(c, (from + 1) as u32);
    }
}

/// Whether a challenge can be worked on.
pub fn is_workable(c: &Challenge) -> (r: bool)
    ensures
        r == c@.workable(),
{
    let len: u64 = if c.key_length == 0 {
        1
    } else {
        c.key_length
    };
    c.cost > 0 && len <= 0xffff_ffff * 32 && len <= isize::MAX as u64 && (c.salt.len() as u64)
        < 0x1000_0000_0000_0000 && (c.nonce.len() as u64) < 0x1000_0000_0000_0000 - 4
}

/// Searches for the smallest counter that solves the challenge, and returns it with its
/// key.
pub fn solve(c: &Challenge) -> (r: Option<(u32, Vec<u8>)>)
    requires
        c@.workable(),
    ensures
        match r {
            Some((n, key)) => c@.solution(0) == Some(n) && key@ == c@.key(n),
            None => c@.solution(0) is None,
        },
        r matches Some((n, key)) ==> c.key_length > 0 ==> key@ == derived_key(
            c.cost,
            c.salt@,
            c.nonce@ + big_endian(n),
            c.key_length as nat,
        ),
{
    let len: usize = if c.key_length == 0 {
        1
    } else {
        c.key_length as usize
    };
    let mut counter: u32 = 0;
    while counter < MAX_COUNTER
        invariant
            c@.workable(),
            len == c@.len(),
            counter <= MAX_COUNTER,
            c@.solution(counter) == c@.solution(0),
        decreases MAX_COUNTER - counter,
    {
        // The secret is the nonce followed by the counter, highest byte first.
        let mut secret = c.nonce.clone();
        assert(secret@ =~= c.nonce@);
        secret.push((counter / 0x100_0000) as u8);
        secret.push((counter / 0x1_0000 % 0x100) as u8);
        secret.push((counter / 0x100 % 0x100) as u8);
        secret.push((counter % 0x100) as u8);
        assert(secret@ =~= c@.nonce + big_endian(counter));
        let key = derive_key(c.cost, c.salt.as_slice(), secret.as_slice(), len);
        if text::bytes_begin(key.as_slice(), c.prefix.as_slice()) {
            return Some((counter, key));
        }
        counter = counter + 1;
    }
    None
}

/// The challenge that a JSON value describes; none when something is missing or
/// malformed.
pub open spec fn challenge_of(v: JsonModel) -> Option<ChallengeModel> {
    let p = json::at(v, "parameters"@);
    match (
        json::as_text(json::at(p, "nonce"@)),
        json::as_text(json::at(p, "salt"@)),
        json::as_text(json::at(p, "keyPrefix"@)),
        json::as_unsigned(json::at(p, "cost"@)),
    ) {
        (Some(nonce), Some(salt), Some(prefix), Some(cost)) => match (
            hex_bytes(nonce),
            hex_bytes(salt),
            hex_bytes(prefix),
        ) {
            (Some(nonce), Some(salt), Some(prefix)) => Some(
                ChallengeModel {
                    nonce,
                    salt,
                    prefix,
                    cost: (cost % 0x1_0000_0000) as u32,
                    key_length: match json::as_unsigned(json::at(p, "keyLength"@)) {
                        Some(n) => n,
                        None => 32,
                    },
                },
            ),
            _ => None,
        },
        _ => None,
    }
}

/// The bytes of the member with the given key, which is hexadecimal text.
fn hex_member(p: &Json, key: &str) -> (r: Option<Vec<u8>>)
    ensures
        match json::as_text(json::at(p@, key@)) {
            Some(s) => match r {
                Some(v) => hex_bytes(s) == Some(v@),
                None => hex_bytes(s) is None,
            },
            None => r is None,
        },
{
    match p.str_at(key) {
        Some(s) => hex_to_bytes(s),
        None => None,
    }
}

/// The challenge that a JSON value describes.
pub fn challenge_from_json(v: &Json) -> (r: Option<Challenge>)
    ensures
        match r {
            Some(c) => challenge_of(v@) == Some(c@),
            None => challenge_of(v@) is None,
        },
{
    let p = match v.get("parameters") {
        Some(p) => p,
        None => return None,
    };
    let cost: u64 = match p.u64_at("cost") {
        Some(n) => n,
        None => return None,
    };
    let key_length: u64 = match p.u64_at("keyLength") {
        Some(n) => n,
        None => 32,
    };
    match (hex_member(p, "nonce"), hex_member(p, "salt"), hex_member(p, "keyPrefix")) {
        (Some(nonce), Some(salt), Some(prefix)) => Some(
            Challenge { nonce, salt, prefix, cost: (cost % 0x1_0000_0000) as u32, key_length },
        ),
        _ => None,
    }
}

/// What is posted back: the echoed challenge and its solution.
pub open spec fn answer(p: JsonModel, signature: JsonModel, counter: u32, key: Seq<u8>) -> JsonModel {
    JsonModel::Object(
        seq![
            (
                "challenge"@,
                JsonModel::Object(seq![("parameters"@, p), ("signature"@, signature)]),
            ),
            (
                "solution"@,
                JsonModel::Object(
                    seq![
                        ("counter"@, JsonModel::Number(json::unsigned_parts(counter as u64))),
                        ("derivedKey"@, JsonModel::Text(hex_text(key))),
                        ("time"@, JsonModel::Number(json::unsigned_parts(100))),
                    ],
                ),
            ),
        ],
    )
}

proof fn lemma_answer_ordered(p: JsonModel, signature: JsonModel, counter: u32, key: Seq<u8>)
    requires
        json::ordered(p),
        json::ordered(signature),
    ensures
        json::ordered(answer(p, signature, counter, key)),
{
    reveal_strlit("challenge");
    reveal_strlit("solution");
    reveal_strlit("parameters");
    reveal_strlit("signature");
    reveal_strlit("counter");
    reveal_strlit("derivedKey");
    reveal_strlit("time");
    reveal_with_fuel(json::ordered, 3);
    assert(json::key_before("challenge"@, "solution"@));
    assert(json::key_before("parameters"@, "signature"@));
    assert(json::key_before("counter"@, "derivedKey"@));
    assert(json::key_before("counter"@, "time"@));
    assert(json::key_before("derivedKey"@, "time"@));
    let a = answer(p, signature, counter, key)->Object_0;
    assert(json::ordered(a[0].1)) by {
        let m = a[0].1->Object_0;
        assert(m[0].1 == p && m[1].1 == signature);
        assert(json::keys_ordered(m));
    }
    assert(json::ordered(a[1].1)) by {
        assert(json::keys_ordered(a[1].1->Object_0));
    }
    assert(json::keys_ordered(a));
}

/// The JSON text of what is posted back.
fn answer_text(p: &Json, signature: &Json, counter: u32, key: &Vec<u8>) -> (r: String)
    requires
        json::ordered(p@),
        json::ordered(signature@),
    ensures
        r@ == json::json_text(answer(p@, signature@, counter, key@)),
{
    let mut challenge: Vec<(String, Json)> = Vec::new();
    challenge.push(("parameters".to_string(), p.copy()));
    challenge.push(("signature".to_string(), signature.copy()));
    let mut solution: Vec<(String, Json)> = Vec::new();
    solution.push(("counter".to_string(), Json::unsigned(counter as u64)));
    solution.push(("derivedKey".to_string(), Json::Text(bytes_to_hex(key.as_slice()))));
    solution.push(("time".to_string(), Json::unsigned(100)));
    let challenge = Json::Object(challenge);
    let solution = Json::Object(solution);
    let ghost want = answer(p@, signature@, counter, key@)->Object_0;
    proof {
        lemma_answer_ordered(p@, signature@, counter, key@);
        reveal_with_fuel(json::model, 2);
        assert(challenge@->Object_0 =~= want[0].1->Object_0);
        assert(solution@->Object_0 =~= want[1].1->Object_0);
    }
    let mut members: Vec<(String, Json)> = Vec::new();
    members.push(("challenge".to_string(), challenge));
    members.push(("solution".to_string(), solution));
    let payload = Json::Object(members);
    assert(payload@->Object_0 =~= want);
    payload.text()
}

/// The form value that answers a challenge: none when the challenge is malformed,
/// cannot be worked on or has no solution, or when the answer is too long to be encoded.
pub open spec fn answered(v: JsonModel) -> Option<Seq<char>> {
    match (challenge_of(v), json::member(v, "signature"@)) {
        (Some(c), Some(signature)) => if !c.workable() {
            None
        } else {
            match c.solution(0) {
                Some(n) => {
                    let bytes = vstd::utf8::encode_utf8(
                        json::json_text(
                            answer(json::at(v, "parameters"@), signature, n, c.key(n)),
                        ),
                    );
                    if codec::encodable(bytes.len()) {
                        Some(codec::base64_text(bytes))
                    } else {
                        None
                    }
                },
                None => None,
            }
        },
        _ => None,
    }
}

/// A counter is written highest byte first.
pub proof fn law_big_endian(n: u32)
    ensures
        big_endian(n).len() == 4,
        n == big_endian(n)[0] * 0x100_0000 + big_endian(n)[1] * 0x1_0000 + big_endian(n)[2] * 0x100
            + big_endian(n)[3],
{
}

/// What solves a challenge: the key that is derived with the challenge's own cost, salt
/// and key length, from its nonce with the counter behind it, begins with the wanted
/// prefix. Of the counters that are tried the smallest such one is found, and when none
/// is found there is none. A key length of zero is taken for one.
pub proof fn law_solution_derives_the_prefix(c: ChallengeModel)
    ensures
        ({
            let length = if c.key_length > 0 {
                c.key_length as nat
            } else {
                1
            };
            match c.solution(0) {
                Some(n) => {
                    &&& c.key(n) == derived_key(
                        c.cost,
                        c.salt,
                        c.nonce + big_endian(n),
                        length,
                    )
                    &&& c.prefix.len() <= c.key(n).len()
                    &&& forall|i: int|
                        0 <= i < c.prefix.len() ==> c.key(n)[i] == #[trigger] c.prefix[i]
                    &&& forall|k: u32|
                        k < n ==> !text::starts_with(
                            derived_key(
                                c.cost,
                                c.salt,
                                c.nonce + #[trigger] big_endian(k),
                                length,
                            ),
                            c.prefix,
                        )
                },
                None => forall|k: u32|
                    k < 0x100_0000 ==> !text::starts_with(
                        derived_key(
                            c.cost,
                            c.salt,
                            c.nonce + #[trigger] big_endian(k),
                            length,
                        ),
                        c.prefix,
                    ),
            }
        }),
{
    law_smallest_solution(c, 0);
    match c.solution(0) {
        Some(n) => {
            let key = c.key(n);
            assert forall|i: int| 0 <= i < c.prefix.len() implies key[i] == #[trigger] c.prefix[i] by {
                assert(key.subrange(0, c.prefix.len() as int)[i] == key[i]);
            }
            assert forall|k: u32| k < n implies !text::starts_with(
                derived_key(c.cost, c.salt, c.nonce + #[trigger] big_endian(k), c.len()),
                c.prefix,
            ) by {
                assert(!c.solved_by(k));
            }
        },
        None => {
            assert forall|k: u32| k < MAX_COUNTER implies !text::starts_with(
                derived_key(c.cost, c.salt, c.nonce + #[trigger] big_endian(k), c.len()),
                c.prefix,
            ) by {
                assert(!c.solved_by(k));
            }
        },
    }
}

/// A challenge is read from the members of its `parameters` that are named like its
/// parts; nonce, salt and prefix are hexadecimal, and the key length is 32 when it is not
/// given. Without nonce, salt, prefix or cost it is none.
pub proof fn law_challenge_fields(
    v: JsonModel,
    p: JsonModel,
    nonce: Seq<u8>,
    salt: Seq<u8>,
    prefix: Seq<u8>,
    cost: JsonModel,
    c: u32,
    length: JsonModel,
    n: u64,
)
    requires
        json::holds(v, "parameters"@, p),
        json::counts(cost, c as u64),
        json::counts(length, n),
    ensures
        json::holds(p, "nonce"@, JsonModel::Text(hex_text(nonce))) && json::holds(
            p,
            "salt"@,
            JsonModel::Text(hex_text(salt)),
        ) && json::holds(p, "keyPrefix"@, JsonModel::Text(hex_text(prefix))) && json::holds(
            p,
            "cost"@,
            cost,
        ) ==> (challenge_of(v) matches Some(read) && {
            &&& read.nonce == nonce
            &&& read.salt == salt
            &&& read.prefix == prefix
            &&& read.cost == c
            &&& json::holds(p, "keyLength"@, length) ==> read.key_length == n
            &&& json::lacks(p, "keyLength"@) ==> read.key_length == 32
        }),
        json::lacks(p, "nonce"@) || json::lacks(p, "salt"@) || json::lacks(p, "keyPrefix"@)
            || json::lacks(p, "cost"@) ==> challenge_of(v) is None,
{
    json::law_members_are_found(v, "parameters"@, p);
    json::law_members_are_found(p, "nonce"@, JsonModel::Text(hex_text(nonce)));
    json::law_members_are_found(p, "salt"@, JsonModel::Text(hex_text(salt)));
    json::law_members_are_found(p, "keyPrefix"@, JsonModel::Text(hex_text(prefix)));
    json::law_members_are_found(p, "cost"@, cost);
    json::law_members_are_found(p, "keyLength"@, length);
    law_hex_round_trip(nonce);
    law_hex_round_trip(salt);
    law_hex_round_trip(prefix);
}

/// The answer echoes the challenge as it came, and holds the counter and the key in
/// hexadecimal, each under its name.
pub proof fn law_answer_fields(
    p: JsonModel,
    signature: JsonModel,
    counter: u32,
    key: Seq<u8>,
)
    requires
        json::ordered(p),
        json::ordered(signature),
    ensures
        ({
            let a = answer(p, signature, counter, key);
            let echoed = json::at(a, "challenge"@);
            let solution = json::at(a, "solution"@);
            &&& json::ordered(a)
            &&& json::at(echoed, "parameters"@) == p
            &&& json::at(echoed, "signature"@) == signature
            &&& json::at(solution, "counter"@) == JsonModel::Number(
                json::unsigned_parts(counter as u64),
            )
            &&& json::at(solution, "derivedKey"@) matches JsonModel::Text(hex)
            &&& hex_bytes(hex) == Some(key)
        }),
{
    let a = answer(p, signature, counter, key);
    lemma_answer_ordered(p, signature, counter, key);
    let m = a->Object_0;
    assert(m[0] == ("challenge"@, m[0].1) && m[1] == ("solution"@, m[1].1));
    json::law_members_are_found(a, "challenge"@, m[0].1);
    json::law_members_are_found(a, "solution"@, m[1].1);
    assert(json::ordered(m[0].1) && json::ordered(m[1].1));
    let e = m[0].1->Object_0;
    let s = m[1].1->Object_0;
    assert(e[0] == ("parameters"@, p) && e[1] == ("signature"@, signature));
    assert(s[0] == ("counter"@, s[0].1) && s[1] == ("derivedKey"@, s[1].1));
    json::law_members_are_found(m[0].1, "parameters"@, p);
    json::law_members_are_found(m[0].1, "signature"@, signature);
    json::law_members_are_found(m[1].1, "counter"@, s[0].1);
    json::law_members_are_found(m[1].1, "derivedKey"@, s[1].1);
    law_hex_round_trip(key);
}

/// A challenge that can be worked on and has a solution is answered with the base64 text
/// of its answer: the challenge's own parameters and signature, and the smallest counter
/// with its key.
pub proof fn law_answered(
    v: JsonModel,
    p: JsonModel,
    signature: JsonModel,
    c: ChallengeModel,
    n: u32,
)
    requires
        json::holds(v, "parameters"@, p),
        json::holds(v, "signature"@, signature),
        challenge_of(v) == Some(c),
        c.workable(),
        c.solution(0) == Some(n),
    ensures
        answered(v) matches Some(s) ==> s == codec::base64_text(
            vstd::utf8::encode_utf8(json::json_text(answer(p, signature, n, c.key(n)))),
        ),
        codec::encodable(
            vstd::utf8::encode_utf8(json::json_text(answer(p, signature, n, c.key(n)))).len(),
        ) ==> answered(v) is Some,
{
    json::law_members_are_found(v, "parameters"@, p);
    json::law_members_are_found(v, "signature"@, signature);
}

/// Rotating takes each letter to the one thirteen further on, going round at the end of
/// the alphabet and keeping its case.
pub proof fn law_rot13_letters(i: int)
    requires
        0 <= i < 26,
    ensures
        rot13_char("abcdefghijklmnopqrstuvwxyz"@[i]) == "nopqrstuvwxyzabcdefghijklm"@[i],
        rot13_char("ABCDEFGHIJKLMNOPQRSTUVWXYZ"@[i]) == "NOPQRSTUVWXYZABCDEFGHIJKLM"@[i],
{
    reveal_strlit("abcdefghijklmnopqrstuvwxyz");
    reveal_strlit("nopqrstuvwxyzabcdefghijklm");
    reveal_strlit("ABCDEFGHIJKLMNOPQRSTUVWXYZ");
    reveal_strlit("NOPQRSTUVWXYZABCDEFGHIJKLM");
    assert(i == 0 || i == 1 || i == 2 || i == 3 || i == 4 || i == 5 || i == 6 || i == 7 || i == 8
        || i == 9 || i == 10 || i == 11 || i == 12 || i == 13 || i == 14 || i == 15 || i == 16
        || i == 17 || i == 18 || i == 19 || i == 20 || i == 21 || i == 22 || i == 23 || i == 24
        || i == 25);
}

/// How a payload is made: the JSON in base64, backwards and with every byte made larger
/// by three, in base64 again, rotated. Decoding such a payload gives the JSON back,
/// whatever white space stands around it.
pub proof fn law_decoded(json: Seq<char>, inner: Seq<u8>, shifted: Seq<u8>, outer: Seq<char>)
    requires
        codec::base64_bytes(inner) == Some(vstd::utf8::encode_utf8(json)),
        shifted.len() == inner.len(),
        forall|i: int|
            0 <= i < inner.len() ==> #[trigger] shifted[i] == (inner[inner.len() - 1 - i] + 3) % 256,
        codec::base64_bytes(vstd::utf8::encode_utf8(outer)) == Some(shifted),
        forall|i: int| 0 <= i < outer.len() ==> codec::base64_char(#[trigger] outer[i]),
    ensures
        decoded(rot13(outer)) == Some(json),
{
    let payload = rot13(outer);
    assert forall|k: int| 0 <= k < payload.len() implies !text::white(#[trigger] payload[k]) by {
        assert(codec::base64_char(outer[k]));
    }
    lemma_trim_nothing(payload);
    law_rot13_twice(outer);
    lemma_base64_is_not_junk(outer);
    assert(minus_three(shifted).reverse() =~= inner) by {
        assert forall|i: int| 0 <= i < inner.len() implies minus_three(shifted).reverse()[i]
            == inner[i] by {
            assert(shifted[inner.len() - 1 - i] == (inner[i] + 3) % 256);
        }
    }
}

/// The stream of decoded JSON is its `source`; without one it is its
/// `direct_access_url`, and without either there is none.
pub proof fn law_stream_fields(v: JsonModel, s: Seq<char>)
    ensures
        json::holds(v, "source"@, JsonModel::Text(s)) ==> stream_in(v) == Some(s),
        json::lacks(v, "source"@) && json::holds(v, "direct_access_url"@, JsonModel::Text(s))
            ==> stream_in(v) == Some(s),
        json::lacks(v, "source"@) && json::lacks(v, "direct_access_url"@) ==> stream_in(v) is None,
{
    json::law_members_are_found(v, "source"@, JsonModel::Text(s));
    json::law_members_are_found(v, "direct_access_url"@, JsonModel::Text(s));
}

/// What a marker introduces goes up to the next double quote.
pub proof fn law_quoted_behind(
    before: Seq<char>,
    marker: Seq<char>,
    value: Seq<char>,
    behind: Seq<char>,
)
    requires
        !value.contains('"'),
        ({
            let page = before + marker + value + seq!['"'] + behind;
            forall|i: int|
                0 <= i < before.len() ==> !(#[trigger] text::occurs_at(page, marker, i))
        }),
    ensures
        quoted_behind(before + marker + value + seq!['"'] + behind, marker) == Some(value),
{
    let page = before + marker + value + seq!['"'] + behind;
    let at: int = before.len() as int;
    assert(page.subrange(at, at + marker.len()) =~= marker);
    assert(text::occurs_at(page, marker, at));
    text::lemma_find_from(page, marker, 0);
    assert(text::find(page, marker) == Some(at));
    let rest = resolver::tail(page, at + marker.len());
    let set = seq!['"'];
    assert(set[0] == '"');
    assert forall|i: int| 0 <= i < value.len() implies !set.contains(#[trigger] rest[i]) by {
        assert(rest[i] == value[i]);
        assert(value.contains(value[i]));
    }
    assert(rest[value.len() as int] == '"');
    resolver::lemma_first_of(rest, set, 0, value.len() as int);
    assert(rest.take(value.len() as int) =~= value);
}

/// A page is a gate exactly when it shows the widget and has the three fields: where the
/// form goes, its token, and where the challenge is.
pub proof fn law_gate(html: Seq<char>, action: Seq<char>, token: Seq<char>, challenge: Seq<char>)
    ensures
        gate_fields(html) == Some((action, token, challenge)) <==> text::contains(
            html,
            "altcha-widget"@,
        ) && quoted_behind(html, "action=\""@) == Some(action) && quoted_behind(
            html,
            "name=\"_token\" value=\""@,
        ) == Some(token) && quoted_behind(html, "challenge=\""@) == Some(challenge),
        !text::contains(html, "altcha-widget"@) ==> gate_fields(html) is None,
{
}

/// The payload of a page is the text of its first JSON script, trimmed.
pub proof fn law_json_script(
    before: Seq<char>,
    attributes: Seq<char>,
    body: Seq<char>,
    behind: Seq<char>,
)
    requires
        !attributes.contains('>'),
        ({
            let page = before + "application/json"@ + attributes + ">"@ + body + "</script>"@
                + behind;
            let start = before.len() + "application/json"@.len() + attributes.len() + 1;
            &&& forall|i: int|
                0 <= i < before.len() ==> !(#[trigger] text::occurs_at(
                    page,
                    "application/json"@,
                    i,
                ))
            &&& forall|i: int|
                start <= i < start + body.len() ==> !(#[trigger] text::occurs_at(
                    page,
                    "</script>"@,
                    i,
                ))
        }),
    ensures
        json_script(
            before + "application/json"@ + attributes + ">"@ + body + "</script>"@ + behind,
        ) == Some(text::trim(body)),
{
    reveal_strlit("application/json");
    reveal_strlit(">");
    reveal_strlit("</script>");
    let kind = "application/json"@;
    let page = before + kind + attributes + ">"@ + body + "</script>"@ + behind;
    let at: int = before.len() as int;
    let tag: int = at + kind.len() + attributes.len();
    let end: int = tag + 1 + body.len();
    assert(page.subrange(at, at + kind.len()) =~= kind);
    text::lemma_find_from(page, kind, 0);
    assert(text::occurs_at(page, kind, at));
    assert(text::find(page, kind) == Some(at));
    assert(page.subrange(tag, tag + 1) =~= ">"@);
    assert(text::occurs_at(page, ">"@, tag));
    text::lemma_find_from(page, ">"@, at);
    assert forall|i: int| at <= i < tag implies !(#[trigger] text::occurs_at(page, ">"@, i)) by {
        if text::occurs_at(page, ">"@, i) {
            assert(page.subrange(i, i + 1)[0] == page[i]);
            assert(page[i] == '>');
            if i < at + kind.len() {
                assert(page[i] == kind[i - at]);
            } else {
                let k = i - at - kind.len();
                assert(page[i] == attributes[k]);
                assert(attributes.contains(attributes[k]));
            }
        }
    }
    assert(text::find_from(page, ">"@, at) == Some(tag));
    assert(page.subrange(end, end + 9) =~= "</script>"@);
    assert(text::occurs_at(page, "</script>"@, end));
    text::lemma_find_from(page, "</script>"@, tag + 1);
    assert(text::find_from(page, "</script>"@, tag + 1) == Some(end));
    assert(page.subrange(tag + 1, end) =~= body);
}

/// The payload is the first of a list of texts; any other list, and any other value, has
/// none.
pub proof fn law_first_text(items: Seq<JsonModel>, s: Seq<char>, v: JsonModel)
    ensures
        items.len() > 0 && items[0] == JsonModel::Text(s) && (forall|i: int|
            0 <= i < items.len() ==> (#[trigger] items[i]) is Text) ==> first_text(
            JsonModel::List(items),
        ) == Some(s),
        (exists|i: int| 0 <= i < items.len() && !((#[trigger] items[i]) is Text)) ==> first_text(
            JsonModel::List(items),
        ) is None,
        items.len() == 0 ==> first_text(JsonModel::List(items)) is None,
        !(v is List) ==> first_text(v) is None,
{
}

/// The stream of a page is that of the JSON which the payload of its script decodes to.
pub proof fn law_page_stream(
    html: Seq<char>,
    raw: Seq<char>,
    list: JsonModel,
    payload: Seq<char>,
    inner: Seq<char>,
    v: JsonModel,
)
    requires
        json_script(html) == Some(raw),
        json::json_parsed(text::trim(raw)) == Ok::<JsonModel, Seq<char>>(list),
        first_text(list) == Some(payload),
        decoded(payload) == Some(inner),
        json::json_parsed(inner) == Ok::<JsonModel, Seq<char>>(v),
    ensures
        page_stream(html) == stream_in(v),
{
}

/// A mirror that is found begins with an address behind a quote, leads to an embed page,
/// and holds none of the characters that end one; one is found whenever such an address
/// stands anywhere.
pub proof fn law_mirror(s: Seq<char>, from: int)
    requires
        0 <= from <= s.len(),
    ensures
        mirror_from(s, from) matches Some(u) ==> exists|k: int|
            from <= k < s.len() && #[trigger] leads(s, k) && u == resolver::up_to_any(
                resolver::tail(s, k),
                mirror_ends(),
            ) && (forall|j: int| from <= j < k ==> !(#[trigger] leads(s, j))),
        mirror_from(s, from) is None ==> forall|k: int|
            from <= k < s.len() ==> !(#[trigger] leads(s, k)),
    decreases s.len() - from,
{
    if from < s.len() {
        if mirror_at(s, from) is Some {
            assert(leads(s, from));
        } else {
            law_mirror(s, from + 1);
            assert(!leads(s, from));
            if let Some(u) = mirror_from(s, from) {
                let k = choose|k: int|
                    from + 1 <= k < s.len() && #[trigger] leads(s, k) && u == resolver::up_to_any(
                        resolver::tail(s, k),
                        mirror_ends(),
                    ) && (forall|j: int| from + 1 <= j < k ==> !(#[trigger] leads(s, j)));
                assert(leads(s, k));
            }
        }
    }
}

/// An address to an embed page begins at position `i`, behind a quote.
pub open spec fn leads(s: Seq<char>, i: int) -> bool {
    let address = resolver::up_to_any(resolver::tail(s, i), mirror_ends());
    &&& 0 < i
    &&& s[i - 1] == '\'' || s[i - 1] == '"'
    &&& text::occurs_at(s, "http://"@, i) || text::occurs_at(s, "https://"@, i)
    &&& exists|k: int| text::occurs_at(address, "/e/"@, k)
}

/// The characters that end an address in a stub page.
pub proof fn law_mirror_ends(c: char)
    ensures
        mirror_ends().contains(c) <==> c == '"' || c == '\'' || c == ' ' || c == '\\' || c == '\n'
            || c == '\r' || c == ')' || c == '<',
{
    let e = mirror_ends();
    assert(e[0] == '\'' && e[1] == '"' && e[2] == ' ' && e[3] == '\\' && e[4] == '\n' && e[5] == '\r'
        && e[6] == '<' && e[7] == ')');
}

/// A challenge of ordinary size can be worked on, and one without any cost cannot.
pub proof fn law_workable(c: ChallengeModel)
    ensures
        c.cost == 0 ==> !c.workable(),
        c.cost > 0 && 0 < c.key_length <= 0x7fff_ffff && c.salt.len() <= 0xffff_ffff
            && c.nonce.len() <= 0xffff_ffff ==> c.workable(),
{
}

/// Answers a challenge.
pub fn answer_challenge(v: &Json) -> (r: Option<String>)
    requires
        json::ordered(v@),
    ensures
        text::opt_text(r) == answered(v@),
{
    let c = match challenge_from_json(v) {
        Some(c) => c,
        None => return None,
    };
    let signature = match v.get("signature") {
        Some(s) => s,
        None => return None,
    };
    if !is_workable(&c) {
        return None;
    }
    let (counter, key) = match solve(&c) {
        Some(found) => found,
        None => return None,
    };
    match v.get("parameters") {
        Some(p) => {
            let body = answer_text(p, signature, counter, &key);
            let bytes = body.as_str().as_bytes();
            if codec::can_encode(bytes.len()) {
                Some(codec::encode_base64(bytes))
            } else {
                None
            }
        },
        None => {
            assert(challenge_of(v@) is None);
            None
        },
    }
}

/// Solve VOE's "confirm you're human" PBKDF2 proof-of-work from the challenge JSON,
/// returning the base64 `altcha` form value to POST back. The PoW: find the smallest
/// counter where PBKDF2-HMAC-SHA256(`nonce ++ big-endian u32(counter)`, `salt`,
/// `cost` iterations, `keyLength` bytes) begins with `keyPrefix`. keyPrefix is one
/// byte ("00"), so ~256 tries typical. Returns `None` on malformed JSON, on sizes that
/// cannot be worked with, or if no solution is found within a safety bound.
pub fn voe_solve_challenge(challenge_json: &str) -> (r: Option<String>)
    ensures
        match said(challenge_json@) {
            Some(v) => text::opt_text(r) == answered(v),
            None => r is None,
        },
{
    match Json::parse(challenge_json) {
        Ok(v) => answer_challenge(&v),
        Err(_) => None,
    }
}

} // verus!
