//! Source resolution: turning an episode/embed page into a concrete, validated
//! playable stream. Kept separate from providers so resolution logic (embeds,
//! token dances, quality enumeration) can be reused and tested in isolation.
//!
//! `validate_stream_url` is the single choke point every URL must pass before it is
//! handed to mpv. mpv is always spawned with an argument array (never a shell), so
//! what is left is protocol/host abuse — rejected here.

pub mod junk;
pub mod packer;
pub mod voe;

pub use self::packer::unpack_packed_js;
pub use self::voe::{
    voe_decode, voe_encode, voe_gate, voe_mirror_target, voe_solve_challenge, voe_stream_url,
    VoeGate,
};

use crate::errors::{Error, Fault, Result};
use crate::text;
use vstd::prelude::*;
use vstd::slice::slice_subrange;

verus! {

/// What the choke point looks at in a parsed URL.
#[derive(Debug)]
pub struct UrlParts {
    pub scheme: String,
    pub has_host: bool,
    /// The normalised URL.
    pub text: String,
}

/// What the choke point looks at in a parsed URL.
pub ghost struct UrlModel {
    pub scheme: Seq<char>,
    pub has_host: bool,
    pub text: Seq<char>,
}

impl View for UrlParts {
    type V = UrlModel;

    open spec fn view(&self) -> UrlModel {
        UrlModel { scheme: self.scheme@, has_host: self.has_host, text: self.text@ }
    }
}

/// The parts of an absolute URL; nothing when the text is none.
pub uninterp spec fn url_parsed(s: Seq<char>) -> Option<UrlModel>;

/// `url::Url::parse` with `scheme`, `host_str` and `Display` of the result. It depends
/// on the text alone, and the text of a web URL with a host parses to the same URL again,
/// an invariant of `Url`; what is a URL and how it is normalised is left unstated.
#[verifier::external_body]
fn parse_url(s: &str) -> (r: Option<UrlParts>)
    ensures
        match r {
            Some(p) => url_parsed(s@) == Some(p@) && (allowed_scheme(p@.scheme) && p@.has_host
                ==> url_parsed(p@.text) == Some(p@)),
            None => url_parsed(s@) is None,
        },
{
    let url = url::Url::parse(s).ok()?;
    Some(
        UrlParts {
            scheme: url.scheme().to_string(),
            has_host: url.host_str().is_some(),
            text: url.to_string(),
        },
    )
}

/// Protocols we are willing to hand to mpv. Anything else (file over a remote
/// resolve, `javascript:`, `data:`, etc.) is rejected.
pub open spec fn allowed_scheme(s: Seq<char>) -> bool {
    s == "http"@ || s == "https"@
}

/// The URL that mpv may get, or why it gets none.
pub open spec fn stream_url(raw: Seq<char>, parts: Option<UrlModel>) -> std::result::Result<
    Seq<char>,
    Fault,
> {
    match parts {
        None => Err(Fault::InvalidUrl(raw)),
        Some(p) => if !allowed_scheme(p.scheme) {
            Err(Fault::InvalidUrl("scheme `"@ + p.scheme + "` is not allowed"@))
        } else if !p.has_host {
            Err(Fault::InvalidUrl("missing host"@))
        } else {
            Ok(p.text)
        },
    }
}

/// Decides on a parsed URL whether mpv may get it.
pub fn check_stream_url(raw: &str, parts: Option<UrlParts>) -> (r: Result<String>)
    ensures
        match r {
            Ok(s) => stream_url(
                raw@,
                match parts {
                    Some(p) => Some(p@),
                    None => None,
                },
            ) == Ok::<Seq<char>, Fault>(s@),
            Err(e) => stream_url(
                raw@,
                match parts {
                    Some(p) => Some(p@),
                    None => None,
                },
            ) == Err::<Seq<char>, Fault>(e@),
        },
{
    let parts = match parts {
        Some(p) => p,
        None => return Err(Error::InvalidUrl(raw.to_string())),
    };
    if !(text::str_same(parts.scheme.as_str(), "http") || text::str_same(
        parts.scheme.as_str(),
        "https",
    )) {
        let mut m = "scheme `".to_string();
        m.append(parts.scheme.as_str());
        m.append("` is not allowed");
        return Err(Error::InvalidUrl(m));
    }
    if !parts.has_host {
        return Err(Error::InvalidUrl("missing host".to_string()));
    }
    Ok(parts.text)
}

/// Validate a stream URL before playback. Returns the normalized URL string, which
/// validates to itself.
pub fn validate_stream_url(raw: &str) -> (r: Result<String>)
    ensures
        match r {
            Ok(s) => {
                &&& stream_url(raw@, url_parsed(raw@)) == Ok::<Seq<char>, Fault>(s@)
                &&& stream_url(s@, url_parsed(s@)) == Ok::<Seq<char>, Fault>(s@)
            },
            Err(e) => stream_url(raw@, url_parsed(raw@)) == Err::<Seq<char>, Fault>(e@),
        },
{
    check_stream_url(raw, parse_url(raw))
}

/// Only an http or https URL with a host passes the choke point, and every such URL does.
pub proof fn law_only_web_urls_pass(raw: Seq<char>, parts: Option<UrlModel>)
    ensures
        stream_url(raw, parts) is Ok <==> (parts matches Some(p) && allowed_scheme(p.scheme)
            && p.has_host),
{
}

/// Host of the sibnet video CDN; direct stream paths (`/v/…`) are relative to it,
/// and it must be sent as the `Referer` or the CDN 403s.
pub const SIBNET_BASE: &'static str = "https://video.sibnet.ru";

/// `s` from position `i` on.
pub open spec fn tail(s: Seq<char>, i: int) -> Seq<char> {
    s.subrange(i, s.len() as int)
}

/// The string literal around the position `at`: from behind the quote before it up to
/// the next quote of the same sort.
pub open spec fn literal_around(s: Seq<char>, at: int) -> Option<Seq<char>> {
    match text::rfind_any_to(s.take(at), seq!['"', '\''], at - 1) {
        Some(q) => match text::find_any_from(tail(s, q + 1), seq![s[q]], 0) {
            Some(end) => Some(tail(s, q + 1).take(end)),
            None => None,
        },
        None => None,
    }
}

/// The stream address that a path stands for.
pub open spec fn sibnet_address(path: Seq<char>) -> Option<Seq<char>> {
    if !text::contains(path, "/v/"@) {
        None
    } else if text::starts_with(path, "http://"@) || text::starts_with(path, "https://"@) {
        Some(path)
    } else if text::starts_with(path, "/"@) {
        Some(SIBNET_BASE@ + path)
    } else {
        None
    }
}

/// The direct video URL of a sibnet embed page: the first string literal that holds a
/// `/v/…` path.
pub open spec fn sibnet_url(html: Seq<char>) -> Option<Seq<char>> {
    match text::find(html, "/v/"@) {
        Some(anchor) => match literal_around(html, anchor) {
            Some(s) => sibnet_address(text::trim(s)),
            None => None,
        },
        None => None,
    }
}

/// Extract the direct video URL from a sibnet `shell.php` embed page.
///
/// The page's player is initialised as `player.src([{src: "/v/xxxx/nnnn.mp4", …}])`
/// (occasionally an absolute URL). We take the first `/v/…` path (or absolute
/// http(s) `…/v/…` URL) and resolve it against [`SIBNET_BASE`]. The HTTP fetch +
/// `Referer` handling lives in the async layer.
pub fn sibnet_direct_url(html: &str) -> (r: Option<String>)
    ensures
        text::opt_text(r) == sibnet_url(html@),
{
    let s = text::chars_of(html);
    let marker = text::chars_of("/v/");
    let anchor: usize = match text::position(s.as_slice(), marker.as_slice()) {
        Some(i) => i,
        None => return None,
    };
    // Walk back to the opening quote of the string literal.
    let before = slice_subrange(s.as_slice(), 0, anchor);
    assert(before@ =~= s@.take(anchor as int));
    let mut quotes: Vec<char> = Vec::new();
    quotes.push('"');
    quotes.push('\'');
    assert(quotes@ =~= seq!['"', '\'']);
    let quote: usize = match text::last_position_any(before, quotes.as_slice()) {
        Some(i) => i,
        None => return None,
    };
    let mut same: Vec<char> = Vec::new();
    same.push(s[quote]);
    assert(same@ =~= seq![s@[quote as int]]);
    let rest = slice_subrange(s.as_slice(), quote + 1, s.len());
    let end: usize = match text::position_any_from(rest, same.as_slice(), 0) {
        Some(i) => i,
        None => return None,
    };
    let literal = slice_subrange(rest, 0, end);
    assert(literal@ =~= tail(s@, quote + 1).take(end as int));
    let path = text::trimmed(literal);
    if !text::has(path, marker.as_slice()) {
        return None;
    }
    let http = text::chars_of("http://");
    let https = text::chars_of("https://");
    let slash = text::chars_of("/");
    let found = text::string_of(path);
    if text::begins(path, http.as_slice()) || text::begins(path, https.as_slice()) {
        Some(found)
    } else if text::begins(path, slash.as_slice()) {
        Some(text::cat(SIBNET_BASE, found.as_str()))
    } else {
        None
    }
}

/// An `http://` or `https://` address begins at position `i`.
pub open spec fn address_at(s: Seq<char>, i: int) -> bool {
    text::occurs_at(s, "http://"@, i) || text::occurs_at(s, "https://"@, i)
}

/// The characters that end a URL in a page.
pub open spec fn media_ends() -> Seq<char> {
    seq!['"', '\'', ' ', '\\', '\n', '\r', ')', '<']
}

/// `s` up to the first of the characters `ends`.
pub open spec fn up_to_any(s: Seq<char>, ends: Seq<char>) -> Seq<char> {
    match text::find_any_from(s, ends, 0) {
        Some(i) => s.take(i),
        None => s,
    }
}

/// A text that holds a media extension.
pub open spec fn has_media(s: Seq<char>) -> bool {
    text::contains(s, ".m3u8"@) || text::contains(s, ".mp4"@)
}

/// The position of the first media extension in a text.
pub open spec fn first_media(s: Seq<char>) -> Option<int> {
    match (text::find(s, ".m3u8"@), text::find(s, ".mp4"@)) {
        (Some(a), Some(b)) => if a <= b {
            Some(a)
        } else {
            Some(b)
        },
        (Some(a), None) => Some(a),
        (None, b) => b,
    }
}

/// The text from position `i` up to the first end character.
pub open spec fn run_at(s: Seq<char>, i: int) -> Seq<char> {
    up_to_any(tail(s, i), media_ends())
}

/// The media URL that begins at position `i`, if one does: an address that, cut at the
/// first end character, holds a media extension, and that is the last address to begin
/// before the first one.
pub open spec fn media_at(s: Seq<char>, i: int) -> Option<Seq<char>> {
    match first_media(run_at(s, i)) {
        Some(ext) => if address_at(s, i) && forall|j: int|
            i < j < i + ext ==> !(#[trigger] address_at(s, j)) {
            Some(run_at(s, i))
        } else {
            None
        },
        None => None,
    }
}

/// The first media URL that begins at or behind `i`.
pub open spec fn media_from(s: Seq<char>, i: int) -> Option<Seq<char>>
    decreases s.len() - i,
{
    if i < 0 || i >= s.len() {
        None
    } else if media_at(s, i) is Some {
        media_at(s, i)
    } else {
        media_from(s, i + 1)
    }
}

/// The first media URL in a text.
pub open spec fn media_url(s: Seq<char>) -> Option<Seq<char>> {
    media_from(s, 0)
}

/// A media URL that is found begins with `http://` or `https://`, and holds a media
/// extension and none of the characters that end a URL; no other address begins in it
/// before its first extension. One is found whenever an address stands anywhere with a
/// media extension behind it before the next end character.
pub proof fn law_media_url(s: Seq<char>)
    ensures
        media_url(s) matches Some(u) ==> {
            &&& address_at(u, 0)
            &&& has_media(u)
            &&& forall|i: int| 0 <= i < u.len() ==> !media_ends().contains(#[trigger] u[i])
            &&& forall|j: int| 0 < j < first_media(u)->0 ==> !(#[trigger] address_at(u, j))
        },
        forall|i: int|
            0 <= i < s.len() && #[trigger] address_at(s, i) && has_media(run_at(s, i))
                ==> media_url(s) is Some,
{
    lemma_media_from(s, 0);
    if let Some(u) = media_url(s) {
        let k = choose|k: int| 0 <= k < s.len() && media_at(s, k) == Some(u);
        lemma_up_to_any(tail(s, k), media_ends());
        lemma_first_media(u);
        reveal_strlit("http://");
        reveal_strlit("https://");
        let p = if text::occurs_at(s, "http://"@, k) {
            "http://"@
        } else {
            "https://"@
        };
        assert forall|j: int| 0 <= j < p.len() implies tail(s, k)[j] == p[j] && !media_ends().contains(
            tail(s, k)[j],
        ) by {
            assert(s.subrange(k, k + p.len())[j] == p[j]);
        }
        assert(u.subrange(0, p.len() as int) =~= p);
        assert forall|j: int| 0 < j < first_media(u)->0 implies !(#[trigger] address_at(u, j)) by {
            assert(!address_at(s, k + j));
            lemma_occurs_in_run(s, k, "http://"@, j);
            lemma_occurs_in_run(s, k, "https://"@, j);
        }
    }
    assert forall|i: int|
        0 <= i < s.len() && #[trigger] address_at(s, i) && has_media(
            run_at(s, i),
        ) implies media_url(s) is Some by {
        lemma_media_reached(s, i);
    }
}

/// A text holds a media extension exactly where a first one is found, and there one stands.
proof fn lemma_first_media(s: Seq<char>)
    ensures
        has_media(s) <==> first_media(s) is Some,
        first_media(s) matches Some(e) ==> text::occurs_at(s, ".m3u8"@, e) || text::occurs_at(
            s,
            ".mp4"@,
            e,
        ),
{
    text::lemma_contains_is_found(s, ".m3u8"@);
    text::lemma_contains_is_found(s, ".mp4"@);
    text::lemma_find_from(s, ".m3u8"@, 0);
    text::lemma_find_from(s, ".mp4"@, 0);
}

/// What stands in a run stands in the text.
proof fn lemma_occurs_in_run(s: Seq<char>, i: int, p: Seq<char>, j: int)
    requires
        0 <= i <= s.len(),
    ensures
        text::occurs_at(run_at(s, i), p, j) ==> text::occurs_at(s, p, i + j),
{
    let run = run_at(s, i);
    lemma_up_to_any(tail(s, i), media_ends());
    if text::occurs_at(run, p, j) {
        assert(s.subrange(i + j, i + j + p.len()) =~= run.subrange(j, j + p.len()));
    }
}

/// Runs that begin at two positions without an end character between them end together.
proof fn lemma_same_end(s: Seq<char>, i: int, j: int)
    requires
        0 <= i <= j < i + run_at(s, i).len(),
        i <= s.len(),
    ensures
        j + run_at(s, j).len() == i + run_at(s, i).len(),
        run_at(s, j) == run_at(s, i).subrange(j - i, run_at(s, i).len() as int),
{
    let a = run_at(s, i);
    let b = run_at(s, j);
    lemma_up_to_any(tail(s, i), media_ends());
    lemma_up_to_any(tail(s, j), media_ends());
    let end = i + a.len();
    if j + b.len() < end {
        assert(a[j + b.len() - i] == s[j + b.len()]);
        assert(tail(s, j)[b.len() as int] == s[j + b.len()]);
    } else if j + b.len() > end {
        assert(b[end - j] == s[end]);
        assert(tail(s, i)[a.len() as int] == s[end]);
    }
    assert(b =~= a.subrange(j - i, a.len() as int));
}

/// Where an address has a media extension behind it in its run, a media URL begins there
/// or behind.
proof fn lemma_media_reached(s: Seq<char>, i: int)
    requires
        0 <= i < s.len(),
        address_at(s, i),
        has_media(run_at(s, i)),
    ensures
        media_url(s) is Some,
    decreases s.len() - i,
{
    let run = run_at(s, i);
    lemma_first_media(run);
    if media_at(s, i) is None {
        let ext = first_media(run)->0;
        let j = choose|j: int| i < j < i + ext && #[trigger] address_at(s, j);
        reveal_strlit(".m3u8");
        reveal_strlit(".mp4");
        let p = if text::occurs_at(run, ".m3u8"@, ext) {
            ".m3u8"@
        } else {
            ".mp4"@
        };
        lemma_up_to_any(tail(s, i), media_ends());
        lemma_same_end(s, i, j);
        let at = i + ext - j;
        assert(run_at(s, j).subrange(at, at + p.len()) =~= run.subrange(ext, ext + p.len()));
        assert(text::occurs_at(run_at(s, j), p, at));
        lemma_media_reached(s, j);
    } else {
        lemma_media_from(s, 0);
    }
}

proof fn lemma_media_from(s: Seq<char>, i: int)
    requires
        0 <= i,
    ensures
        media_from(s, i) matches Some(u) ==> exists|k: int|
            i <= k < s.len() && #[trigger] media_at(s, k) == Some(u),
        forall|k: int|
            i <= k < s.len() && (#[trigger] media_at(s, k)) is Some ==> media_from(s, i) is Some,
    decreases s.len() - i,
{
    if i < s.len() && media_at(s, i) is None {
        lemma_media_from(s, i + 1);
    }
}

/// A text that is cut at the first end character holds none, and reaches as far as
/// there is none.
proof fn lemma_up_to_any(s: Seq<char>, ends: Seq<char>)
    ensures
        up_to_any(s, ends) == s.take(up_to_any(s, ends).len() as int),
        up_to_any(s, ends).len() <= s.len(),
        forall|i: int|
            0 <= i < up_to_any(s, ends).len() ==> !ends.contains(#[trigger] up_to_any(s, ends)[i]),
        up_to_any(s, ends).len() < s.len() ==> ends.contains(s[up_to_any(s, ends).len() as int]),
{
    lemma_find_any(s, ends, 0);
    assert(s.take(s.len() as int) =~= s);
}

/// A text is cut where the first end character stands.
pub proof fn lemma_cut(s: Seq<char>, more: Seq<char>, ends: Seq<char>)
    requires
        forall|i: int| 0 <= i < s.len() ==> !ends.contains(#[trigger] s[i]),
        more.len() > 0 ==> ends.contains(more[0]),
    ensures
        up_to_any(s + more, ends) == s,
{
    let whole = s + more;
    lemma_up_to_any(whole, ends);
    let cut = up_to_any(whole, ends);
    if cut.len() < s.len() {
        assert(whole[cut.len() as int] == s[cut.len() as int]);
    } else if cut.len() > s.len() {
        assert(cut[s.len() as int] == more[0]);
    }
    assert(cut =~= s);
}

proof fn lemma_find_any(s: Seq<char>, set: Seq<char>, i: int)
    requires
        0 <= i <= s.len(),
    ensures
        match text::find_any_from(s, set, i) {
            Some(k) => i <= k < s.len() && set.contains(s[k]) && forall|j: int|
                i <= j < k ==> !set.contains(#[trigger] s[j]),
            None => forall|j: int| i <= j < s.len() ==> !set.contains(#[trigger] s[j]),
        },
    decreases s.len() - i,
{
    if i < s.len() && !set.contains(s[i]) {
        lemma_find_any(s, set, i + 1);
    }
}

/// `s` up to the first of the characters `ends`.
pub(crate) fn cut_at_any<'a>(s: &'a [char], ends: &[char]) -> (r: &'a [char])
    ensures
        r@ == up_to_any(s@, ends@),
{
    match text::position_any_from(s, ends, 0) {
        Some(i) => {
            let r = slice_subrange(s, 0, i);
            assert(r@ =~= s@.take(i as int));
            r
        },
        None => s,
    }
}

/// Whether an address begins at position `i`.
fn is_address(s: &[char], i: usize) -> (r: bool)
    ensures
        r == address_at(s@, i as int),
{
    let http = text::chars_of("http://");
    let https = text::chars_of("https://");
    text::matches_at(s, http.as_slice(), i) || text::matches_at(s, https.as_slice(), i)
}

/// Whether an address begins at or behind `from` and before `to`.
fn address_between(s: &[char], from: usize, to: usize) -> (r: bool)
    ensures
        r == exists|j: int| from <= j < to && #[trigger] address_at(s@, j),
{
    let mut j: usize = from;
    while j < to
        invariant
            from <= j,
            forall|k: int| from <= k < j ==> !(#[trigger] address_at(s@, k)),
            from <= to ==> j <= to,
        decreases to - j,
    {
        if is_address(s, j) {
            return true;
        }
        j = j + 1;
    }
    false
}

/// The position of the first media extension.
fn media_position(s: &[char]) -> (r: Option<usize>)
    ensures
        match r {
            Some(e) => first_media(s@) == Some(e as int) && e <= s@.len(),
            None => first_media(s@) is None,
        },
{
    let m3u8 = text::chars_of(".m3u8");
    let mp4 = text::chars_of(".mp4");
    match (text::position(s, m3u8.as_slice()), text::position(s, mp4.as_slice())) {
        (Some(a), Some(b)) => if a <= b {
            Some(a)
        } else {
            Some(b)
        },
        (Some(a), None) => Some(a),
        (None, b) => b,
    }
}

/// The first media URL among characters.
fn media_in(s: &[char]) -> (r: Option<String>)
    ensures
        text::opt_text(r) == media_url(s@),
{
    let mut ends: Vec<char> = Vec::new();
    ends.push('"');
    ends.push('\'');
    ends.push(' ');
    ends.push('\\');
    ends.push('\n');
    ends.push('\r');
    ends.push(')');
    ends.push('<');
    assert(ends@ =~= media_ends());
    let mut i: usize = 0;
    while i < s.len()
        invariant
            i <= s@.len(),
            ends@ == media_ends(),
            media_from(s@, i as int) == media_url(s@),
        decreases s@.len() - i,
    {
        if is_address(s, i) {
            let url = cut_at_any(slice_subrange(s, i, s.len()), ends.as_slice());
            proof {
                lemma_up_to_any(tail(s@, i as int), media_ends());
            }
            if let Some(ext) = media_position(url) {
                if !address_between(s, i + 1, i + ext) {
                    return Some(text::string_of(url));
                }
            }
        }
        i = i + 1;
    }
    None
}

/// The first `http(s)://….m3u8` or `….mp4` URL in `text` (e.g. a jwplayer
/// `sources:[{file:"…"}]`), or `None`. Used by the vidmoly extractor and as a
/// generic last resort. Stops the URL at the first quote/space/backslash, and begins it at
/// the last address before the extension.
pub fn find_media_url(text: &str) -> (r: Option<String>)
    ensures
        crate::text::opt_text(r) == media_url(text@),
{
    let s = crate::text::chars_of(text);
    media_in(s.as_slice())
}

/// The media URL of a player page: the plain one, else the one in packed JavaScript.
pub open spec fn player_url(html: Seq<char>) -> Option<Seq<char>> {
    match media_url(html) {
        Some(u) => Some(u),
        None => match text::find(html, "eval(function(p,a,c,k,e,d)"@) {
            Some(start) => match packer::unpacked(tail(html, start)) {
                Some(js) => media_url(js),
                None => None,
            },
            None => None,
        },
    }
}

/// A URL passes exactly when its scheme is `http` or `https` and it has a host, and what
/// passes is its normalised text; otherwise the error says what is wrong.
pub proof fn law_stream_url(raw: Seq<char>, p: UrlModel)
    ensures
        stream_url(raw, Some(p)) == Ok::<Seq<char>, Fault>(p.text) <==> (p.scheme == "http"@
            || p.scheme == "https"@) && p.has_host,
        stream_url(raw, None) == Err::<Seq<char>, Fault>(Fault::InvalidUrl(raw)),
        p.scheme != "http"@ && p.scheme != "https"@ ==> stream_url(raw, Some(p)) == Err::<
            Seq<char>,
            Fault,
        >(Fault::InvalidUrl("scheme `"@ + p.scheme + "` is not allowed"@)),
        (p.scheme == "http"@ || p.scheme == "https"@) && !p.has_host ==> stream_url(raw, Some(p))
            == Err::<Seq<char>, Fault>(Fault::InvalidUrl("missing host"@)),
{
}

/// A path of the video host is put behind its address, an absolute address stays, and
/// what is neither, or holds no video path, is no stream.
pub proof fn law_sibnet_address(path: Seq<char>)
    ensures
        text::contains(path, "/v/"@) && address_at(path, 0) ==> sibnet_address(path) == Some(path),
        text::contains(path, "/v/"@) && text::starts_with(path, "/"@) ==> sibnet_address(path)
            == Some("https://video.sibnet.ru"@ + path),
        !text::contains(path, "/v/"@) ==> sibnet_address(path) is None,
        !address_at(path, 0) && !text::starts_with(path, "/"@) ==> sibnet_address(path) is None,
{
    reveal_strlit("/");
    reveal_strlit("http://");
    reveal_strlit("https://");
    if text::starts_with(path, "/"@) {
        assert(path.subrange(0, 1)[0] == path[0]);
        assert(path[0] == '/');
        if text::starts_with(path, "http://"@) {
            assert(path.subrange(0, 7)[0] == path[0]);
        }
        if text::starts_with(path, "https://"@) {
            assert(path.subrange(0, 8)[0] == path[0]);
        }
    }
}

/// The stream of a page is in the quoted text around its first video path, whichever
/// quotes stand around it and whatever stands before and behind.
pub proof fn law_sibnet_page(
    before: Seq<char>,
    quote: char,
    literal: Seq<char>,
    behind: Seq<char>,
    at: int,
)
    requires
        quote == '"' || quote == '\'',
        forall|i: int| 0 <= i < literal.len() ==> #[trigger] literal[i] != '"' && literal[i] != '\'',
        text::occurs_at(literal, "/v/"@, at),
        ({
            let page = before.push(quote) + literal + seq![quote] + behind;
            forall|i: int|
                0 <= i < before.len() + 1 + at ==> !(#[trigger] text::occurs_at(page, "/v/"@, i))
        }),
    ensures
        sibnet_url(before.push(quote) + literal + seq![quote] + behind) == sibnet_address(
            text::trim(literal),
        ),
{
    reveal_strlit("/v/");
    let page = before.push(quote) + literal + seq![quote] + behind;
    let q: int = before.len() as int;
    let anchor = q + 1 + at;
    assert(page.subrange(anchor, anchor + 3) =~= literal.subrange(at, at + 3));
    assert(text::occurs_at(page, "/v/"@, anchor));
    text::lemma_find_from(page, "/v/"@, 0);
    assert(text::find(page, "/v/"@) == Some(anchor));
    let quotes = seq!['"', '\''];
    assert(quotes[0] == '"' && quotes[1] == '\'');
    let head = page.take(anchor);
    assert forall|i: int| q < i < anchor implies !quotes.contains(#[trigger] head[i]) by {
        assert(head[i] == literal[i - q - 1]);
    }
    assert(head[q] == quote);
    lemma_last_of(head, quotes, q, anchor - 1);
    let rest = tail(page, q + 1);
    let same = seq![page[q]];
    assert(same[0] == quote);
    assert forall|i: int| 0 <= i < literal.len() implies !same.contains(#[trigger] rest[i]) by {
        assert(rest[i] == literal[i]);
    }
    assert(rest[literal.len() as int] == quote);
    lemma_first_of(rest, same, 0, literal.len() as int);
    assert(rest.take(literal.len() as int) =~= literal);
}

proof fn lemma_last_of(s: Seq<char>, set: Seq<char>, k: int, i: int)
    requires
        0 <= k <= i < s.len(),
        set.contains(s[k]),
        forall|j: int| k < j <= i ==> !set.contains(#[trigger] s[j]),
    ensures
        text::rfind_any_to(s, set, i) == Some(k),
    decreases i,
{
    if i > k {
        lemma_last_of(s, set, k, i - 1);
    }
}

/// The first of some characters is found where it stands.
pub proof fn lemma_first_of(s: Seq<char>, set: Seq<char>, i: int, k: int)
    requires
        0 <= i <= k < s.len(),
        set.contains(s[k]),
        forall|j: int| i <= j < k ==> !set.contains(#[trigger] s[j]),
    ensures
        text::find_any_from(s, set, i) == Some(k),
    decreases k - i,
{
    if i < k {
        lemma_first_of(s, set, i + 1, k);
    }
}

/// The stream of a player page is the media URL in it; without one, that in the code that
/// its packed script stands for.
pub proof fn law_player_page(before: Seq<char>, script: Seq<char>)
    requires
        ({
            let page = before + "eval(function(p,a,c,k,e,d)"@ + script;
            &&& media_url(page) is None
            &&& forall|i: int|
                0 <= i < before.len() ==> !(#[trigger] text::occurs_at(
                    page,
                    "eval(function(p,a,c,k,e,d)"@,
                    i,
                ))
        }),
    ensures
        player_url(before + "eval(function(p,a,c,k,e,d)"@ + script) == (match packer::unpacked(
            "eval(function(p,a,c,k,e,d)"@ + script,
        ) {
            Some(code) => media_url(code),
            None => None,
        }),
{
    let marker = "eval(function(p,a,c,k,e,d)"@;
    let page = before + marker + script;
    let at: int = before.len() as int;
    assert(page.subrange(at, at + marker.len()) =~= marker);
    assert(text::occurs_at(page, marker, at));
    text::lemma_find_from(page, marker, 0);
    assert(text::find(page, marker) == Some(at));
    assert(tail(page, at) =~= marker + script);
}

/// A media URL that stands in a page is taken before anything that is packed.
pub proof fn law_plain_comes_first(page: Seq<char>)
    ensures
        media_url(page) is Some ==> player_url(page) == media_url(page),
{
}

/// The characters that end a URL in a page are quotes, white space, backslashes, closing
/// brackets and the beginning of a tag.
pub proof fn law_media_ends(c: char)
    ensures
        media_ends().contains(c) <==> c == '"' || c == '\'' || c == ' ' || c == '\\' || c == '\n'
            || c == '\r' || c == ')' || c == '<',
{
    let e = media_ends();
    assert(e[0] == '"' && e[1] == '\'' && e[2] == ' ' && e[3] == '\\' && e[4] == '\n' && e[5] == '\r'
        && e[6] == ')' && e[7] == '<');
}

/// Direct media URL from a player embed page: the plain `sources:[{file:"…"}]` URL
/// if present, else the one hidden inside p.a.c.k.e.r-packed JS. Covers the many
/// jwplayer-style hosts (vidmoly, lulustream/luluvdo, smoothpre, vidzy, …).
pub fn packed_stream_url(html: &str) -> (r: Option<String>)
    ensures
        text::opt_text(r) == player_url(html@),
{
    if let Some(u) = find_media_url(html) {
        return Some(u);
    }
    let s = text::chars_of(html);
    let marker = text::chars_of("eval(function(p,a,c,k,e,d)");
    let start: usize = match text::position(s.as_slice(), marker.as_slice()) {
        Some(i) => i,
        None => return None,
    };
    match packer::unpack(slice_subrange(s.as_slice(), start, s.len())) {
        Some(js) => media_in(js.as_slice()),
        None => None,
    }
}

/// Kept for the vidmoly host wiring; same behaviour as [`packed_stream_url`].
pub fn vidmoly_stream_url(html: &str) -> (r: Option<String>)
    ensures
        text::opt_text(r) == player_url(html@),
{
    packed_stream_url(html)
}

} // verus!
