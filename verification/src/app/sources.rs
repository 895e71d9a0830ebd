//! The streams of an episode: which of them are playable, in which order they are
//! tried, and how an embed page becomes a direct stream.

use crate::errors::{Error, Fault, Result};
use crate::json;
use crate::json::{Json, JsonModel};
use crate::models;
use crate::models::{PlayableSource, SourceModel};
use crate::number;
use crate::order;
use crate::resolver;
use crate::text;
use vstd::prelude::*;

verus! {

/// A resolved, validated stream ready to hand to mpv. Kept so playback can be
/// respawned on resize without re-resolving.
///
/// `url` is a yt-dlp pre-resolved DIRECT stream (falling back to the validated
/// provider URL if pre-resolution failed). Both backends use it so mpv doesn't
/// run its own yt-dlp pass at launch — that internal pass is the 1-2 s startup
/// delay we avoid.
#[derive(Debug)]
pub struct PreparedSource {
    pub url: String,
    pub headers: Vec<(String, String)>,
    pub label: Option<String>,
}

/// What a [`PreparedSource`] holds.
#[verifier::ext_equal]
pub ghost struct PreparedModel {
    pub url: Seq<char>,
    pub headers: Seq<(Seq<char>, Seq<char>)>,
    pub label: Option<Seq<char>>,
}

impl View for PreparedSource {
    type V = PreparedModel;

    open spec fn view(&self) -> PreparedModel {
        PreparedModel {
            url: self.url@,
            headers: models::pairs(self.headers@),
            label: text::opt_text(self.label),
        }
    }
}

/// What a list of streams holds.
pub open spec fn prepared_models(v: Seq<PreparedSource>) -> Seq<PreparedModel> {
    v.map_values(|s: PreparedSource| s@)
}

/// A copy of a list of header pairs.
pub fn copy_pairs(headers: &Vec<(String, String)>) -> (r: Vec<(String, String)>)
    ensures
        r@ == headers@,
{
    let mut out: Vec<(String, String)> = Vec::new();
    let mut i: usize = 0;
    while i < headers.len()
        invariant
            i <= headers@.len(),
            out@ == headers@.take(i as int),
        decreases headers@.len() - i,
    {
        let pair = (headers[i].0.clone(), headers[i].1.clone());
        out.push(pair);
        assert(headers@.take(i + 1) =~= headers@.take(i as int).push(pair));
        i = i + 1;
    }
    assert(out@ =~= headers@);
    out
}

impl Clone for PreparedSource {
    fn clone(&self) -> (r: Self)
        ensures
            r@ == self@,
    {
        PreparedSource {
            url: self.url.clone(),
            headers: copy_pairs(&self.headers),
            label: models::clone_text(&self.label),
        }
    }
}

/// A copy of a list of streams.
pub fn copy_sources(sources: &Vec<PreparedSource>) -> (r: Vec<PreparedSource>)
    ensures
        prepared_models(r@) == prepared_models(sources@),
{
    let mut out: Vec<PreparedSource> = Vec::new();
    let mut i: usize = 0;
    while i < sources.len()
        invariant
            i <= sources@.len(),
            out@.len() == i,
            forall|k: int| 0 <= k < i ==> (#[trigger] out@[k])@ == sources@[k]@,
        decreases sources@.len() - i,
    {
        out.push(sources[i].clone());
        i = i + 1;
    }
    assert(prepared_models(out@) =~= prepared_models(sources@));
    out
}

/// A `file://` address: a local/dev affordance (used by the mock provider).
pub open spec fn local(url: Seq<char>) -> bool {
    text::starts_with(url, "file://"@)
}

/// The stream of a source, when mpv may get its URL: http/https URLs pass the scheme
/// allowlist, `file://` is accepted only as a local/dev affordance. `valid` is what
/// validating the URL gives.
pub open spec fn admitted(
    s: SourceModel,
    valid: std::result::Result<Seq<char>, Fault>,
) -> Option<PreparedModel> {
    if local(s.url) {
        Some(PreparedModel { url: s.url, headers: s.http_headers, label: s.label })
    } else {
        match valid {
            Ok(url) => Some(PreparedModel { url, headers: s.http_headers, label: s.label }),
            Err(_) => None,
        }
    }
}

/// What validating a URL gives.
pub open spec fn validated(url: Seq<char>) -> std::result::Result<Seq<char>, Fault> {
    resolver::stream_url(url, resolver::url_parsed(url))
}

/// The streams of the sources that mpv may get, in their order.
pub open spec fn all_admitted(sources: Seq<SourceModel>) -> Seq<PreparedModel>
    decreases sources.len(),
{
    if sources.len() == 0 {
        Seq::empty()
    } else {
        let head = all_admitted(sources.drop_last());
        match admitted(sources.last(), validated(sources.last().url)) {
            Some(p) => head.push(p),
            None => head,
        }
    }
}

/// Takes a source in under the outcome of validating its URL.
pub fn let_in(source: PlayableSource, valid: Result<String>) -> (r: Option<PreparedSource>)
    ensures
        ({
            let v = match valid {
                Ok(url) => Ok::<Seq<char>, Fault>(url@),
                Err(e) => Err(e@),
            };
            match r {
                Some(p) => admitted(source@, v) == Some(p@),
                None => admitted(source@, v) is None,
            }
        }),
{
    if text::str_begins(source.url.as_str(), "file://") {
        return Some(
            PreparedSource { url: source.url, headers: source.http_headers, label: source.label },
        );
    }
    match valid {
        Ok(url) => Some(
            PreparedSource { url, headers: source.http_headers, label: source.label },
        ),
        Err(_) => None,
    }
}

/// How reliable a host is, by the label of a source: the lower, the earlier it is tried.
pub open spec fn rank(label: Seq<char>) -> u8 {
    let l = text::ascii_lower(label);
    if text::contains(l, "voe"@) {
        3
    } else if text::contains(l, "vidmoly"@) {
        0
    } else if text::contains(l, "sibnet"@) {
        1
    } else {
        2
    }
}

/// Reliability rank for a source host (lower = try first). yt-dlp resolves
/// vidmoly (generic) and sibnet (dedicated extractor); voe has no working
/// extractor today, so it sorts last and is only reached via fallback.
pub fn host_rank(label: &str) -> (r: u8)
    ensures
        r == rank(label@),
{
    let l = text::chars_of(label);
    let l = text::ascii_lowered(l.as_slice());
    let voe = text::chars_of("voe");
    let vidmoly = text::chars_of("vidmoly");
    let sibnet = text::chars_of("sibnet");
    if text::has(l.as_slice(), voe.as_slice()) {
        3
    } else if text::has(l.as_slice(), vidmoly.as_slice()) {
        0
    } else if text::has(l.as_slice(), sibnet.as_slice()) {
        1
    } else {
        2
    }
}

/// The label of a stream; a stream without one counts as labelled with nothing.
pub open spec fn label_of(s: PreparedModel) -> Seq<char> {
    match s.label {
        Some(l) => l,
        None => Seq::empty(),
    }
}

fn label_text(s: &PreparedSource) -> (r: String)
    ensures
        r@ == label_of(s@),
{
    match &s.label {
        Some(l) => l.clone(),
        None => String::new(),
    }
}

/// Each stream with the rank of its host.
pub open spec fn ranked(s: Seq<PreparedModel>) -> Seq<(u128, PreparedModel)> {
    order::keyed(s, |p: PreparedModel| rank(label_of(p)) as u128)
}

/// The streams in the order in which they are tried: known-resolvable hosts first, and
/// the provider's order among streams of the same rank.
pub open spec fn by_rank(s: Seq<PreparedModel>) -> Seq<PreparedModel> {
    order::sorted_by(s, |p: PreparedModel| rank(label_of(p)) as u128)
}

/// The streams are tried in ascending order of rank, none is lost or made up, and
/// streams of the same rank keep the order they came in.
pub proof fn law_by_rank(s: Seq<PreparedModel>, r: u8)
    ensures
        by_rank(s).to_multiset() == s.to_multiset(),
        by_rank(s).len() == s.len(),
        forall|i: int, j: int|
            0 <= i <= j < s.len() ==> rank(label_of(#[trigger] by_rank(s)[i])) <= rank(
                label_of(#[trigger] by_rank(s)[j]),
            ),
        by_rank(s).filter(|p: PreparedModel| rank(label_of(p)) == r) == s.filter(
            |p: PreparedModel| rank(label_of(p)) == r,
        ),
{
    let f = |p: PreparedModel| rank(label_of(p)) as u128;
    order::law_sorted_by(s, f, r as u128);
    assert((|p: PreparedModel| rank(label_of(p)) == r) =~= (|p: PreparedModel| f(p) == r as u128));
    assert forall|i: int, j: int| 0 <= i <= j < s.len() implies rank(
        label_of(#[trigger] by_rank(s)[i]),
    ) <= rank(label_of(#[trigger] by_rank(s)[j])) by {
        assert(f(by_rank(s)[i]) <= f(by_rank(s)[j]));
    }
}

/// The streams to try for an episode, or the failure that none of its sources can be
/// played.
pub open spec fn playable(admitted: Seq<PreparedModel>) -> std::result::Result<
    Seq<PreparedModel>,
    Fault,
> {
    if admitted.len() == 0 {
        Err(Fault::Resolve("no valid sources returned"@))
    } else {
        Ok(by_rank(admitted))
    }
}

/// Orders the streams of an episode by reliability.
pub fn rank_sources(admitted: Vec<PreparedSource>) -> (r: Result<Vec<PreparedSource>>)
    ensures
        match r {
            Ok(v) => playable(prepared_models(admitted@)) == Ok::<Seq<PreparedModel>, Fault>(
                prepared_models(v@),
            ),
            Err(e) => playable(prepared_models(admitted@)) == Err::<Seq<PreparedModel>, Fault>(e@),
        },
{
    if admitted.is_empty() {
        return Err(Error::Resolve("no valid sources returned".to_string()));
    }
    let ghost all = admitted@;
    let mut pairs: Vec<(u128, PreparedSource)> = Vec::new();
    for s in it: admitted
        invariant
            it.seq() == all,
            pairs@.len() == it.index(),
            forall|k: int|
                0 <= k < it.index() ==> (#[trigger] pairs@[k]).0 == rank(label_of(all[k]@))
                    && pairs@[k].1 == all[k],
    {
        let key: u128 = host_rank(label_text(&s).as_str()) as u128;
        pairs.push((key, s));
    }
    let ghost before = pairs@;
    // Try known-resolvable hosts first (and, on failure, fall back in this order).
    // The stable sort preserves the provider's per-host language ordering.
    let out = order::in_order_of_keys(pairs);
    proof {
        let f = |s: PreparedSource| s@;
        order::lemma_sorted_relabelled(before, f);
        assert(order::relabelled(before, f) =~= ranked(prepared_models(all)));
        assert(prepared_models(out@) =~= order::relabelled(order::sorted(before), f).map_values(
            |p: (u128, PreparedModel)| p.1,
        ));
    }
    Ok(out)
}

/// Resolve an episode's sources to a list of validated playable streams. http/https
/// URLs pass the scheme allowlist; `file://` is accepted only as a local/dev affordance
/// (used by the mock provider).
pub fn resolve_sources(sources: Vec<PlayableSource>) -> (r: Result<Vec<PreparedSource>>)
    ensures
        match r {
            Ok(v) => playable(all_admitted(models::source_models(sources@))) == Ok::<
                Seq<PreparedModel>,
                Fault,
            >(prepared_models(v@)),
            Err(e) => playable(all_admitted(models::source_models(sources@))) == Err::<
                Seq<PreparedModel>,
                Fault,
            >(e@),
        },
{
    let ghost all = models::source_models(sources@);
    let mut prepared: Vec<PreparedSource> = Vec::new();
    for s in it: sources
        invariant
            all == models::source_models(it.seq()),
            prepared_models(prepared@) == all_admitted(all.take(it.index() as int)),
    {
        proof {
            assert(all.take(it.index() + 1).drop_last() =~= all.take(it.index() as int));
            assert(all.take(it.index() + 1).last() == s@);
        }
        let valid = resolver::validate_stream_url(s.url.as_str());
        let ghost before = prepared@;
        if let Some(p) = let_in(s, valid) {
            prepared.push(p);
            assert(prepared_models(prepared@) =~= prepared_models(before).push(p@));
        }
    }
    assert(all.take(all.len() as int) =~= all);
    rank_sources(prepared)
}

/// The chosen stream first, then the rest in their order.
pub open spec fn chosen_first<T>(s: Seq<T>, i: int) -> Seq<T> {
    seq![s[i]] + s.remove(i)
}

/// The fallback queue starts with the chosen stream, and every stream is in it as often
/// as before.
pub proof fn law_chosen_first<T>(s: Seq<T>, i: int)
    requires
        0 <= i < s.len(),
    ensures
        chosen_first(s, i)[0] == s[i],
        chosen_first(s, i).len() == s.len(),
        chosen_first(s, i).to_multiset() == s.to_multiset(),
        forall|j: int| 0 <= j < i ==> (#[trigger] chosen_first(s, i)[j + 1]) == s[j],
        forall|j: int| i < j < s.len() ==> (#[trigger] chosen_first(s, i)[j]) == s[j],
{
    broadcast use vstd::seq_lib::group_to_multiset_ensures;

    let rest = s.remove(i);
    assert(rest.insert(0, s[i]) =~= chosen_first(s, i));
    rest.to_multiset_ensures();
    s.to_multiset_ensures();
    vstd::seq_lib::lemma_multiset_commutative(seq![s[i]], rest);
    assert(seq![s[i]].to_multiset() =~= vstd::multiset::Multiset::singleton(s[i])) by {
        assert(seq![s[i]] =~= Seq::<T>::empty().push(s[i]));
    }
    assert(chosen_first(s, i).to_multiset() =~= s.to_multiset());
}

/// The candidates for playback: the chosen source first, then the rest (already
/// resolved) to fall back through if it fails to start.
pub fn fallback_queue(sources: &Vec<PreparedSource>, chosen: usize) -> (r: Vec<PreparedSource>)
    requires
        chosen < sources@.len(),
    ensures
        prepared_models(r@) == chosen_first(prepared_models(sources@), chosen as int),
{
    let ghost all = prepared_models(sources@);
    let mut queue: Vec<PreparedSource> = Vec::new();
    queue.push(sources[chosen].clone());
    let mut j: usize = 0;
    while j < sources.len()
        invariant
            chosen < sources@.len(),
            j <= sources@.len(),
            all == prepared_models(sources@),
            queue@.len() == (if j <= chosen {
                j + 1
            } else {
                j as int
            }),
            queue@[0]@ == all[chosen as int],
            forall|k: int| 1 <= k < queue@.len() && k <= chosen ==> (#[trigger] queue@[k])@ == all[k - 1],
            forall|k: int| 1 <= k < queue@.len() && k > chosen ==> (#[trigger] queue@[k])@ == all[k],
        decreases sources@.len() - j,
    {
        if j != chosen {
            queue.push(sources[j].clone());
        }
        j = j + 1;
    }
    assert(prepared_models(queue@) =~= chosen_first(all, chosen as int));
    queue
}

/// Where the words of a preference end.
pub open spec fn word_end(c: char) -> bool {
    text::white(c) || c == '(' || c == ')'
}

/// The words of a preference in lower case; empty pieces are left out.
pub open spec fn words(pieces: Seq<Seq<char>>) -> Seq<Seq<char>>
    decreases pieces.len(),
{
    if pieces.len() == 0 {
        Seq::empty()
    } else {
        let head = words(pieces.drop_last());
        if pieces.last().len() == 0 {
            head
        } else {
            head.push(text::lowercase(pieces.last()))
        }
    }
}

/// Every word occurs in the label, whatever the case of the letters.
pub open spec fn names_all(label: Seq<char>, words: Seq<Seq<char>>) -> bool {
    forall|i: int|
        0 <= i < words.len() ==> text::contains(text::lowercase(label), #[trigger] words[i])
}

/// The first stream from position `i` on whose label has every word.
pub open spec fn first_named(s: Seq<PreparedModel>, words: Seq<Seq<char>>, i: int) -> Option<int>
    decreases s.len() - i,
{
    if i < 0 || i >= s.len() {
        None
    } else if names_all(label_of(s[i]), words) {
        Some(i)
    } else {
        first_named(s, words, i + 1)
    }
}

/// The stream that a preference picks: the first whose label has every word of it, or
/// the first of all when none has or there is no word.
pub open spec fn preferred_index(s: Seq<PreparedModel>, words: Seq<Seq<char>>) -> int {
    if words.len() == 0 {
        0
    } else {
        match first_named(s, words, 0) {
            Some(i) => i,
            None => 0,
        }
    }
}

/// The stream that a preference text picks.
pub open spec fn default_index(s: Seq<PreparedModel>, preferred: Seq<char>) -> int {
    preferred_index(s, words(text::split(preferred, |c: char| word_end(c))))
}

/// A preference picks a stream of the list. With a word in it, that stream has every
/// word and no earlier one has, or no stream has and it is the first.
pub proof fn law_preferred(s: Seq<PreparedModel>, words: Seq<Seq<char>>)
    requires
        s.len() > 0,
    ensures
        0 <= preferred_index(s, words) < s.len(),
        words.len() > 0 ==> {
            let at = preferred_index(s, words);
            if exists|i: int| 0 <= i < s.len() && names_all(label_of(#[trigger] s[i]), words) {
                &&& names_all(label_of(s[at]), words)
                &&& forall|i: int| 0 <= i < at ==> !names_all(label_of(#[trigger] s[i]), words)
            } else {
                at == 0
            }
        },
{
    lemma_first_named(s, words, 0);
}

proof fn lemma_first_named(s: Seq<PreparedModel>, words: Seq<Seq<char>>, i: int)
    requires
        0 <= i <= s.len(),
    ensures
        match first_named(s, words, i) {
            Some(at) => {
                &&& i <= at < s.len()
                &&& names_all(label_of(s[at]), words)
                &&& forall|k: int| i <= k < at ==> !names_all(label_of(#[trigger] s[k]), words)
            },
            None => forall|k: int|
                i <= k < s.len() ==> !names_all(label_of(#[trigger] s[k]), words),
        },
    decreases s.len() - i,
{
    if i < s.len() && !names_all(label_of(s[i]), words) {
        lemma_first_named(s, words, i + 1);
    }
}

/// The words of a preference, in lower case.
fn preference_words(preferred: &str) -> (r: Vec<String>)
    ensures
        text::texts(r@) == words(text::split(preferred@, |c: char| word_end(c))),
{
    let chars = text::chars_of(preferred);
    let f = |c: char| -> (b: bool)
        ensures
            b == word_end(c),
        { text::is_white(c) || c == '(' || c == ')' };
    let parts = text::split_by(chars.as_slice(), f, Ghost(|c: char| word_end(c)));
    let ghost all = text::pieces(parts@);
    let mut out: Vec<String> = Vec::new();
    let mut i: usize = 0;
    while i < parts.len()
        invariant
            i <= parts@.len(),
            all == text::pieces(parts@),
            text::texts(out@) == words(all.take(i as int)),
        decreases parts@.len() - i,
    {
        assert(all.take(i + 1).drop_last() =~= all.take(i as int));
        if parts[i].len() > 0 {
            let word = text::string_of(parts[i].as_slice());
            text::put(&mut out, text::lowered(word.as_str()));
        }
        i = i + 1;
    }
    assert(all.take(all.len() as int) =~= all);
    out
}

/// Whether every word occurs in the label of a stream.
fn has_words(s: &PreparedSource, list: &Vec<String>) -> (r: bool)
    ensures
        r == names_all(label_of(s@), text::texts(list@)),
{
    let label = text::lowered(label_text(s).as_str());
    let mut i: usize = 0;
    while i < list.len()
        invariant
            i <= list@.len(),
            label@ == text::lowercase(label_of(s@)),
            forall|k: int|
                0 <= k < i ==> text::contains(label@, #[trigger] text::texts(list@)[k]),
        decreases list@.len() - i,
    {
        if !text::str_has(label.as_str(), list[i].as_str()) {
            assert(!text::contains(label@, text::texts(list@)[i as int]));
            return false;
        }
        i = i + 1;
    }
    true
}

/// Index of the source best matching the `preferred` label (e.g. "vidmoly (VF)"),
/// or `0` when none matches. Matching is by tokens (host + language) contained in
/// the source label, case-insensitively. `sources` is already reliability-ordered,
/// so index 0 is the sensible fallback.
pub fn pick_default_index(sources: &Vec<PreparedSource>, preferred: &str) -> (r: usize)
    ensures
        r == default_index(prepared_models(sources@), preferred@),
        sources@.len() > 0 ==> r < sources@.len(),
{
    let list = preference_words(preferred);
    let ghost all = prepared_models(sources@);
    let ghost wanted = text::texts(list@);
    proof {
        if sources@.len() > 0 {
            law_preferred(all, wanted);
        }
    }
    if list.len() > 0 {
        let mut i: usize = 0;
        while i < sources.len()
            invariant
                i <= sources@.len(),
                all == prepared_models(sources@),
                wanted == text::texts(list@),
                wanted == words(text::split(preferred@, |c: char| word_end(c))),
                wanted.len() > 0,
                first_named(all, wanted, i as int) == first_named(all, wanted, 0),
            decreases sources@.len() - i,
        {
            if has_words(&sources[i], &list) {
                return i;
            }
            i = i + 1;
        }
    }
    0
}

/// The labels that the source picker shows: the URL stands in for a missing label.
pub open spec fn picker_labels(s: Seq<PreparedModel>) -> Seq<Seq<char>> {
    s.map_values(
        |p: PreparedModel|
            match p.label {
                Some(l) => l,
                None => p.url,
            },
    )
}

/// The labels that the source picker shows.
pub fn list_labels(sources: &Vec<PreparedSource>) -> (r: Vec<String>)
    ensures
        text::texts(r@) == picker_labels(prepared_models(sources@)),
{
    let ghost all = picker_labels(prepared_models(sources@));
    let mut out: Vec<String> = Vec::new();
    let mut i: usize = 0;
    while i < sources.len()
        invariant
            i <= sources@.len(),
            all == picker_labels(prepared_models(sources@)),
            text::texts(out@) == all.take(i as int),
        decreases sources@.len() - i,
    {
        let label = match &sources[i].label {
            Some(l) => l.clone(),
            None => sources[i].url.clone(),
        };
        text::put(&mut out, label);
        assert(all.take(i + 1) =~= all.take(i as int).push(all[i as int]));
        i = i + 1;
    }
    assert(all.take(all.len() as int) =~= all);
    out
}

/// The value of the first `Referer` header from position `i` on.
pub open spec fn referer_from(headers: Seq<(Seq<char>, Seq<char>)>, i: int) -> Option<Seq<char>>
    decreases headers.len() - i,
{
    if i < 0 || i >= headers.len() {
        None
    } else if text::ascii_lower(headers[i].0) == text::ascii_lower("referer"@) {
        Some(headers[i].1)
    } else {
        referer_from(headers, i + 1)
    }
}

/// The `Referer` value from a header list, if present (case-insensitive key).
pub fn referer_of(headers: &[(String, String)]) -> (r: Option<String>)
    ensures
        text::opt_text(r) == referer_from(models::pairs(headers@), 0),
{
    let key = text::chars_of("referer");
    let key = text::ascii_lowered(key.as_slice());
    let mut i: usize = 0;
    while i < headers.len()
        invariant
            i <= headers@.len(),
            key@ == text::ascii_lower("referer"@),
            referer_from(models::pairs(headers@), i as int) == referer_from(
                models::pairs(headers@),
                0,
            ),
        decreases headers@.len() - i,
    {
        let k = text::chars_of(headers[i].0.as_str());
        let k = text::ascii_lowered(k.as_slice());
        if text::same(k.as_slice(), key.as_slice()) {
            return Some(headers[i].1.clone());
        }
        i = i + 1;
    }
    None
}

/// The path of a URL: what stands before the query string and the fragment.
pub open spec fn url_path(url: Seq<char>) -> Seq<char> {
    resolver::up_to_any(url, seq!['?', '#'])
}

/// A URL of an obvious HLS/MP4/MKV stream.
pub open spec fn direct(url: Seq<char>) -> bool {
    let path = text::ascii_lower(url_path(url));
    text::ends_with(path, ".m3u8"@) || text::ends_with(path, ".mp4"@) || text::ends_with(
        path,
        ".mkv"@,
    )
}

/// True if `url` already points at a stream mpv can open directly, so yt-dlp
/// resolution can be skipped. Conservative: only obvious HLS/MP4 media URLs.
pub fn is_direct_stream(url: &str) -> (r: bool)
    ensures
        r == direct(url@),
{
    // Ignore any query string / fragment when checking the path extension.
    let chars = text::chars_of(url);
    let mut ends: Vec<char> = Vec::new();
    ends.push('?');
    ends.push('#');
    assert(ends@ =~= seq!['?', '#']);
    let path = resolver::cut_at_any(chars.as_slice(), ends.as_slice());
    let path = text::ascii_lowered(path);
    let m3u8 = text::chars_of(".m3u8");
    let mp4 = text::chars_of(".mp4");
    let mkv = text::chars_of(".mkv");
    text::ends(path.as_slice(), m3u8.as_slice()) || text::ends(path.as_slice(), mp4.as_slice())
        || text::ends(path.as_slice(), mkv.as_slice())
}

/// Whether a URL needs yt-dlp: a local file or a direct HLS/MP4 stream is already
/// playable, and spawning yt-dlp for it would just add ~1-2 s of latency.
pub fn needs_ytdl(url: &str) -> (r: bool)
    ensures
        r == !(local(url@) || direct(url@)),
{
    !(text::str_begins(url, "file://") || is_direct_stream(url))
}

/// A page needs yt-dlp; a local file and a direct stream do not.
pub proof fn law_needs_ytdl(url: &str, r: bool)
    requires
        call_ensures(needs_ytdl, (url,), r),
    ensures
        text::starts_with(url@, "file://"@) || direct(url@) ==> !r,
        !text::starts_with(url@, "file://"@) && !direct(url@) ==> r,
{
}

/// The arguments that yt-dlp gets: it prints the direct stream URL on the first line,
/// and the format's HTTP headers as JSON on the second, so we replay the stream with
/// exactly what yt-dlp would send.
pub open spec fn ytdl_command(url: Seq<char>, referer: Option<Seq<char>>) -> Seq<Seq<char>> {
    let head = seq![
        "--no-playlist"@,
        "--quiet"@,
        "--no-warnings"@,
        "-f"@,
        "best"@,
        "--print"@,
        "%(url)s"@,
        "--print"@,
        "%(http_headers)j"@,
    ];
    match referer {
        Some(r) => head + seq!["--referer"@, r, url],
        None => head + seq![url],
    }
}

/// The arguments for resolving an embed-page URL to a direct stream via yt-dlp.
/// `referer` (the embed page's referer) is passed on so extractors that gate on it
/// still work.
pub fn ytdl_args(url: &str, referer: Option<&str>) -> (r: Vec<String>)
    ensures
        text::texts(r@) == ytdl_command(
            url@,
            match referer {
                Some(r) => Some(r@),
                None => None,
            },
        ),
{
    let mut args: Vec<String> = Vec::new();
    text::put_str(&mut args, "--no-playlist");
    text::put_str(&mut args, "--quiet");
    text::put_str(&mut args, "--no-warnings");
    text::put_str(&mut args, "-f");
    text::put_str(&mut args, "best");
    text::put_str(&mut args, "--print");
    text::put_str(&mut args, "%(url)s");
    text::put_str(&mut args, "--print");
    text::put_str(&mut args, "%(http_headers)j");
    if let Some(r) = referer {
        text::put_str(&mut args, "--referer");
        text::put_str(&mut args, r);
    }
    text::put_str(&mut args, url);
    assert(text::texts(args@) =~= ytdl_command(
        url@,
        match referer {
            Some(r) => Some(r@),
            None => None,
        },
    ));
    args
}

/// The members of an object that are texts.
pub open spec fn text_members(members: Seq<(Seq<char>, JsonModel)>) -> Seq<
    (Seq<char>, Seq<char>),
>
    decreases members.len(),
{
    if members.len() == 0 {
        Seq::empty()
    } else {
        let head = text_members(members.drop_last());
        match json::as_text(members.last().1) {
            Some(v) => head.push((members.last().0, v)),
            None => head,
        }
    }
}

/// The headers that a JSON object of header→value gives, if there is one.
pub open spec fn object_headers(v: JsonModel) -> Option<Seq<(Seq<char>, Seq<char>)>> {
    match v {
        JsonModel::Object(members) => if text_members(members).len() == 0 {
            None
        } else {
            Some(text_members(members))
        },
        _ => None,
    }
}

/// What a list of header pairs holds, if there is one.
pub open spec fn opt_pairs(v: Option<Vec<(String, String)>>) -> Option<
    Seq<(Seq<char>, Seq<char>)>,
> {
    match v {
        Some(v) => Some(models::pairs(v@)),
        None => None,
    }
}

/// The header list of a JSON object; `None` if it isn't a non-empty JSON object of
/// texts.
pub fn headers_from_json(v: &Json) -> (r: Option<Vec<(String, String)>>)
    ensures
        opt_pairs(r) == object_headers(v@),
{
    let members = match v {
        Json::Object(members) => members,
        _ => return None,
    };
    let ghost all = v@->Object_0;
    let mut out: Vec<(String, String)> = Vec::new();
    let mut i: usize = 0;
    while i < members.len()
        invariant
            i <= members@.len(),
            v@ == JsonModel::Object(all),
            all.len() == members@.len(),
            forall|k: int|
                0 <= k < all.len() ==> (#[trigger] all[k]) == (members@[k].0@, members@[k].1@),
            models::pairs(out@) == text_members(all.take(i as int)),
        decreases members@.len() - i,
    {
        assert(all.take(i + 1).drop_last() =~= all.take(i as int));
        assert(all.take(i + 1).last() == all[i as int]);
        if let Some(s) = members[i].1.as_str() {
            let ghost before = out@;
            let pair = (members[i].0.clone(), s.to_string());
            out.push(pair);
            assert(models::pairs(out@) =~= models::pairs(before).push((pair.0@, pair.1@)));
        }
        i = i + 1;
    }
    assert(all.take(all.len() as int) =~= all);
    if out.is_empty() {
        None
    } else {
        Some(out)
    }
}

/// The headers that a line of yt-dlp's output gives.
pub open spec fn line_headers(line: Seq<char>) -> Option<Seq<(Seq<char>, Seq<char>)>> {
    match json::json_parsed(text::trim(line)) {
        Ok(v) => object_headers(v),
        Err(_) => None,
    }
}

/// Parse yt-dlp's `%(http_headers)j` output (a JSON object of header→value) into an
/// ordered header list. Returns `None` if it isn't a non-empty JSON object.
pub fn parse_ytdl_headers(line: &str) -> (r: Option<Vec<(String, String)>>)
    ensures
        opt_pairs(r) == line_headers(line@),
{
    let trimmed = text::str_trimmed(line);
    match Json::parse(trimmed.as_str()) {
        Ok(v) => headers_from_json(&v),
        Err(_) => None,
    }
}

/// An http or https address.
pub open spec fn on_the_web(url: Seq<char>) -> bool {
    text::starts_with(url, "http://"@) || text::starts_with(url, "https://"@)
}

/// An address is on the web exactly when it begins with `http://` or `https://`.
pub proof fn law_on_the_web(url: Seq<char>)
    ensures
        on_the_web(url) <==> resolver::address_at(url, 0),
        url.len() >= 7 && url.take(7) == "http://"@ ==> on_the_web(url),
        url.len() >= 8 && url.take(8) == "https://"@ ==> on_the_web(url),
{
    reveal_strlit("http://");
    reveal_strlit("https://");
    if url.len() >= 7 {
        assert(url.subrange(0, 7) =~= url.take(7));
    }
    if url.len() >= 8 {
        assert(url.subrange(0, 8) =~= url.take(8));
    }
}

fn is_on_the_web(url: &str) -> (r: bool)
    ensures
        r == on_the_web(url@),
{
    text::str_begins(url, "http://") || text::str_begins(url, "https://")
}

/// What yt-dlp's output says of the stream behind a URL: its direct address and its
/// headers. Output that does not start with a web address leaves the URL as it is.
pub open spec fn resolved_stream(url: Seq<char>, output: Seq<char>) -> (
    Seq<char>,
    Option<Seq<(Seq<char>, Seq<char>)>>,
) {
    let lines = text::split(output, |c: char| c == '\n');
    let address = text::trim(lines[0]);
    if on_the_web(address) {
        (
            address,
            if lines.len() > 1 {
                line_headers(lines[1])
            } else {
                None
            },
        )
    } else {
        (url, None)
    }
}

/// Reads yt-dlp's output.
fn read_output(url: &str, output: &str) -> (r: (String, Option<Vec<(String, String)>>))
    ensures
        (r.0@, opt_pairs(r.1)) == resolved_stream(url@, output@),
{
    let chars = text::chars_of(output);
    let lines = text::split_at_char(chars.as_slice(), '\n');
    assert(text::pieces(lines@)[0] == lines@[0]@);
    let address = text::string_of(text::trimmed(lines[0].as_slice()));
    if !is_on_the_web(address.as_str()) {
        return (url.to_string(), None);
    }
    if lines.len() > 1 {
        assert(text::pieces(lines@)[1] == lines@[1]@);
        let line = text::string_of(lines[1].as_slice());
        (address, parse_ytdl_headers(line.as_str()))
    } else {
        (address, None)
    }
}

/// What a run of yt-dlp gives for a URL: the direct stream and the per-stream HTTP
/// headers yt-dlp says it needs (Referer/User-Agent/…), or the URL itself when it
/// failed (mpv's own ytdl hook then handles a page URL as a last resort). `output` is
/// what it printed, `None` when it could not be run or did not succeed.
///
/// The headers matter for hosts like sibnet whose CDN 403s unless the request carries
/// the host's own Referer.
pub fn pre_resolve(url: &str, output: Option<Vec<u8>>) -> (r: (
    String,
    Option<Vec<(String, String)>>,
))
    ensures
        (r.0@, opt_pairs(r.1)) == (match output {
            Some(bytes) => resolved_stream(url@, text::lossy(bytes@)),
            None => (url@, None),
        }),
{
    match output {
        Some(bytes) => {
            let stdout = text::lossy_text(bytes.as_slice());
            read_output(url, stdout.as_str())
        },
        None => (url.to_string(), None),
    }
}

/// A stream with what resolving it gave. yt-dlp's per-stream headers are preferred
/// (correct Referer/UA for the CDN); the site referer stays only when resolution didn't
/// yield any (page fallback).
pub open spec fn with_stream(
    s: PreparedModel,
    found: (Seq<char>, Option<Seq<(Seq<char>, Seq<char>)>>),
) -> PreparedModel {
    PreparedModel {
        url: found.0,
        headers: match found.1 {
            Some(h) => h,
            None => s.headers,
        },
        label: s.label,
    }
}

/// Puts what resolving a stream gave into it.
pub fn take_stream(s: PreparedSource, found: (String, Option<Vec<(String, String)>>)) -> (r:
    PreparedSource)
    ensures
        r@ == with_stream(s@, (found.0@, opt_pairs(found.1))),
{
    PreparedSource {
        url: found.0,
        headers: match found.1 {
            Some(h) => h,
            None => s.headers,
        },
        label: s.label,
    }
}

/// Refuses an image address that is not on the web.
pub fn check_image_url(url: &str) -> (r: Result<()>)
    ensures
        match r {
            Ok(_) => on_the_web(url@),
            Err(e) => !on_the_web(url@) && e@ == Fault::InvalidUrl(url@),
        },
{
    if is_on_the_web(url) {
        Ok(())
    } else {
        Err(Error::InvalidUrl(url.to_string()))
    }
}

/// The largest side of a poster that is kept, in pixels: plenty of detail for any
/// on-screen box while bounding memory/CPU.
pub const POSTER_MAX: u32 = 900;

/// A picture is too large when a side of it is longer than nine hundred pixels.
pub proof fn law_oversized(width: u32, height: u32, r: bool)
    requires
        call_ensures(is_oversized, (width, height), r),
    ensures
        r <==> width > 900 || height > 900,
{
}

/// Whether a decoded poster has to be made smaller.
pub fn is_oversized(width: u32, height: u32) -> (r: bool)
    ensures
        r == (width > POSTER_MAX || height > POSTER_MAX),
{
    width > POSTER_MAX || height > POSTER_MAX
}

/// A time that was typed: whole hours and minutes, and the text of the seconds.
#[derive(Debug)]
pub struct TimeInput {
    pub hours: u64,
    pub minutes: u64,
    pub seconds: String,
}

/// What a typed time says. Accepts: "90" (seconds), "1:30" (mm:ss), "1:02:30"
/// (hh:mm:ss).
pub open spec fn typed_time(s: Seq<char>) -> Option<(nat, nat, Seq<char>)> {
    let parts = text::split(s, |c: char| c == ':');
    let whole = |p: Seq<char>| number::parsed(text::trim(p), 10, u64::MAX as nat);
    if parts.len() == 1 {
        Some((0, 0, text::trim(parts[0])))
    } else if parts.len() == 2 {
        match whole(parts[0]) {
            Some(m) => Some((0, m, text::trim(parts[1]))),
            None => None,
        }
    } else if parts.len() == 3 {
        match (whole(parts[0]), whole(parts[1])) {
            (Some(h), Some(m)) => Some((h, m, text::trim(parts[2]))),
            _ => None,
        }
    } else {
        None
    }
}

/// Parse a user-typed time string as far as it is whole numbers: hours and minutes. The
/// seconds may have a fraction and stay text.
pub fn parse_time_input(s: &str) -> (r: Option<TimeInput>)
    ensures
        match r {
            Some(t) => typed_time(s@) == Some((t.hours as nat, t.minutes as nat, t.seconds@)),
            None => typed_time(s@) is None,
        },
{
    let chars = text::chars_of(s);
    let parts = text::split_at_char(chars.as_slice(), ':');
    let ghost all = text::pieces(parts@);
    assert(forall|i: int| 0 <= i < parts@.len() ==> all[i] == #[trigger] parts@[i]@);
    let n: usize = parts.len();
    if n > 3 {
        return None;
    }
    let seconds = text::string_of(text::trimmed(parts[n - 1].as_slice()));
    let minutes: u64 = if n >= 2 {
        number::parse(text::trimmed(parts[n - 2].as_slice()), 10, u64::MAX)?
    } else {
        0
    };
    let hours: u64 = if n == 3 {
        number::parse(text::trimmed(parts[0].as_slice()), 10, u64::MAX)?
    } else {
        0
    };
    Some(TimeInput { hours, minutes, seconds })
}

/// The scroll offset that keeps a row of a list in view: changed as little as possible,
/// and not past the last page.
pub open spec fn kept_in_view(offset: usize, selected: usize, visible: usize, len: usize) -> int {
    let shown = if visible == 0 {
        1
    } else {
        visible as int
    };
    let at = if selected < offset {
        selected as int
    } else if selected >= offset + shown {
        selected + 1 - shown
    } else {
        offset as int
    };
    let last = if len < shown {
        0
    } else {
        len - shown
    };
    if at < last {
        at
    } else {
        last
    }
}

/// A source whose URL is valid is played from the normalised URL, one on the local disk
/// from its URL as it is, and any other not at all; its headers and its label go with it.
pub proof fn law_admitted(s: SourceModel, valid: std::result::Result<Seq<char>, Fault>)
    ensures
        ({
            let on_disk = s.url.len() >= 7 && s.url.subrange(0, 7) == "file://"@;
            &&& admitted(s, valid) is Some <==> on_disk || valid is Ok
            &&& admitted(s, valid) matches Some(p) ==> {
                &&& p.headers == s.http_headers
                &&& p.label == s.label
                &&& on_disk ==> p.url == s.url
                &&& !on_disk ==> valid == Ok::<Seq<char>, Fault>(p.url)
            }
        }),
{
    reveal_strlit("file://");
}

/// The streams of a list of sources are those of its parts, in order.
pub proof fn law_admitted_in_order(a: Seq<SourceModel>, b: Seq<SourceModel>, s: SourceModel)
    ensures
        all_admitted(a + b) == all_admitted(a) + all_admitted(b),
        all_admitted(seq![s]) == (match admitted(s, validated(s.url)) {
            Some(p) => seq![p],
            None => Seq::empty(),
        }),
    decreases b.len(),
{
    assert(seq![s].drop_last() =~= Seq::<SourceModel>::empty());
    assert(all_admitted(seq![s].drop_last()) =~= Seq::<PreparedModel>::empty());
    assert(all_admitted(seq![s]) =~= (match admitted(s, validated(s.url)) {
        Some(p) => seq![p],
        None => Seq::empty(),
    }));
    if b.len() == 0 {
        assert(a + b =~= a);
        assert(all_admitted(a) + all_admitted(b) =~= all_admitted(a));
    } else {
        law_admitted_in_order(a, b.drop_last(), s);
        assert((a + b).drop_last() =~= a + b.drop_last());
        assert((a + b).last() == b.last());
        assert(all_admitted(a + b) =~= all_admitted(a) + all_admitted(b));
    }
}

/// A label names a host: the name stands in it, whatever the case of its letters.
pub open spec fn of_host(label: Seq<char>, host: Seq<char>) -> bool {
    text::contains(text::ascii_lower(label), host)
}

/// vidmoly is tried before sibnet, sibnet before hosts that nothing is known of, and voe
/// only after all others.
pub proof fn law_host_order(a: Seq<char>, b: Seq<char>, c: Seq<char>, d: Seq<char>)
    requires
        of_host(a, "vidmoly"@) && !of_host(a, "voe"@),
        of_host(b, "sibnet"@) && !of_host(b, "vidmoly"@) && !of_host(b, "voe"@),
        !of_host(c, "sibnet"@) && !of_host(c, "vidmoly"@) && !of_host(c, "voe"@),
        of_host(d, "voe"@),
    ensures
        rank(a) < rank(b) < rank(c) < rank(d),
{
}

/// The preference for a host and a language, written like a label, picks the first stream
/// whose label has both.
pub proof fn law_preference(
    s: Seq<PreparedModel>,
    host: Seq<char>,
    language: Seq<char>,
    at: int,
)
    requires
        host.len() > 0,
        language.len() > 0,
        forall|i: int| 0 <= i < host.len() ==> !word_end(#[trigger] host[i]),
        forall|i: int| 0 <= i < language.len() ==> !word_end(#[trigger] language[i]),
        0 <= at < s.len(),
        has_both(s[at], host, language),
        forall|i: int| 0 <= i < at ==> !has_both(#[trigger] s[i], host, language),
    ensures
        default_index(s, host + " ("@ + language + ")"@) == at,
{
    let sep = |c: char| word_end(c);
    let preferred = host + " ("@ + language + ")"@;
    lemma_label_words(host, language);
    let wanted = words(text::split(preferred, sep));
    assert(wanted =~= seq![text::lowercase(host), text::lowercase(language)]);
    law_preferred(s, wanted);
    assert forall|p: PreparedModel| #[trigger] names_all(label_of(p), wanted) == has_both(
        p,
        host,
        language,
    ) by {
        assert(wanted[0] == text::lowercase(host) && wanted[1] == text::lowercase(language));
        if has_both(p, host, language) {
            assert forall|i: int| 0 <= i < wanted.len() implies text::contains(
                text::lowercase(label_of(p)),
                #[trigger] wanted[i],
            ) by {
                assert(i == 0 || i == 1);
            }
        }
    }
    assert(names_all(label_of(s[at]), wanted));
    let found = preferred_index(s, wanted);
    if found < at {
        assert(!has_both(s[found], host, language));
    }
}

/// The label of a stream has both a host and a language, whatever the case of the
/// letters.
pub open spec fn has_both(p: PreparedModel, host: Seq<char>, language: Seq<char>) -> bool {
    let label = text::lowercase(p.label.unwrap_or(Seq::empty()));
    text::contains(label, text::lowercase(host)) && text::contains(label, text::lowercase(language))
}

proof fn lemma_label_words(host: Seq<char>, language: Seq<char>)
    requires
        host.len() > 0,
        language.len() > 0,
        forall|i: int| 0 <= i < host.len() ==> !word_end(#[trigger] host[i]),
        forall|i: int| 0 <= i < language.len() ==> !word_end(#[trigger] language[i]),
    ensures
        words(text::split(host + " ("@ + language + ")"@, |c: char| word_end(c))) == seq![
            text::lowercase(host),
            text::lowercase(language),
        ],
{
    reveal_strlit(" (");
    reveal_strlit(")");
    let sep = |c: char| word_end(c);
    let none = Seq::<char>::empty();
    let a = host + " ("@;
    let b = a + language;
    let whole = b + ")"@;
    text::lemma_split_longer(none, host, sep);
    assert(none + host =~= host);
    assert(text::split(none, sep) =~= seq![none]);
    assert(text::split(host, sep) =~= seq![host]);
    let one = host.push(' ');
    assert(one.drop_last() =~= host);
    assert(text::split(one, sep) =~= seq![host, none]);
    assert(a =~= one.push('('));
    assert(a.drop_last() =~= one);
    assert(text::split(a, sep) =~= seq![host, none, none]);
    text::lemma_split_longer(a, language, sep);
    assert(none + language =~= language);
    assert(text::split(b, sep) =~= seq![host, none, language]);
    assert(whole =~= b.push(')'));
    assert(whole.drop_last() =~= b);
    let pieces = text::split(whole, sep);
    assert(pieces =~= seq![host, none, language, none]);
    let p3 = seq![host, none, language];
    let p2 = seq![host, none];
    let p1 = seq![host];
    assert(pieces.drop_last() =~= p3);
    assert(p3.drop_last() =~= p2);
    assert(p2.drop_last() =~= p1);
    assert(p1.drop_last() =~= Seq::<Seq<char>>::empty());
    assert(words(p1.drop_last()) =~= Seq::<Seq<char>>::empty());
    assert(words(p1) =~= seq![text::lowercase(host)]);
    assert(words(p2) == words(p1));
    assert(words(p3) =~= seq![text::lowercase(host), text::lowercase(language)]);
    assert(words(pieces) =~= seq![text::lowercase(host), text::lowercase(language)]);
}

/// The referrer of a header list is the value of its first header of that name, whatever
/// the case of the name.
pub proof fn law_referer(
    before: Seq<(Seq<char>, Seq<char>)>,
    name: Seq<char>,
    value: Seq<char>,
    behind: Seq<(Seq<char>, Seq<char>)>,
)
    requires
        text::ascii_lower(name) == "referer"@,
        forall|i: int|
            0 <= i < before.len() ==> text::ascii_lower((#[trigger] before[i]).0) != "referer"@,
    ensures
        referer_from(before.push((name, value)) + behind, 0) == Some(value),
        referer_from(before, 0) is None,
{
    reveal_strlit("referer");
    assert(text::ascii_lower("referer"@) =~= "referer"@);
    lemma_referer(before.push((name, value)) + behind, 0, before.len() as int);
    lemma_no_referer(before, 0);
}

proof fn lemma_referer(headers: Seq<(Seq<char>, Seq<char>)>, i: int, k: int)
    requires
        0 <= i <= k < headers.len(),
        text::ascii_lower(headers[k].0) == text::ascii_lower("referer"@),
        forall|j: int|
            i <= j < k ==> text::ascii_lower((#[trigger] headers[j]).0) != text::ascii_lower(
                "referer"@,
            ),
    ensures
        referer_from(headers, i) == Some(headers[k].1),
    decreases k - i,
{
    if i < k {
        lemma_referer(headers, i + 1, k);
    }
}

proof fn lemma_no_referer(headers: Seq<(Seq<char>, Seq<char>)>, i: int)
    requires
        0 <= i <= headers.len(),
        forall|j: int|
            i <= j < headers.len() ==> text::ascii_lower((#[trigger] headers[j]).0)
                != text::ascii_lower("referer"@),
    ensures
        referer_from(headers, i) is None,
    decreases headers.len() - i,
{
    if i < headers.len() {
        lemma_no_referer(headers, i + 1);
    }
}

/// A URL is that of a direct stream exactly when its path, what stands before a query or
/// a fragment, ends in one of the three media extensions, whatever the case of its
/// letters.
pub proof fn law_direct(path: Seq<char>, more: Seq<char>)
    requires
        forall|i: int| 0 <= i < path.len() ==> #[trigger] path[i] != '?' && path[i] != '#',
        more.len() > 0 ==> more[0] == '?' || more[0] == '#',
    ensures
        direct(path + more) <==> {
            let p = text::ascii_lower(path);
            text::ends_with(p, ".m3u8"@) || text::ends_with(p, ".mp4"@) || text::ends_with(
                p,
                ".mkv"@,
            )
        },
{
    resolver::lemma_cut(path, more, seq!['?', '#']);
}

/// yt-dlp is asked for the best format of the URL, which comes last; it prints the
/// address before the headers, each on a line of its own, and gets the referrer if there
/// is one.
pub proof fn law_ytdl_command(url: Seq<char>, referer: Option<Seq<char>>)
    ensures
        ({
            let args = ytdl_command(url, referer);
            &&& args.last() == url
            &&& exists|i: int, j: int|
                0 <= i && i + 1 < j && j + 1 < args.len() && #[trigger] args[i] == "--print"@
                    && args[i + 1] == "%(url)s"@ && #[trigger] args[j] == "--print"@ && args[j + 1]
                    == "%(http_headers)j"@
            &&& exists|i: int|
                0 <= i && i + 1 < args.len() && #[trigger] args[i] == "-f"@ && args[i + 1]
                    == "best"@
            &&& args.contains("--no-playlist"@)
            &&& match referer {
                Some(r) => args[args.len() - 3] == "--referer"@ && args[args.len() - 2] == r,
                None => !args.take(args.len() - 1).contains("--referer"@),
            }
        }),
{
    reveal_strlit("--no-playlist");
    reveal_strlit("--quiet");
    reveal_strlit("--no-warnings");
    reveal_strlit("-f");
    reveal_strlit("best");
    reveal_strlit("--print");
    reveal_strlit("%(url)s");
    reveal_strlit("%(http_headers)j");
    reveal_strlit("--referer");
    let args = ytdl_command(url, referer);
    assert(args[3] == "-f"@ && args[4] == "best"@);
    assert(args[5] == "--print"@ && args[6] == "%(url)s"@ && args[7] == "--print"@ && args[8]
        == "%(http_headers)j"@);
    assert(args[0] == "--no-playlist"@);
    if referer is None {
        let head = args.take(args.len() - 1);
        assert("--no-playlist"@.len() != "--referer"@.len());
        assert("--quiet"@.len() != "--referer"@.len());
        assert("--no-warnings"@.len() != "--referer"@.len());
        assert forall|i: int| 0 <= i < head.len() implies head[i] != "--referer"@ by {
            assert(i == 0 || i == 1 || i == 2 || i == 3 || i == 4 || i == 5 || i == 6 || i == 7
                || i == 8);
        }
    }
}

/// Output whose first line is a web address gives that address and the headers of the
/// second line; other output leaves the URL as it is.
pub proof fn law_ytdl_output(
    url: Seq<char>,
    address: Seq<char>,
    headers: Seq<char>,
    behind: Seq<char>,
)
    requires
        !address.contains('\n'),
        !headers.contains('\n'),
    ensures
        ({
            let seen = text::trim(address);
            let output = address + "\n"@ + headers + "\n"@ + behind;
            &&& on_the_web(seen) ==> resolved_stream(url, output) == (seen, line_headers(headers))
            &&& on_the_web(seen) ==> resolved_stream(url, address) == (
                seen,
                None::<Seq<(Seq<char>, Seq<char>)>>,
            )
            &&& !on_the_web(seen) ==> resolved_stream(url, output) == (
                url,
                None::<Seq<(Seq<char>, Seq<char>)>>,
            )
        }),
{
    reveal_strlit("\n");
    let sep = |c: char| c == '\n';
    let none = Seq::<char>::empty();
    assert forall|i: int| 0 <= i < address.len() implies !sep(#[trigger] address[i]) by {
        assert(!address.contains('\n'));
    }
    assert forall|i: int| 0 <= i < headers.len() implies !sep(#[trigger] headers[i]) by {
        assert(!headers.contains('\n'));
    }
    text::lemma_split_longer(none, address, sep);
    assert(none + address =~= address);
    assert(text::split(none, sep) =~= seq![none]);
    assert(text::split(address, sep) =~= seq![address]);
    let one = address + "\n"@;
    assert(one =~= address.push('\n'));
    assert(one.drop_last() =~= address);
    assert(text::split(one, sep) =~= seq![address, none]);
    text::lemma_split_longer(one, headers, sep);
    assert(none + headers =~= headers);
    assert(text::split(one + headers, sep) =~= seq![address, headers]);
    let two = one + headers + "\n"@;
    assert(two =~= (one + headers).push('\n'));
    assert(two.drop_last() =~= one + headers);
    assert(text::split(two, sep) =~= seq![address, headers, none]);
    text::lemma_split_keeps(two, behind, sep);
    assert(address + "\n"@ + headers + "\n"@ + behind =~= two + behind);
}

/// Resolving a stream keeps its label and puts in the address that was found, with the
/// headers that were found or else its own.
pub proof fn law_with_stream(
    s: PreparedModel,
    url: Seq<char>,
    headers: Seq<(Seq<char>, Seq<char>)>,
)
    ensures
        with_stream(s, (url, Some(headers))) == (PreparedModel { url, headers, label: s.label }),
        with_stream(s, (url, None)) == (PreparedModel { url, headers: s.headers, label: s.label }),
{
}

/// A typed time reads from the right: seconds, minutes, hours.
pub proof fn law_typed_time(h: nat, m: nat, s: Seq<char>)
    requires
        h <= u64::MAX,
        m <= u64::MAX,
        !s.contains(':'),
    ensures
        typed_time(s) == Some((0nat, 0nat, text::trim(s))),
        typed_time(number::digits(m) + ":"@ + s) == Some((0nat, m, text::trim(s))),
        typed_time(number::digits(h) + ":"@ + number::digits(m) + ":"@ + s) == Some(
            (h, m, text::trim(s)),
        ),
{
    reveal_strlit(":");
    let sep = |c: char| c == ':';
    let none = Seq::<char>::empty();
    let a = number::digits(h);
    let b = number::digits(m);
    number::lemma_digits(h);
    number::lemma_digits(m);
    number::law_decimal_round_trip(h, u64::MAX as nat);
    number::law_decimal_round_trip(m, u64::MAX as nat);
    resolver::voe::lemma_trim_nothing(a);
    resolver::voe::lemma_trim_nothing(b);
    assert forall|i: int| 0 <= i < s.len() implies !sep(#[trigger] s[i]) by {
        assert(!s.contains(':'));
    }
    text::lemma_split_longer(none, s, sep);
    text::lemma_split_longer(none, a, sep);
    text::lemma_split_longer(none, b, sep);
    assert(none + s =~= s && none + a =~= a && none + b =~= b);
    assert(text::split(none, sep) =~= seq![none]);
    assert(text::split(s, sep) =~= seq![s]);
    assert(text::split(a, sep) =~= seq![a]);
    assert(text::split(b, sep) =~= seq![b]);
    let two = b + ":"@;
    assert(two =~= b.push(':'));
    assert(two.drop_last() =~= b);
    assert(text::split(two, sep) =~= seq![b, none]);
    text::lemma_split_longer(two, s, sep);
    assert(text::split(two + s, sep) =~= seq![b, s]);
    let three = a + ":"@;
    assert(three =~= a.push(':'));
    assert(three.drop_last() =~= a);
    assert(text::split(three, sep) =~= seq![a, none]);
    text::lemma_split_longer(three, b, sep);
    assert(text::split(three + b, sep) =~= seq![a, b]);
    let four = three + b + ":"@;
    assert(four =~= (three + b).push(':'));
    assert(four.drop_last() =~= three + b);
    assert(text::split(four, sep) =~= seq![a, b, none]);
    text::lemma_split_longer(four, s, sep);
    assert(text::split(four + s, sep) =~= seq![a, b, s]);
}

/// A header that is a text goes in, in order; other members do not.
pub proof fn law_text_members(members: Seq<(Seq<char>, JsonModel)>, key: Seq<char>, v: Seq<char>)
    ensures
        text_members(members.push((key, JsonModel::Text(v)))) == text_members(members).push(
            (key, v),
        ),
        text_members(members.push((key, JsonModel::Null))) == text_members(members),
        object_headers(JsonModel::Object(members.push((key, JsonModel::Text(v))))) == Some(
            text_members(members).push((key, v)),
        ),
        object_headers(JsonModel::Object(Seq::empty())) is None,
{
    assert(members.push((key, JsonModel::Text(v))).drop_last() =~= members);
    assert(members.push((key, JsonModel::Null)).drop_last() =~= members);
}

/// The picker shows the label of each stream, or its URL when it has none.
pub proof fn law_picker_labels(s: Seq<PreparedModel>, i: int)
    requires
        0 <= i < s.len(),
    ensures
        picker_labels(s).len() == s.len(),
        s[i].label matches Some(l) ==> picker_labels(s)[i] == l,
        s[i].label is None ==> picker_labels(s)[i] == s[i].url,
{
}

/// A row of the list that is kept in view is in view, no page goes past the end, and an
/// offset that shows the row already and does not go past the end stays.
pub proof fn law_kept_in_view(offset: usize, selected: usize, visible: usize, len: usize)
    requires
        selected < len,
        visible > 0,
    ensures
        kept_in_view(offset, selected, visible, len) <= selected < kept_in_view(
            offset,
            selected,
            visible,
            len,
        ) + visible,
        kept_in_view(offset, selected, visible, len) == 0 || kept_in_view(
            offset,
            selected,
            visible,
            len,
        ) + visible <= len,
        offset <= selected < offset + visible <= len ==> kept_in_view(
            offset,
            selected,
            visible,
            len,
        ) == offset,
{
}

/// Minimally adjust `offset` so `selected` stays within `[offset, offset+visible)`,
/// then clamp so the last page isn't scrolled past the end.
pub fn keep_in_view(offset: usize, selected: usize, visible: usize, len: usize) -> (r: usize)
    ensures
        r == kept_in_view(offset, selected, visible, len),
{
    let shown: usize = if visible == 0 {
        1
    } else {
        visible
    };
    let at: usize = if selected < offset {
        selected
    } else if selected - offset >= shown {
        selected - (shown - 1)
    } else {
        offset
    };
    let last: usize = if len < shown {
        0
    } else {
        len - shown
    };
    if at < last {
        at
    } else {
        last
    }
}

} // verus!
