//! Parsers: JSON text or HTML → domain models. No network, no encryption. What is read
//! out of a JSON value is a function of its own on [`Json`]; the functions on text
//! parse it first.
//!
//! ## Schemas
//!
//! **Catalog** (`GET /api/catalog/search`, decrypted):
//! ```json
//! {"data":[{"id":"1326","title":"...","poster_url":"...","season_year":2013}],
//!  "meta":{"total":2797,"page":1,"per_page":32,"total_pages":88}}
//! ```
//!
//! **Anime detail** (inline `<script>` on `/anime/{id}/{slug}`):
//! ```json
//! {"anime":{"id":1326,"title":{"userPreferred":"...","romaji":"..."},"description":"...",
//!   "coverImage":{"large":"..."},"genres":[],"status":"Ended",
//!   "episodesList":[{"id":95409,"number":1,"title":"..."}]}}
//! ```
//!
//! **Episode sources** (`POST /api/sources/anime`, decrypted):
//! ```json
//! [{"id":361656,"url":"https://vidmoly.biz/embed-...","host":"vidmoly",
//!   "language":"VOSTFR","episodeId":95409}]
//! ```

use crate::errors::{provider_changed, Error, Fault, Result};
use crate::json;
use crate::json::{Json, JsonModel};
use crate::models;
use crate::models::{
    AnimeDetails, AnimeId, AnimeSummary, CatalogPage, DetailsModel, Episode, EpisodeId,
    EpisodeModel, PageModel, PlayableSource, Quality, SourceModel, SubtitleTrack, SummaryModel,
};
use crate::number;
use crate::order;
use crate::text;
use vstd::prelude::*;

verus! {

/// A text, or the empty one.
pub open spec fn or_empty(s: Option<Seq<char>>) -> Seq<char> {
    match s {
        Some(s) => s,
        None => Seq::empty(),
    }
}

/// A number cut to its low 16 bits.
pub open spec fn low16(n: Option<u64>) -> Option<u16> {
    match n {
        Some(n) => Some((n % 0x1_0000) as u16),
        None => None,
    }
}

/// A number cut to its low 32 bits.
pub open spec fn low32(n: Option<u64>) -> Option<u32> {
    match n {
        Some(n) => Some((n % 0x1_0000_0000) as u32),
        None => None,
    }
}

/// The title that a catalogue item describes.
pub open spec fn summary_of(item: JsonModel) -> SummaryModel {
    SummaryModel {
        id: or_empty(json::as_text(json::at(item, "id"@))),
        title: or_empty(json::as_text(json::at(item, "title"@))),
        poster_url: json::as_text(json::at(item, "poster_url"@)),
        year: low16(json::as_unsigned(json::at(item, "season_year"@))),
    }
}

/// The titles that a catalogue response lists.
pub open spec fn catalog_items(v: JsonModel) -> Option<Seq<SummaryModel>> {
    match json::as_list(json::at(v, "data"@)) {
        Some(items) => Some(items.map_values(|item: JsonModel| summary_of(item))),
        None => None,
    }
}

/// The complaint that a response is not JSON.
pub open spec fn not_json(context: Seq<char>, complaint: Seq<char>) -> Fault {
    Fault::ProviderChanged { context, detail: "not valid JSON: "@ + complaint }
}

/// The complaint that a catalogue response lists nothing.
pub open spec fn no_data() -> Fault {
    Fault::ProviderChanged { context: "catalog"@, detail: "missing 'data' array"@ }
}

/// The counter of a catalogue response with the given name.
pub open spec fn meta(v: JsonModel, key: Seq<char>, otherwise: u32) -> u32 {
    match low32(json::as_unsigned(json::at(json::at(v, "meta"@), key))) {
        Some(n) => n,
        None => otherwise,
    }
}

/// The page that a catalogue response describes. Counters that are missing say that it
/// is the only page.
pub open spec fn catalog_page(v: JsonModel) -> Option<PageModel> {
    match catalog_items(v) {
        Some(items) => Some(
            PageModel {
                items,
                page: meta(v, "page"@, 1),
                total_pages: meta(v, "total_pages"@, 1),
                total: meta(v, "total"@, (items.len() % 0x1_0000_0000) as u32),
            },
        ),
        None => None,
    }
}

fn string_or_empty(s: Option<String>) -> (r: String)
    ensures
        r@ == or_empty(text::opt_text(s)),
{
    match s {
        Some(s) => s,
        None => String::new(),
    }
}

/// The title that a catalogue item describes.
fn summary(item: &Json) -> (r: AnimeSummary)
    ensures
        r@ == summary_of(item@),
{
    AnimeSummary {
        id: AnimeId(string_or_empty(item.string_at("id"))),
        title: string_or_empty(item.string_at("title")),
        poster_url: item.string_at("poster_url"),
        year: match item.u64_at("season_year") {
            Some(y) => Some((y % 0x1_0000) as u16),
            None => None,
        },
    }
}

/// The titles that a catalogue response lists.
pub fn catalog_from_json(v: &Json) -> (r: Result<Vec<AnimeSummary>>)
    ensures
        match r {
            Ok(items) => catalog_items(v@) == Some(models::summaries(items@)),
            Err(e) => catalog_items(v@) is None && e@ == no_data(),
        },
{
    let items = match v.list_at("data") {
        Some(items) => items,
        None => return Err(provider_changed("catalog", "missing 'data' array")),
    };
    let ghost all = json::models(items@);
    let mut out: Vec<AnimeSummary> = Vec::new();
    let mut i: usize = 0;
    while i < items.len()
        invariant
            i <= items@.len(),
            all == json::models(items@),
            models::summaries(out@) == all.take(i as int).map_values(
                |item: JsonModel| summary_of(item),
            ),
        decreases items@.len() - i,
    {
        let ghost before = out@;
        let a = summary(&items[i]);
        out.push(a);
        proof {
            assert(all[i as int] == items@[i as int]@);
            assert(models::summaries(out@) =~= models::summaries(before).push(a@));
            assert(all.take(i + 1).map_values(|item: JsonModel| summary_of(item)) =~= all.take(
                i as int,
            ).map_values(|item: JsonModel| summary_of(item)).push(summary_of(all[i as int])));
        }
        i = i + 1;
    }
    assert(all.take(all.len() as int) =~= all);
    Ok(out)
}

fn meta_or(v: &Json, key: &str, otherwise: u32) -> (r: u32)
    ensures
        r == meta(v@, key@, otherwise),
{
    let n: Option<u64> = match v.get("meta") {
        Some(m) => m.u64_at(key),
        None => None,
    };
    match n {
        Some(n) => (n % 0x1_0000_0000) as u32,
        None => otherwise,
    }
}

/// The page that a catalogue response describes.
pub fn page_from_json(v: &Json) -> (r: Result<CatalogPage>)
    ensures
        match r {
            Ok(page) => catalog_page(v@) == Some(page@),
            Err(e) => catalog_page(v@) is None && e@ == no_data(),
        },
{
    match catalog_from_json(v) {
        Ok(items) => {
            let total: u32 = (items.len() as u64 % 0x1_0000_0000) as u32;
            Ok(
                CatalogPage {
                    page: meta_or(v, "page", 1),
                    total_pages: meta_or(v, "total_pages", 1),
                    total: meta_or(v, "total", total),
                    items,
                },
            )
        },
        Err(e) => Err(e),
    }
}

/// The titles that a catalogue response lists, from its text.
pub fn parse_catalog(json: &str) -> (r: Result<Vec<AnimeSummary>>)
    ensures
        match (json::json_parsed(json@), r) {
            (Ok(v), Ok(items)) => catalog_items(v) == Some(models::summaries(items@)),
            (Ok(v), Err(e)) => catalog_items(v) is None && e@ == no_data(),
            (Err(m), Err(e)) => e@ == not_json("catalog"@, m),
            (Err(_), Ok(_)) => false,
        },
{
    match Json::parse(json) {
        Ok(v) => catalog_from_json(&v),
        Err(m) => Err(provider_changed("catalog", text::cat("not valid JSON: ", m.as_str()).as_str())),
    }
}

/// The page that a catalogue response describes, from its text.
pub fn parse_catalog_page(json: &str) -> (r: Result<CatalogPage>)
    ensures
        match (json::json_parsed(json@), r) {
            (Ok(v), Ok(page)) => catalog_page(v) == Some(page@),
            (Ok(v), Err(e)) => catalog_page(v) is None && e@ == no_data(),
            (Err(m), Err(e)) => e@ == not_json("catalog"@, m),
            (Err(_), Ok(_)) => false,
        },
{
    match Json::parse(json) {
        Ok(v) => page_from_json(&v),
        Err(m) => Err(provider_changed("catalog", text::cat("not valid JSON: ", m.as_str()).as_str())),
    }
}

/// The texts of the elements of a page that a CSS selector picks; nothing when the
/// selector is malformed.
pub uninterp spec fn selected_texts(html: Seq<char>, selector: Seq<char>) -> Option<
    Seq<Seq<char>>,
>;

/// scraper's `Html::parse_document`, `Selector::parse`, `Html::select` and
/// `ElementRef::text`: the text inside each picked element, in document order. It
/// depends on the page and the selector alone. Which elements a selector picks is left
/// unstated, but for the selector of inline scripts being well-formed.
#[verifier::external_body]
fn select_texts(html: &str, selector: &str) -> (r: Option<Vec<String>>)
    ensures
        match r {
            Some(v) => selected_texts(html@, selector@) == Some(text::texts(v@)),
            None => selected_texts(html@, selector@) is None,
        },
        selector@ == "script:not([src])"@ ==> r is Some,
{
    let selector = scraper::Selector::parse(selector).ok()?;
    let page = scraper::Html::parse_document(html);
    Some(page.select(&selector).map(|e| e.text().collect::<String>()).collect())
}

/// The first text that is the anime JSON, trimmed.
pub open spec fn anime_text(texts: Seq<Seq<char>>, i: int) -> Option<Seq<char>>
    decreases texts.len() - i,
{
    if i < 0 || i >= texts.len() {
        None
    } else if text::starts_with(text::trim(texts[i]), "{\"anime\":"@) {
        Some(text::trim(texts[i]))
    } else {
        anime_text(texts, i + 1)
    }
}

/// The complaint that a page holds no anime JSON.
pub open spec fn no_anime_script() -> Fault {
    Fault::ProviderChanged {
        context: "anime_detail"@,
        detail: "anime JSON not found in page <script> tags — page layout may have changed"@,
    }
}

/// The anime JSON among the texts of a page's inline scripts: the first that begins
/// with `{"anime":`.
pub fn find_anime_json(scripts: &Vec<String>) -> (r: Result<String>)
    ensures
        match r {
            Ok(s) => anime_text(text::texts(scripts@), 0) == Some(s@),
            Err(e) => anime_text(text::texts(scripts@), 0) is None && e@ == no_anime_script(),
        },
{
    let mut i: usize = 0;
    while i < scripts.len()
        invariant
            i <= scripts@.len(),
            anime_text(text::texts(scripts@), i as int) == anime_text(text::texts(scripts@), 0),
        decreases scripts@.len() - i,
    {
        let trimmed = text::str_trimmed(scripts[i].as_str());
        if text::str_begins(trimmed.as_str(), "{\"anime\":") {
            return Ok(trimmed);
        }
        i = i + 1;
    }
    Err(
        provider_changed(
            "anime_detail",
            "anime JSON not found in page <script> tags — page layout may have changed",
        ),
    )
}

/// The anime JSON of a detail page.
pub open spec fn page_json(html: Seq<char>) -> Option<Seq<char>> {
    match selected_texts(html, "script:not([src])"@) {
        Some(texts) => anime_text(texts, 0),
        None => None,
    }
}

/// Extract the inline anime JSON from a detail HTML page.
///
/// The JSON is embedded verbatim in a `<script>` tag (no `src`) as
/// `{"anime": {...}, "watchedEpisodes": [...], ...}`. A second `<script>`
/// tag on the same page carries JSON-LD schema markup; we skip it by
/// checking that the content starts with `{"anime":`.
pub fn extract_anime_json_from_html(html: &str) -> (r: Result<String>)
    ensures
        match r {
            Ok(s) => page_json(html@) == Some(s@),
            Err(e) => page_json(html@) is None && e@ == no_anime_script(),
        },
{
    match select_texts(html, "script:not([src])") {
        Some(scripts) => find_anime_json(&scripts),
        None => find_anime_json(&Vec::new()),
    }
}

/// The label that a value is: a text itself, and of other values the JSON text.
pub open spec fn label_text(v: JsonModel) -> Seq<char> {
    match json::as_text(v) {
        Some(s) => s,
        None => json::json_text(v),
    }
}

/// The episode that an item of the episode list describes.
pub open spec fn episode_of(ep: JsonModel) -> EpisodeModel {
    EpisodeModel {
        id: json::json_text(json::at(ep, "id"@)),
        number: label_text(json::at(ep, "number"@)),
        title: json::as_text(json::at(ep, "title"@)),
        season_id: low32(json::as_unsigned(json::at(ep, "seasonId"@))),
    }
}

/// What an episode is sorted by: its season and then its number. Episodes without a
/// season, and those whose number is no number, come last.
pub open spec fn episode_key(e: EpisodeModel) -> u128 {
    let season = match e.season_id {
        Some(s) => s,
        None => u32::MAX,
    };
    let n = match number::parsed(e.number, 10, u64::MAX as nat) {
        Some(n) => n,
        None => u64::MAX as nat,
    };
    (season * 0x1_0000_0000_0000_0000 + n) as u128
}

/// Episodes in order of season and number; episodes with the same season and number
/// keep the order they came in.
pub open spec fn in_order(eps: Seq<EpisodeModel>) -> Seq<EpisodeModel> {
    order::sorted_by(eps, |e: EpisodeModel| episode_key(e))
}

/// The episodes of an episode list, as they come.
pub open spec fn listed_episodes(anime: JsonModel) -> Seq<EpisodeModel> {
    match json::as_list(json::at(anime, "episodesList"@)) {
        Some(items) => items.map_values(|ep: JsonModel| episode_of(ep)),
        None => Seq::empty(),
    }
}

/// The texts of a list; other items are left out.
pub open spec fn texts_of(items: Seq<JsonModel>) -> Seq<Seq<char>>
    decreases items.len(),
{
    if items.len() == 0 {
        Seq::empty()
    } else {
        match json::as_text(items.last()) {
            Some(s) => texts_of(items.drop_last()).push(s),
            None => texts_of(items.drop_last()),
        }
    }
}

/// The title of an anime: the preferred one, else the romanised one.
pub open spec fn title_of(anime: JsonModel) -> Seq<char> {
    let title = json::at(anime, "title"@);
    match json::as_text(json::at(title, "userPreferred"@)) {
        Some(s) => s,
        None => or_empty(json::as_text(json::at(title, "romaji"@))),
    }
}

/// The details that the anime JSON describes; none when it has no anime.
pub open spec fn details_of(v: JsonModel) -> Option<DetailsModel> {
    let anime = json::at(v, "anime"@);
    if anime is Null {
        None
    } else {
        Some(
            DetailsModel {
                id: json::json_text(json::at(anime, "id"@)),
                title: title_of(anime),
                description: json::as_text(json::at(anime, "description"@)),
                poster_url: json::as_text(json::at(json::at(anime, "coverImage"@), "large"@)),
                genres: match json::as_list(json::at(anime, "genres"@)) {
                    Some(items) => texts_of(items),
                    None => Seq::empty(),
                },
                status: json::as_text(json::at(anime, "status"@)),
                episodes: in_order(listed_episodes(anime)),
            },
        )
    }
}

/// The complaint that the anime JSON has no anime.
pub open spec fn no_anime() -> Fault {
    Fault::ProviderChanged {
        context: "anime_detail"@,
        detail: "missing 'anime' key in script JSON"@,
    }
}

/// The episodes of a title are sorted by season and number, and are exactly those that
/// were listed, each as often as it was; those with the same season and number keep the
/// order they were listed in.
pub proof fn law_episodes_in_order(eps: Seq<EpisodeModel>, key: u128)
    ensures
        in_order(eps).to_multiset() == eps.to_multiset(),
        in_order(eps).len() == eps.len(),
        forall|i: int, j: int|
            0 <= i <= j < eps.len() ==> episode_key(#[trigger] in_order(eps)[i]) <= episode_key(
                #[trigger] in_order(eps)[j],
            ),
        in_order(eps).filter(|e: EpisodeModel| episode_key(e) == key) == eps.filter(
            |e: EpisodeModel| episode_key(e) == key,
        ),
{
    let f = |e: EpisodeModel| episode_key(e);
    order::law_sorted_by(eps, f, key);
    assert((|e: EpisodeModel| episode_key(e) == key) =~= (|e: EpisodeModel| f(e) == key));
    assert forall|i: int, j: int| 0 <= i <= j < eps.len() implies episode_key(
        #[trigger] in_order(eps)[i],
    ) <= episode_key(#[trigger] in_order(eps)[j]) by {
        assert(f(in_order(eps)[i]) <= f(in_order(eps)[j]));
    }
}

/// The episode that an item of the episode list describes.
fn episode(ep: &Json) -> (r: Episode)
    requires
        json::ordered(ep@),
    ensures
        r@ == episode_of(ep@),
{
    Episode {
        id: EpisodeId(ep.text_at("id")),
        number: match ep.string_at("number") {
            Some(s) => s,
            None => ep.text_at("number"),
        },
        title: ep.string_at("title"),
        season_id: match ep.u64_at("seasonId") {
            Some(v) => Some((v % 0x1_0000_0000) as u32),
            None => None,
        },
    }
}

/// What an episode is sorted by.
fn sort_key(e: &Episode) -> (r: u128)
    ensures
        r == episode_key(e@),
{
    let season: u32 = match e.season_id {
        Some(s) => s,
        None => u32::MAX,
    };
    let digits = text::chars_of(e.number.as_str());
    let n: u64 = match number::parse(digits.as_slice(), 10, u64::MAX) {
        Some(n) => n,
        None => u64::MAX,
    };
    season as u128 * 0x1_0000_0000_0000_0000 + n as u128
}

/// Sort by season then by episode number so seasons are grouped correctly.
fn sorted_episodes(items: &Vec<Json>) -> (r: Vec<Episode>)
    requires
        forall|i: int| 0 <= i < items@.len() ==> json::ordered((#[trigger] items@[i])@),
    ensures
        models::episode_models(r@) == in_order(
            json::models(items@).map_values(|ep: JsonModel| episode_of(ep)),
        ),
{
    let ghost eps = json::models(items@).map_values(|ep: JsonModel| episode_of(ep));
    let mut pairs: Vec<(u128, Episode)> = Vec::new();
    let mut i: usize = 0;
    while i < items.len()
        invariant
            i <= items@.len(),
            forall|i: int| 0 <= i < items@.len() ==> json::ordered((#[trigger] items@[i])@),
            eps == json::models(items@).map_values(|ep: JsonModel| episode_of(ep)),
            pairs@.len() == i,
            forall|k: int|
                0 <= k < i ==> (#[trigger] pairs@[k]).0 == episode_key(eps[k]) && pairs@[k].1@
                    == eps[k],
        decreases items@.len() - i,
    {
        let e = episode(&items[i]);
        let key: u128 = sort_key(&e);
        pairs.push((key, e));
        i = i + 1;
    }
    let ghost before = pairs@;
    let out = order::in_order_of_keys(pairs);
    proof {
        let f = |e: Episode| e@;
        order::lemma_sorted_relabelled(before, f);
        assert(order::relabelled(before, f) =~= order::keyed(
            eps,
            |e: EpisodeModel| episode_key(e),
        ));
        assert(models::episode_models(out@) =~= order::relabelled(order::sorted(before), f).map_values(
            |p: (u128, EpisodeModel)| p.1,
        ));
    }
    out
}

/// The texts of a list.
fn string_list(items: &Vec<Json>) -> (r: Vec<String>)
    ensures
        text::texts(r@) == texts_of(json::models(items@)),
{
    let ghost all = json::models(items@);
    let mut out: Vec<String> = Vec::new();
    let mut i: usize = 0;
    while i < items.len()
        invariant
            i <= items@.len(),
            all == json::models(items@),
            text::texts(out@) == texts_of(all.take(i as int)),
        decreases items@.len() - i,
    {
        proof {
            assert(all.take(i + 1).drop_last() =~= all.take(i as int));
            assert(all.take(i + 1).last() == items@[i as int]@);
        }
        if let Some(s) = items[i].as_str() {
            text::put_str(&mut out, s);
        }
        i = i + 1;
    }
    assert(all.take(all.len() as int) =~= all);
    out
}

/// The details that the anime JSON describes.
pub fn details_from_json(v: &Json) -> (r: Result<AnimeDetails>)
    requires
        json::ordered(v@),
    ensures
        match r {
            Ok(d) => details_of(v@) == Some(d@),
            Err(e) => details_of(v@) is None && e@ == no_anime(),
        },
{
    let anime = match v.get("anime") {
        Some(Json::Null) => return Err(
            provider_changed("anime_detail", "missing 'anime' key in script JSON"),
        ),
        Some(anime) => anime,
        None => return Err(provider_changed("anime_detail", "missing 'anime' key in script JSON")),
    };
    let title = match anime.get("title") {
        Some(t) => match t.string_at("userPreferred") {
            Some(s) => s,
            None => string_or_empty(t.string_at("romaji")),
        },
        None => String::new(),
    };
    let episodes = match anime.list_at("episodesList") {
        Some(items) => sorted_episodes(items),
        None => Vec::new(),
    };
    let genres = match anime.list_at("genres") {
        Some(items) => string_list(items),
        None => Vec::new(),
    };
    let poster_url = match anime.get("coverImage") {
        Some(c) => c.string_at("large"),
        None => None,
    };
    let d = AnimeDetails {
        id: AnimeId(anime.text_at("id")),
        title,
        description: anime.string_at("description"),
        poster_url,
        genres,
        status: anime.string_at("status"),
        episodes,
    };
    proof {
        if json::as_list(json::at(anime@, "episodesList"@)) is None {
            assert(in_order(Seq::empty()) =~= Seq::<EpisodeModel>::empty());
            assert(d@.episodes =~= Seq::<EpisodeModel>::empty());
        }
        if json::as_list(json::at(anime@, "genres"@)) is None {
            assert(d@.genres =~= Seq::<Seq<char>>::empty());
        }
        assert(d@ =~= details_of(v@)->0);
    }
    Ok(d)
}

/// What parsing the text of the anime JSON gives.
pub open spec fn details_parsed(json: Seq<char>, r: Result<AnimeDetails>) -> bool {
    match (json::json_parsed(json), r) {
        (Ok(v), Ok(d)) => details_of(v) == Some(d@),
        (Ok(v), Err(e)) => details_of(v) is None && e@ == no_anime(),
        (Err(m), Err(e)) => e@ == not_json("anime_detail"@, m),
        (Err(_), Ok(_)) => false,
    }
}

/// Parse the inline anime JSON extracted by [`extract_anime_json_from_html`].
pub fn parse_anime_details(json: &str) -> (r: Result<AnimeDetails>)
    ensures
        details_parsed(json@, r),
{
    match Json::parse(json) {
        Ok(v) => details_from_json(&v),
        Err(m) => Err(
            provider_changed("anime_detail", text::cat("not valid JSON: ", m.as_str()).as_str()),
        ),
    }
}

/// Convenience: parse `AnimeDetails` directly from a detail HTML page.
pub fn parse_anime_details_from_html(html: &str) -> (r: Result<AnimeDetails>)
    ensures
        match page_json(html@) {
            Some(json) => details_parsed(json, r),
            None => r matches Err(e) && e@ == no_anime_script(),
        },
{
    match extract_anime_json_from_html(html) {
        Ok(json) => parse_anime_details(json.as_str()),
        Err(e) => Err(e),
    }
}

/// The text that a field holds, or a question mark.
pub open spec fn or_unknown(s: Option<Seq<char>>) -> Seq<char> {
    match s {
        Some(s) => s,
        None => "?"@,
    }
}

/// The stream that an item of the source list describes; none without a URL.
pub open spec fn source_of(src: JsonModel) -> Option<SourceModel> {
    match json::as_text(json::at(src, "url"@)) {
        Some(url) => Some(
            SourceModel {
                url,
                quality: Quality::Unknown,
                label: Some(
                    or_unknown(json::as_text(json::at(src, "host"@))) + " ("@ + or_unknown(
                        json::as_text(json::at(src, "language"@)),
                    ) + ")"@,
                ),
                http_headers: seq![("Referer"@, "https://nakanime.tv/"@)],
                subtitles: Seq::<SubtitleTrack>::empty(),
            },
        ),
        None => None,
    }
}

/// The streams that a source list describes.
pub open spec fn sources_of(items: Seq<JsonModel>) -> Seq<SourceModel>
    decreases items.len(),
{
    if items.len() == 0 {
        Seq::empty()
    } else {
        match source_of(items.last()) {
            Some(s) => sources_of(items.drop_last()).push(s),
            None => sources_of(items.drop_last()),
        }
    }
}

/// The complaint that an episode has no source.
pub open spec fn no_sources() -> Fault {
    Fault::Resolve("no sources available for this episode"@)
}

/// The stream of a source item is at its `url`, is labelled with its `host` and, in
/// brackets, its `language`, and is fetched with the site as the referrer. A host or a
/// language that is missing shows as a question mark; an item without a URL is no stream.
pub proof fn law_source_fields(
    src: JsonModel,
    url: Seq<char>,
    host: Option<Seq<char>>,
    language: Option<Seq<char>>,
)
    requires
        match host {
            Some(h) => json::holds(src, "host"@, JsonModel::Text(h)),
            None => json::lacks(src, "host"@),
        },
        match language {
            Some(l) => json::holds(src, "language"@, JsonModel::Text(l)),
            None => json::lacks(src, "language"@),
        },
    ensures
        json::holds(src, "url"@, JsonModel::Text(url)) ==> (source_of(src) matches Some(s) && {
            &&& s.url == url
            &&& s.label == Some(
                host.unwrap_or("?"@) + " ("@ + language.unwrap_or("?"@) + ")"@,
            )
            &&& s.http_headers == seq![("Referer"@, "https://nakanime.tv/"@)]
            &&& s.subtitles.len() == 0
        }),
        json::lacks(src, "url"@) ==> source_of(src) is None,
{
    json::law_members_are_found(src, "url"@, JsonModel::Text(url));
    json::law_members_are_found(src, "host"@, JsonModel::Text(host.unwrap_or(Seq::empty())));
    json::law_members_are_found(
        src,
        "language"@,
        JsonModel::Text(language.unwrap_or(Seq::empty())),
    );
}

/// The streams of a list are those of its items, in the order of the items: a list of
/// one item gives its stream or nothing, and a longer list what its parts give.
pub proof fn law_sources_in_order(a: Seq<JsonModel>, b: Seq<JsonModel>, src: JsonModel)
    ensures
        sources_of(a + b) == sources_of(a) + sources_of(b),
        sources_of(seq![src]) == (match source_of(src) {
            Some(s) => seq![s],
            None => Seq::empty(),
        }),
    decreases b.len(),
{
    assert(seq![src].drop_last() =~= Seq::<JsonModel>::empty());
    assert(sources_of(seq![src].drop_last()) =~= Seq::<SourceModel>::empty());
    assert(sources_of(seq![src]) =~= (match source_of(src) {
        Some(s) => seq![s],
        None => Seq::empty(),
    }));
    if b.len() == 0 {
        assert(a + b =~= a);
        assert(sources_of(a) + sources_of(b) =~= sources_of(a));
    } else {
        law_sources_in_order(a, b.drop_last(), src);
        assert((a + b).drop_last() =~= a + b.drop_last());
        assert((a + b).last() == b.last());
        assert(sources_of(a + b) =~= sources_of(a) + sources_of(b));
    }
}

/// The title that a catalogue item describes has its `id`, its `title`, its
/// `poster_url` and its `season_year`; what the item lacks is empty or missing.
pub proof fn law_summary_fields(
    item: JsonModel,
    id: Seq<char>,
    title: Seq<char>,
    poster: Seq<char>,
    year: JsonModel,
    y: u16,
)
    requires
        json::counts(year, y as u64),
    ensures
        json::holds(item, "id"@, JsonModel::Text(id)) ==> summary_of(item).id == id,
        json::lacks(item, "id"@) ==> summary_of(item).id.len() == 0,
        json::holds(item, "title"@, JsonModel::Text(title)) ==> summary_of(item).title == title,
        json::lacks(item, "title"@) ==> summary_of(item).title.len() == 0,
        json::holds(item, "poster_url"@, JsonModel::Text(poster)) ==> summary_of(item).poster_url
            == Some(poster),
        json::lacks(item, "poster_url"@) ==> summary_of(item).poster_url is None,
        json::holds(item, "season_year"@, year) ==> summary_of(item).year == Some(y),
        json::lacks(item, "season_year"@) ==> summary_of(item).year is None,
{
    json::law_members_are_found(item, "id"@, JsonModel::Text(id));
    json::law_members_are_found(item, "title"@, JsonModel::Text(title));
    json::law_members_are_found(item, "poster_url"@, JsonModel::Text(poster));
    json::law_members_are_found(item, "season_year"@, year);
}

/// A catalogue page lists a title for each item of its `data`, in order, and takes its
/// counters from the members of `meta` that are named like them. Without counters it is
/// the only page, and as long as it is.
pub proof fn law_page_fields(
    v: JsonModel,
    items: Seq<JsonModel>,
    meta: JsonModel,
    page: JsonModel,
    p: u32,
    pages: JsonModel,
    n: u32,
    total: JsonModel,
    t: u32,
)
    requires
        json::holds(v, "data"@, JsonModel::List(items)),
        items.len() <= u32::MAX,
        json::counts(page, p as u64),
        json::counts(pages, n as u64),
        json::counts(total, t as u64),
    ensures
        catalog_page(v) matches Some(shown) && {
            &&& shown.items.len() == items.len()
            &&& forall|i: int|
                0 <= i < items.len() ==> #[trigger] shown.items[i] == summary_of(items[i])
            &&& json::holds(v, "meta"@, meta) ==> {
                &&& json::holds(meta, "page"@, page) ==> shown.page == p
                &&& json::holds(meta, "total_pages"@, pages) ==> shown.total_pages == n
                &&& json::holds(meta, "total"@, total) ==> shown.total == t
            }
            &&& json::lacks(v, "meta"@) ==> shown.page == 1 && shown.total_pages == 1
                && shown.total == items.len()
        },
{
    json::law_members_are_found(v, "data"@, JsonModel::List(items));
    json::law_members_are_found(v, "meta"@, meta);
    json::law_members_are_found(meta, "page"@, page);
    json::law_members_are_found(meta, "total_pages"@, pages);
    json::law_members_are_found(meta, "total"@, total);
}

/// A response without a list as its `data` is no catalogue page.
pub proof fn law_no_page_without_data(v: JsonModel, data: JsonModel)
    ensures
        json::lacks(v, "data"@) ==> catalog_page(v) is None,
        json::holds(v, "data"@, data) && !(data is List) ==> catalog_page(v) is None,
{
    json::law_members_are_found(v, "data"@, data);
}

/// An episode is named by the JSON text of its `id`, has the `number` that is shown
/// whether it is a text or a number, its `title`, and the season of its `seasonId`.
pub proof fn law_episode_fields(
    ep: JsonModel,
    id: JsonModel,
    number: JsonModel,
    title: Seq<char>,
    season: JsonModel,
    s: u32,
)
    requires
        json::counts(season, s as u64),
    ensures
        json::holds(ep, "id"@, id) ==> episode_of(ep).id == json::json_text(id),
        json::holds(ep, "number"@, number) ==> episode_of(ep).number == (match number {
            JsonModel::Text(t) => t,
            _ => json::json_text(number),
        }),
        json::holds(ep, "title"@, JsonModel::Text(title)) ==> episode_of(ep).title == Some(title),
        json::lacks(ep, "title"@) ==> episode_of(ep).title is None,
        json::holds(ep, "seasonId"@, season) ==> episode_of(ep).season_id == Some(s),
        json::lacks(ep, "seasonId"@) ==> episode_of(ep).season_id is None,
{
    json::law_members_are_found(ep, "id"@, id);
    json::law_members_are_found(ep, "number"@, number);
    json::law_members_are_found(ep, "title"@, JsonModel::Text(title));
    json::law_members_are_found(ep, "seasonId"@, season);
}

/// An episode comes before another when its season is the smaller one, and within a
/// season when its number is. Episodes without a season come behind those with one, and
/// those whose number is no number behind those of their season that have one.
pub proof fn law_episode_order(a: EpisodeModel, b: EpisodeModel, m: u64, n: u64)
    requires
        n < u64::MAX,
    ensures
        ({
            let first = episode_key(a) < episode_key(b);
            let numbers = a.number == number::digits(m as nat) && b.number == number::digits(
                n as nat,
            );
            &&& (a.season_id matches Some(s) && b.season_id matches Some(t) && s < t) ==> first
            &&& (a.season_id matches Some(s) && s < u32::MAX && b.season_id is None) ==> first
            &&& a.season_id == b.season_id && numbers && m < n ==> first
            &&& a.season_id == b.season_id && a.number == number::digits(m as nat) && m < u64::MAX
                && b.number.len() == 0 ==> first
            &&& a.season_id == b.season_id && numbers && m == n ==> episode_key(a) == episode_key(b)
        }),
{
    number::law_decimal_round_trip(m as nat, u64::MAX as nat);
    number::law_decimal_round_trip(n as nat, u64::MAX as nat);
}

/// The details of a title come from the members of `anime`: its `id`, the preferred or
/// else the romanised `title`, its `description`, the large cover, its `status`, its
/// `genres`, and its episodes, put in order. Without an `anime` there are none.
pub proof fn law_details_fields(
    v: JsonModel,
    anime: JsonModel,
    id: JsonModel,
    titles: JsonModel,
    cover: JsonModel,
    s: Seq<char>,
    genres: Seq<Seq<char>>,
    items: Seq<JsonModel>,
)
    requires
        json::holds(v, "anime"@, anime),
        anime is Object,
    ensures
        details_of(v) matches Some(d) && {
            &&& json::holds(anime, "id"@, id) ==> d.id == json::json_text(id)
            &&& json::holds(anime, "title"@, titles) ==> {
                &&& json::holds(titles, "userPreferred"@, JsonModel::Text(s)) ==> d.title == s
                &&& json::lacks(titles, "userPreferred"@) && json::holds(
                    titles,
                    "romaji"@,
                    JsonModel::Text(s),
                ) ==> d.title == s
            }
            &&& json::holds(anime, "description"@, JsonModel::Text(s)) ==> d.description == Some(s)
            &&& json::lacks(anime, "description"@) ==> d.description is None
            &&& json::holds(anime, "coverImage"@, cover) && json::holds(
                cover,
                "large"@,
                JsonModel::Text(s),
            ) ==> d.poster_url == Some(s)
            &&& json::holds(anime, "status"@, JsonModel::Text(s)) ==> d.status == Some(s)
            &&& json::lacks(anime, "status"@) ==> d.status is None
            &&& json::holds(
                anime,
                "genres"@,
                JsonModel::List(genres.map_values(|g: Seq<char>| JsonModel::Text(g))),
            ) ==> d.genres == genres
            &&& json::holds(anime, "episodesList"@, JsonModel::List(items)) ==> d.episodes
                == in_order(items.map_values(|ep: JsonModel| episode_of(ep)))
            &&& json::lacks(anime, "episodesList"@) ==> d.episodes.len() == 0
        },
{
    let named = genres.map_values(|g: Seq<char>| JsonModel::Text(g));
    json::law_members_are_found(v, "anime"@, anime);
    json::law_members_are_found(anime, "id"@, id);
    json::law_members_are_found(anime, "title"@, titles);
    json::law_members_are_found(titles, "userPreferred"@, JsonModel::Text(s));
    json::law_members_are_found(titles, "romaji"@, JsonModel::Text(s));
    json::law_members_are_found(anime, "description"@, JsonModel::Text(s));
    json::law_members_are_found(anime, "coverImage"@, cover);
    json::law_members_are_found(cover, "large"@, JsonModel::Text(s));
    json::law_members_are_found(anime, "status"@, JsonModel::Text(s));
    json::law_members_are_found(anime, "genres"@, JsonModel::List(named));
    json::law_members_are_found(anime, "episodesList"@, JsonModel::List(items));
    lemma_texts_of(genres);
    law_episodes_in_order(Seq::empty(), 0);
}

/// Without an `anime` there are no details.
pub proof fn law_no_details_without_anime(v: JsonModel)
    ensures
        json::lacks(v, "anime"@) || json::holds(v, "anime"@, JsonModel::Null) ==> details_of(v) is None,
{
    json::law_members_are_found(v, "anime"@, JsonModel::Null);
}

proof fn lemma_texts_of(list: Seq<Seq<char>>)
    ensures
        texts_of(list.map_values(|g: Seq<char>| JsonModel::Text(g))) == list,
    decreases list.len(),
{
    let named = list.map_values(|g: Seq<char>| JsonModel::Text(g));
    if list.len() > 0 {
        lemma_texts_of(list.drop_last());
        assert(named.drop_last() =~= list.drop_last().map_values(
            |g: Seq<char>| JsonModel::Text(g),
        ));
        assert(list.drop_last().push(list.last()) =~= list);
    } else {
        assert(texts_of(named) =~= list);
    }
}

/// The anime JSON of a page is the first inline script that begins with it, trimmed.
pub proof fn law_anime_script(before: Seq<Seq<char>>, script: Seq<char>, behind: Seq<Seq<char>>)
    requires
        text::starts_with(text::trim(script), "{\"anime\":"@),
        forall|i: int|
            0 <= i < before.len() ==> !text::starts_with(
                text::trim(#[trigger] before[i]),
                "{\"anime\":"@,
            ),
    ensures
        anime_text(before.push(script) + behind, 0) == Some(text::trim(script)),
        anime_text(before, 0) is None,
{
    lemma_anime_text(before.push(script) + behind, 0, before.len() as int);
    lemma_no_anime_text(before, 0);
}

proof fn lemma_anime_text(texts: Seq<Seq<char>>, i: int, k: int)
    requires
        0 <= i <= k < texts.len(),
        text::starts_with(text::trim(texts[k]), "{\"anime\":"@),
        forall|j: int|
            i <= j < k ==> !text::starts_with(text::trim(#[trigger] texts[j]), "{\"anime\":"@),
    ensures
        anime_text(texts, i) == Some(text::trim(texts[k])),
    decreases k - i,
{
    if i < k {
        lemma_anime_text(texts, i + 1, k);
    }
}

proof fn lemma_no_anime_text(texts: Seq<Seq<char>>, i: int)
    requires
        0 <= i <= texts.len(),
        forall|j: int|
            i <= j < texts.len() ==> !text::starts_with(
                text::trim(#[trigger] texts[j]),
                "{\"anime\":"@,
            ),
    ensures
        anime_text(texts, i) is None,
    decreases texts.len() - i,
{
    if i < texts.len() {
        lemma_no_anime_text(texts, i + 1);
    }
}

fn str_or_unknown<'a>(s: Option<&'a str>) -> (r: &'a str)
    ensures
        r@ == (match s {
            Some(s) => s@,
            None => "?"@,
        }),
{
    match s {
        Some(s) => s,
        None => "?",
    }
}

/// The stream that an item of the source list describes.
fn source(src: &Json) -> (r: Option<PlayableSource>)
    ensures
        match r {
            Some(s) => source_of(src@) == Some(s@),
            None => source_of(src@) is None,
        },
{
    let url = match src.string_at("url") {
        Some(url) => url,
        None => return None,
    };
    let mut label = str_or_unknown(src.str_at("host")).to_string();
    label.append(" (");
    label.append(str_or_unknown(src.str_at("language")));
    label.append(")");
    let mut http_headers: Vec<(String, String)> = Vec::new();
    http_headers.push(("Referer".to_string(), "https://nakanime.tv/".to_string()));
    let s = PlayableSource {
        url,
        quality: Quality::Unknown,
        label: Some(label),
        http_headers,
        subtitles: Vec::new(),
    };
    assert(s@ =~= source_of(src@)->0);
    Some(s)
}

/// The streams that a source list describes; an empty list is an error.
pub fn sources_from_json(items: &Vec<Json>) -> (r: Result<Vec<PlayableSource>>)
    ensures
        match r {
            Ok(v) => items@.len() > 0 && models::source_models(v@) == sources_of(
                json::models(items@),
            ),
            Err(e) => items@.len() == 0 && e@ == no_sources(),
        },
{
    if items.len() == 0 {
        return Err(Error::Resolve("no sources available for this episode".to_string()));
    }
    let ghost all = json::models(items@);
    let mut out: Vec<PlayableSource> = Vec::new();
    let mut i: usize = 0;
    while i < items.len()
        invariant
            i <= items@.len(),
            all == json::models(items@),
            models::source_models(out@) == sources_of(all.take(i as int)),
        decreases items@.len() - i,
    {
        let ghost before = out@;
        proof {
            assert(all.take(i + 1).drop_last() =~= all.take(i as int));
            assert(all.take(i + 1).last() == items@[i as int]@);
        }
        if let Some(s) = source(&items[i]) {
            out.push(s);
            assert(models::source_models(out@) =~= models::source_models(before).push(s@));
        }
        i = i + 1;
    }
    assert(all.take(all.len() as int) =~= all);
    Ok(out)
}

/// Parse the decrypted sources array from `POST /api/sources/anime`.
/// Each source carries an embed-page URL that mpv (with yt-dlp) can resolve.
pub fn parse_episode_sources(json: &str) -> (r: Result<Vec<PlayableSource>>)
    ensures
        match (json::json_list_parsed(json@), r) {
            (Ok(items), Ok(v)) => items.len() > 0 && models::source_models(v@) == sources_of(items),
            (Ok(items), Err(e)) => items.len() == 0 && e@ == no_sources(),
            (Err(m), Err(e)) => e@ == not_json("sources"@, m),
            (Err(_), Ok(_)) => false,
        },
{
    match Json::parse_list(json) {
        Ok(items) => sources_from_json(&items),
        Err(m) => Err(provider_changed("sources", text::cat("not valid JSON: ", m.as_str()).as_str())),
    }
}

/// The details are looked for in the scripts that stand in the page itself, in their
/// order.
pub proof fn law_page_scripts(html: Seq<char>, scripts: Seq<Seq<char>>)
    ensures
        selected_texts(html, "script:not([src])"@) == Some(scripts) ==> page_json(html)
            == anime_text(scripts, 0),
{
}

/// A script that is no JSON is told from one that lacks the anime.
pub proof fn law_details_failures(
    json: Seq<char>,
    m: Seq<char>,
    v: JsonModel,
    r: Result<AnimeDetails>,
)
    requires
        details_parsed(json, r),
    ensures
        json::json_parsed(json) == Err::<JsonModel, Seq<char>>(m) ==> (r matches Err(e) && e@ == (
        Fault::ProviderChanged { context: "anime_detail"@, detail: "not valid JSON: "@ + m })),
        json::json_parsed(json) == Ok::<JsonModel, Seq<char>>(v) && details_of(v) is None ==> (
        r matches Err(e) && e@ == (
        Fault::ProviderChanged {
            context: "anime_detail"@,
            detail: "missing 'anime' key in script JSON"@,
        })),
        json::json_parsed(json) == Ok::<JsonModel, Seq<char>>(v) && details_of(v) is Some ==> r is Ok,
{
}

} // verus!
