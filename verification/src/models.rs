//! Provider-agnostic domain types shared across the app, UI, and persistence.
//! Nothing here is specific to one provider.

use vstd::prelude::*;

verus! {

/// Stable identifier for a title within a provider (e.g. a slug or numeric id).
/// Kept opaque so different providers can use different id schemes.
#[derive(Debug, PartialEq, Eq, Hash)]
pub struct AnimeId(pub String);

impl View for AnimeId {
    type V = Seq<char>;

    open spec fn view(&self) -> Seq<char> {
        self.0@
    }
}

impl Clone for AnimeId {
    fn clone(&self) -> (r: Self)
        ensures
            r == *self,
    {
        AnimeId(self.0.clone())
    }
}

/// Identifier of one episode within a provider.
#[derive(Debug, PartialEq, Eq)]
pub struct EpisodeId(pub String);

impl View for EpisodeId {
    type V = Seq<char>;

    open spec fn view(&self) -> Seq<char> {
        self.0@
    }
}

impl Clone for EpisodeId {
    fn clone(&self) -> (r: Self)
        ensures
            r == *self,
    {
        EpisodeId(self.0.clone())
    }
}

/// A title as a browse list shows it.
#[derive(Debug, PartialEq, Eq)]
pub struct AnimeSummary {
    pub id: AnimeId,
    pub title: String,
    pub poster_url: Option<String>,
    pub year: Option<u16>,
}

/// What an [`AnimeSummary`] holds.
pub ghost struct SummaryModel {
    pub id: Seq<char>,
    pub title: Seq<char>,
    pub poster_url: Option<Seq<char>>,
    pub year: Option<u16>,
}

impl View for AnimeSummary {
    type V = SummaryModel;

    open spec fn view(&self) -> SummaryModel {
        SummaryModel {
            id: self.id@,
            title: self.title@,
            poster_url: crate::text::opt_text(self.poster_url),
            year: self.year,
        }
    }
}

impl Clone for AnimeSummary {
    fn clone(&self) -> (r: Self)
        ensures
            r == *self,
    {
        AnimeSummary {
            id: self.id.clone(),
            title: self.title.clone(),
            poster_url: clone_text(&self.poster_url),
            year: self.year,
        }
    }
}

/// One page of the catalogue, with the provider's pagination counters.
#[derive(Debug)]
pub struct CatalogPage {
    pub items: Vec<AnimeSummary>,
    pub page: u32,
    pub total_pages: u32,
    pub total: u32,
}

/// What a list of titles holds.
pub open spec fn summaries(v: Seq<AnimeSummary>) -> Seq<SummaryModel> {
    v.map_values(|a: AnimeSummary| a@)
}

/// What a [`CatalogPage`] holds.
#[verifier::ext_equal]
pub ghost struct PageModel {
    pub items: Seq<SummaryModel>,
    pub page: u32,
    pub total_pages: u32,
    pub total: u32,
}

impl View for CatalogPage {
    type V = PageModel;

    open spec fn view(&self) -> PageModel {
        PageModel {
            items: summaries(self.items@),
            page: self.page,
            total_pages: self.total_pages,
            total: self.total,
        }
    }
}

/// Everything the details screen shows of a title.
#[derive(Debug)]
pub struct AnimeDetails {
    pub id: AnimeId,
    pub title: String,
    pub description: Option<String>,
    pub poster_url: Option<String>,
    pub genres: Vec<String>,
    pub status: Option<String>,
    pub episodes: Vec<Episode>,
}

/// What an [`AnimeDetails`] holds.
#[verifier::ext_equal]
pub ghost struct DetailsModel {
    pub id: Seq<char>,
    pub title: Seq<char>,
    pub description: Option<Seq<char>>,
    pub poster_url: Option<Seq<char>>,
    pub genres: Seq<Seq<char>>,
    pub status: Option<Seq<char>>,
    pub episodes: Seq<EpisodeModel>,
}

impl View for AnimeDetails {
    type V = DetailsModel;

    open spec fn view(&self) -> DetailsModel {
        DetailsModel {
            id: self.id@,
            title: self.title@,
            description: crate::text::opt_text(self.description),
            poster_url: crate::text::opt_text(self.poster_url),
            genres: crate::text::texts(self.genres@),
            status: crate::text::opt_text(self.status),
            episodes: episode_models(self.episodes@),
        }
    }
}

/// One episode of a title.
#[derive(Debug, PartialEq, Eq)]
pub struct Episode {
    pub id: EpisodeId,
    /// Human-facing episode number/label (may be non-numeric, e.g. "OVA 1").
    pub number: String,
    pub title: Option<String>,
    /// Provider-specific season identifier, used for grouping/sorting.
    pub season_id: Option<u32>,
}

/// What an [`Episode`] holds.
pub ghost struct EpisodeModel {
    pub id: Seq<char>,
    pub number: Seq<char>,
    pub title: Option<Seq<char>>,
    pub season_id: Option<u32>,
}

impl View for Episode {
    type V = EpisodeModel;

    open spec fn view(&self) -> EpisodeModel {
        EpisodeModel {
            id: self.id@,
            number: self.number@,
            title: crate::text::opt_text(self.title),
            season_id: self.season_id,
        }
    }
}

/// What a list of episodes holds.
pub open spec fn episode_models(v: Seq<Episode>) -> Seq<EpisodeModel> {
    v.map_values(|e: Episode| e@)
}

impl Clone for Episode {
    fn clone(&self) -> (r: Self)
        ensures
            r == *self,
    {
        Episode {
            id: self.id.clone(),
            number: self.number.clone(),
            title: clone_text(&self.title),
            season_id: self.season_id,
        }
    }
}

/// A concrete, playable stream returned by the resolver after source resolution.
#[derive(Debug)]
pub struct PlayableSource {
    pub url: String,
    pub quality: Quality,
    /// Human-readable label shown in the source-selection list (e.g. "vidmoly (VF)").
    pub label: Option<String>,
    /// Headers mpv must send to fetch the stream (referer, user-agent, cookies).
    /// Treated as sensitive: never logged verbatim.
    pub http_headers: Vec<(String, String)>,
    pub subtitles: Vec<SubtitleTrack>,
}

/// What a [`PlayableSource`] holds.
#[verifier::ext_equal]
pub ghost struct SourceModel {
    pub url: Seq<char>,
    pub quality: Quality,
    pub label: Option<Seq<char>>,
    pub http_headers: Seq<(Seq<char>, Seq<char>)>,
    pub subtitles: Seq<SubtitleTrack>,
}

/// The views of a list of header pairs.
pub open spec fn pairs(v: Seq<(String, String)>) -> Seq<(Seq<char>, Seq<char>)> {
    v.map_values(|p: (String, String)| (p.0@, p.1@))
}

impl View for PlayableSource {
    type V = SourceModel;

    open spec fn view(&self) -> SourceModel {
        SourceModel {
            url: self.url@,
            quality: self.quality,
            label: crate::text::opt_text(self.label),
            http_headers: pairs(self.http_headers@),
            subtitles: self.subtitles@,
        }
    }
}

/// What a list of streams holds.
pub open spec fn source_models(v: Seq<PlayableSource>) -> Seq<SourceModel> {
    v.map_values(|s: PlayableSource| s@)
}

impl Clone for PlayableSource {
    fn clone(&self) -> (r: Self)
        ensures
            r@ == self@,
    {
        let subtitles = self.subtitles.clone();
        let mut http_headers: Vec<(String, String)> = Vec::new();
        let mut i: usize = 0;
        while i < self.http_headers.len()
            invariant
                i <= self.http_headers@.len(),
                http_headers@ == self.http_headers@.take(i as int),
            decreases self.http_headers@.len() - i,
        {
            let pair = (self.http_headers[i].0.clone(), self.http_headers[i].1.clone());
            http_headers.push(pair);
            assert(self.http_headers@.take(i + 1) =~= self.http_headers@.take(i as int).push(pair));
            i = i + 1;
        }
        assert(http_headers@ =~= self.http_headers@);
        assert(subtitles@ =~= self.subtitles@);
        PlayableSource {
            url: self.url.clone(),
            quality: self.quality,
            label: clone_text(&self.label),
            http_headers,
            subtitles,
        }
    }
}

/// A stream, a title and an episode hold what their fields hold.
pub proof fn law_fields(s: PlayableSource, a: AnimeSummary, e: Episode)
    ensures
        s@.url == s.url@ && s@.quality == s.quality && s@.label == crate::text::opt_text(s.label),
        s@.http_headers == pairs(s.http_headers@) && s@.subtitles == s.subtitles@,
        a@.id == a.id.0@ && a@.title == a.title@ && a@.year == a.year,
        a@.poster_url == crate::text::opt_text(a.poster_url),
        e@.id == e.id.0@ && e@.number == e.number@ && e@.season_id == e.season_id,
        e@.title == crate::text::opt_text(e.title),
{
}

/// Resolution of a stream.
#[derive(Debug, Clone, Copy, PartialEq, Eq, PartialOrd, Ord)]
pub enum Quality {
    P360,
    P480,
    P720,
    P1080,
    Unknown,
}

impl Quality {
    /// How the quality is written on screen.
    pub fn label(self) -> (r: &'static str)
        ensures
            r@ == (match self {
                Quality::P360 => "360p"@,
                Quality::P480 => "480p"@,
                Quality::P720 => "720p"@,
                Quality::P1080 => "1080p"@,
                Quality::Unknown => "auto"@,
            }),
    {
        match self {
            Quality::P360 => "360p",
            Quality::P480 => "480p",
            Quality::P720 => "720p",
            Quality::P1080 => "1080p",
            Quality::Unknown => "auto",
        }
    }
}

/// A quality is shown by its number of lines.
pub proof fn law_quality_labels(q: Quality, r: &'static str)
    requires
        call_ensures(Quality::label, (q,), r),
    ensures
        q is P360 ==> r@ == "360p"@,
        q is P480 ==> r@ == "480p"@,
        q is P720 ==> r@ == "720p"@,
        q is P1080 ==> r@ == "1080p"@,
        q is Unknown ==> r@ == "auto"@,
{
}

/// A subtitle file offered beside a stream.
#[derive(Debug, PartialEq, Eq)]
pub struct SubtitleTrack {
    pub language: String,
    pub url: String,
    pub is_default: bool,
}

impl Clone for SubtitleTrack {
    fn clone(&self) -> (r: Self)
        ensures
            r == *self,
    {
        SubtitleTrack {
            language: self.language.clone(),
            url: self.url.clone(),
            is_default: self.is_default,
        }
    }
}

/// A copy of an optional string.
pub fn clone_text(o: &Option<String>) -> (r: Option<String>)
    ensures
        r == *o,
{
    match o {
        Some(s) => Some(s.clone()),
        None => None,
    }
}

} // verus!
