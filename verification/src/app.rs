//! Central application state and the typed view/navigation state machine.
//!
//! Transitions are pure: [`App::on_action`] mutates state and returns an
//! [`Effect`] describing any side effect for the async loop to perform. The
//! state is modelled by [`AppModel`], and every transition by a function on it.

pub mod laws;
pub mod rows;
pub mod run;
pub mod sources;

pub use self::rows::EpisodeRow;

use crate::errors;
use crate::errors::{Error, Fault};
use crate::input::Action;
use crate::models::{AnimeDetails, AnimeId, AnimeSummary, CatalogPage, EpisodeId};
use crate::number;
use crate::seconds::Seconds;
use crate::text;
use std::collections::HashSet;
use vstd::hash_map::StringHashMap;
use vstd::hash_set::StringHashSet;
use vstd::prelude::*;
use vstd::view::View as _;

verus! {

broadcast use vstd::std_specs::hash::group_hash_axioms;

/// Catalogue ordering. Each maps to a provider-validated `sort` query value; the
/// server does the sorting so it stays consistent across paginated results.
#[derive(Debug, Clone, Copy, PartialEq, Eq, Default, Structural)]
pub enum SortMode {
    #[default]
    Relevance,
    TitleAsc,
    YearDesc,
    YearAsc,
    Popularity,
    Trending,
    Score,
}

impl SortMode {
    /// The provider `sort` query value.
    pub open spec fn query(self) -> Seq<char> {
        match self {
            SortMode::Relevance => "relevance"@,
            SortMode::TitleAsc => "title_asc"@,
            SortMode::YearDesc => "year_desc"@,
            SortMode::YearAsc => "year_asc"@,
            SortMode::Popularity => "popularity"@,
            SortMode::Trending => "trending"@,
            SortMode::Score => "score"@,
        }
    }

    /// The mode that follows in the cycle.
    pub open spec fn after(self) -> SortMode {
        match self {
            SortMode::Relevance => SortMode::TitleAsc,
            SortMode::TitleAsc => SortMode::YearDesc,
            SortMode::YearDesc => SortMode::YearAsc,
            SortMode::YearAsc => SortMode::Popularity,
            SortMode::Popularity => SortMode::Trending,
            SortMode::Trending => SortMode::Score,
            SortMode::Score => SortMode::Relevance,
        }
    }

    /// The provider `sort` query value.
    pub fn param(self) -> (r: &'static str)
        ensures
            r@ == self.query(),
    {
        match self {
            SortMode::Relevance => "relevance",
            SortMode::TitleAsc => "title_asc",
            SortMode::YearDesc => "year_desc",
            SortMode::YearAsc => "year_asc",
            SortMode::Popularity => "popularity",
            SortMode::Trending => "trending",
            SortMode::Score => "score",
        }
    }

    /// Short human label shown in the browse header.
    pub open spec fn shown(self) -> Seq<char> {
        match self {
            SortMode::Relevance => "relevance"@,
            SortMode::TitleAsc => "title A→Z"@,
            SortMode::YearDesc => "newest"@,
            SortMode::YearAsc => "oldest"@,
            SortMode::Popularity => "popular"@,
            SortMode::Trending => "trending"@,
            SortMode::Score => "score"@,
        }
    }

    /// Short human label shown in the browse header.
    pub fn label(self) -> (r: &'static str)
        ensures
            r@ == self.shown(),
    {
        match self {
            SortMode::Relevance => "relevance",
            SortMode::TitleAsc => "title A→Z",
            SortMode::YearDesc => "newest",
            SortMode::YearAsc => "oldest",
            SortMode::Popularity => "popular",
            SortMode::Trending => "trending",
            SortMode::Score => "score",
        }
    }

    /// Next mode in the cycle (wraps).
    pub fn next(self) -> (r: SortMode)
        ensures
            r == self.after(),
    {
        match self {
            SortMode::Relevance => SortMode::TitleAsc,
            SortMode::TitleAsc => SortMode::YearDesc,
            SortMode::YearDesc => SortMode::YearAsc,
            SortMode::YearAsc => SortMode::Popularity,
            SortMode::Popularity => SortMode::Trending,
            SortMode::Trending => SortMode::Score,
            SortMode::Score => SortMode::Relevance,
        }
    }
}

/// The sort mode after `n` steps of the cycle.
pub open spec fn sort_after(s: SortMode, n: nat) -> SortMode
    decreases n,
{
    if n == 0 {
        s
    } else {
        sort_after(s, (n - 1) as nat).after()
    }
}

/// The sort cycle visits seven different modes and then comes back.
pub proof fn law_sort_cycle(s: SortMode)
    ensures
        sort_after(s, 7) == s,
        forall|n: nat| 0 < n < 7 ==> sort_after(s, n) != s,
{
    reveal_with_fuel(sort_after, 8);
    assert forall|n: nat| 0 < n < 7 implies sort_after(s, n) != s by {
        assert(n == 1 || n == 2 || n == 3 || n == 4 || n == 5 || n == 6);
    }
}

/// The values that the catalogue knows for its `sort` query.
pub open spec fn known_sorts() -> Set<Seq<char>> {
    set![
        "relevance"@,
        "title_asc"@,
        "year_desc"@,
        "year_asc"@,
        "popularity"@,
        "trending"@,
        "score"@,
    ]
}

/// Every sort mode asks the catalogue for an order that it knows, and two different modes
/// ask for different ones and are shown under different labels. What is asked for is what
/// is shown: the label says the order.
pub proof fn law_sort_queries(a: SortMode, b: SortMode)
    ensures
        known_sorts().contains(a.query()),
        a.query() == b.query() ==> a == b,
        a.shown() == b.shown() ==> a == b,
        a.shown() == "oldest"@ <==> a.query() == "year_asc"@,
        a.shown() == "newest"@ <==> a.query() == "year_desc"@,
        a.shown() == "title A→Z"@ <==> a.query() == "title_asc"@,
        a.shown() == "popular"@ <==> a.query() == "popularity"@,
        a.shown() == "trending"@ <==> a.query() == "trending"@,
        a.shown() == "score"@ <==> a.query() == "score"@,
        a.shown() == "relevance"@ <==> a.query() == "relevance"@,
{
    reveal_strlit("relevance");
    reveal_strlit("title_asc");
    reveal_strlit("year_desc");
    reveal_strlit("year_asc");
    reveal_strlit("popularity");
    reveal_strlit("trending");
    reveal_strlit("score");
    reveal_strlit("title A→Z");
    reveal_strlit("newest");
    reveal_strlit("oldest");
    reveal_strlit("popular");
    assert("relevance"@[0] == 'r' && "title_asc"@[0] == 't' && "year_desc"@[0] == 'y'
        && "year_asc"@[0] == 'y' && "popularity"@[0] == 'p' && "trending"@[0] == 't'
        && "score"@[0] == 's' && "title A→Z"@[0] == 't' && "newest"@[0] == 'n'
        && "oldest"@[0] == 'o' && "popular"@[0] == 'p');
    assert("title_asc"@[1] == 'i' && "trending"@[1] == 'r' && "title A→Z"@[1] == 'i');
    assert("year_desc"@[5] == 'd' && "year_asc"@[5] == 'a' && "title_asc"@[5] == '_'
        && "title A→Z"@[5] == ' ');
}

/// Top-level screens.
#[derive(Debug, Clone, Copy, PartialEq, Eq, Structural)]
pub enum View {
    Home,
    Search,
    Sources,
    Details,
    Episodes,
    Favourites,
    History,
    Downloaded,
    Player,
}

/// Live playback readout mirrored from mpv's IPC property observation.
#[derive(Debug, Clone, Copy, PartialEq, Eq, Structural)]
pub struct PlaybackState {
    pub position: Seconds,
    pub duration: Seconds,
    pub paused: bool,
    pub fps: Option<FrameRate>,
}

/// The readout before playback has begun.
pub open spec fn no_playback() -> PlaybackState {
    PlaybackState {
        position: Seconds { bits: 0 },
        duration: Seconds { bits: 0 },
        paused: false,
        fps: None,
    }
}

impl PlaybackState {
    /// The readout before playback has begun.
    pub fn idle() -> (r: PlaybackState)
        ensures
            r == no_playback(),
    {
        PlaybackState {
            position: Seconds { bits: 0 },
            duration: Seconds { bits: 0 },
            paused: false,
            fps: None,
        }
    }
}

/// How fast frames come: so many in so many nanoseconds.
#[derive(Debug, Clone, Copy, PartialEq, Eq, Structural)]
pub struct FrameRate {
    pub frames: u64,
    pub nanos: u64,
}

/// Whole seconds as H:MM:SS or M:SS.
pub open spec fn clock(s: nat) -> Seq<char> {
    let tail = seq![':'] + number::two_digits(s % 60);
    if s / 3600 > 0 {
        number::digits(s / 3600) + seq![':'] + number::two_digits((s % 3600) / 60) + tail
    } else {
        number::digits((s % 3600) / 60) + tail
    }
}

/// Format seconds as H:MM:SS or M:SS.
pub fn fmt_time(secs: Seconds) -> (r: String)
    ensures
        r@ == clock(secs.whole() as nat),
{
    let s: u64 = secs.whole_seconds();
    let h: u64 = s / 3600;
    let m: u64 = (s % 3600) / 60;
    let sec: u64 = s % 60;
    let mut out: String;
    if h > 0 {
        out = number::decimal(h);
        out.push(':');
        out.append(number::decimal_two(m).as_str());
    } else {
        out = number::decimal(m);
    }
    out.push(':');
    out.append(number::decimal_two(sec).as_str());
    assert(out@ =~= clock(s as nat));
    out
}

/// Side effects the async loop performs after a state transition.
#[derive(Debug, PartialEq, Eq)]
pub enum Effect {
    Nothing,
    Search(String),
    LoadDetails(AnimeId),
    LoadFavourites,
    LoadHistory,
    LoadDownloads,
    Play(AnimeId, EpisodeId),
    /// Play the episode from the start, ignoring any saved resume position.
    Replay(AnimeId, EpisodeId),
    /// Download the episode for offline playback.
    Download(AnimeId, EpisodeId),
    /// Download a specific source chosen from the source picker (index into the
    /// runner's pending list), rather than the default.
    DownloadSource(usize),
    /// Delete the downloaded file for the episode.
    RemoveDownload(AnimeId, EpisodeId),
    /// Play but always show the source picker (Enter plays the default directly).
    PlayChoose(AnimeId, EpisodeId),
    /// User confirmed a source from the source-selection list (index into runner's pending list).
    SelectSource(usize),
    /// Toggle favourite for the current anime.
    ToggleFavourite(AnimeId, String),
}

/// What an [`Effect`] asks for, with texts as sequences of characters.
pub ghost enum EffectModel {
    Nothing,
    Search(Seq<char>),
    LoadDetails(Seq<char>),
    LoadFavourites,
    LoadHistory,
    LoadDownloads,
    Play(Seq<char>, Seq<char>),
    Replay(Seq<char>, Seq<char>),
    Download(Seq<char>, Seq<char>),
    DownloadSource(usize),
    RemoveDownload(Seq<char>, Seq<char>),
    PlayChoose(Seq<char>, Seq<char>),
    SelectSource(usize),
    ToggleFavourite(Seq<char>, Seq<char>),
}

impl vstd::view::View for Effect {
    type V = EffectModel;

    open spec fn view(&self) -> EffectModel {
        match self {
            Effect::Nothing => EffectModel::Nothing,
            Effect::Search(q) => EffectModel::Search(q@),
            Effect::LoadDetails(id) => EffectModel::LoadDetails(id@),
            Effect::LoadFavourites => EffectModel::LoadFavourites,
            Effect::LoadHistory => EffectModel::LoadHistory,
            Effect::LoadDownloads => EffectModel::LoadDownloads,
            Effect::Play(a, e) => EffectModel::Play(a@, e@),
            Effect::Replay(a, e) => EffectModel::Replay(a@, e@),
            Effect::Download(a, e) => EffectModel::Download(a@, e@),
            Effect::DownloadSource(i) => EffectModel::DownloadSource(*i),
            Effect::RemoveDownload(a, e) => EffectModel::RemoveDownload(a@, e@),
            Effect::PlayChoose(a, e) => EffectModel::PlayChoose(a@, e@),
            Effect::SelectSource(i) => EffectModel::SelectSource(*i),
            Effect::ToggleFavourite(id, t) => EffectModel::ToggleFavourite(id@, t@),
        }
    }
}

/// Severity of a transient status message, used to colour it in the footer.
#[derive(Debug, Clone, Copy, PartialEq, Eq, Default, Structural)]
pub enum StatusLevel {
    #[default]
    Info,
    Error,
}

/// Which row of a list is highlighted.
#[derive(Debug, Clone, Copy, PartialEq, Eq, Structural)]
pub struct ListState {
    pub selection: Option<usize>,
}

impl ListState {
    pub fn selected(&self) -> (r: Option<usize>)
        ensures
            r == self.selection,
    {
        self.selection
    }

    pub fn select(&mut self, index: Option<usize>)
        ensures
            final(self).selection == index,
    {
        self.selection = index;
    }
}

pub struct App {
    pub view: View,
    pub should_quit: bool,
    pub status: Option<String>,
    /// Severity of the current `status` (drives its colour).
    pub status_level: StatusLevel,
    /// Ticks until the current `status` auto-clears (0 = none). Decremented by
    /// [`App::tick_status`] on the app tick so messages don't linger forever.
    pub status_ticks: u16,
    /// Frame counter for the loading spinner, advanced once per tick.
    pub spinner_frame: usize,
    pub loading: bool,
    /// True while the search box is capturing text.
    pub input_mode: bool,
    pub search_input: String,
    /// Catalogue results currently shown on screen: `all_results` after the active
    /// client-side `filter`. Every renderer/selection reads THIS list.
    pub results: Vec<AnimeSummary>,
    /// Full fetched accumulation for the current query+sort (all pages loaded so
    /// far). `results` is derived from this by [`App::recompute_results`].
    pub all_results: Vec<AnimeSummary>,
    pub results_state: ListState,
    /// Scroll offset (first visible row) for the browse list, kept by the runner so
    /// per-row thumbnail placement matches what's rendered.
    pub list_offset: usize,
    /// Active catalogue query ("" = full catalogue) and pagination cursor, so the
    /// runner can fetch the next page and the UI can show progress/counts.
    pub query: String,
    pub page: u32,
    pub total_pages: u32,
    pub total: usize,
    /// Server-side ordering for catalogue queries.
    pub sort: SortMode,
    /// Client-side quick-filter over `all_results` (case-insensitive title match).
    pub filter: String,
    /// True while the filter box is capturing text (distinct from `input_mode`'s
    /// server-search capture).
    pub filtering: bool,
    /// True while the next catalogue page is being fetched (shown in the header).
    pub loading_more: bool,
    /// Loaded details for the selected title.
    pub details: Option<AnimeDetails>,
    /// Selection in the Episodes view. NOTE: this indexes VISIBLE ROWS
    /// ([`App::episode_rows`]), not `details.episodes` directly — a row may be a
    /// season header. Use [`App::selected_episode_index`] to get an episode.
    pub episodes_state: ListState,
    /// Season ids currently expanded (folded-open) in the Episodes view.
    pub expanded_seasons: HashSet<u32>,
    /// Resume positions keyed by episode_id (populated when details load).
    pub resume_positions: StringHashMap<Seconds>,
    /// Episode ids with a downloaded local file, for the loaded anime (populated
    /// when details load). Drives the downloaded icon and local-first playback.
    pub downloaded: StringHashSet,
    /// Episode ids with a download currently in flight (drives the in-progress icon).
    pub downloading: StringHashSet,
    /// Whether the current anime is in the user's favourites.
    pub is_favourite: bool,
    /// Labels for the source-selection list (runner holds the actual URLs).
    pub source_labels: Vec<String>,
    pub source_state: ListState,
    /// Live playback readout while in [`View::Player`].
    pub playback: Option<PlaybackState>,
    /// Video fills the entire terminal (no chrome).
    pub fullscreen: bool,
    /// Some(s) while the user is typing a seek-to-time value; None otherwise.
    pub seek_input: Option<String>,
}

/// The state of an [`App`], with texts as sequences of characters, lists as
/// sequences and collections as sets and maps.
#[verifier::ext_equal]
pub ghost struct AppModel {
    pub view: View,
    pub should_quit: bool,
    pub status: Option<Seq<char>>,
    pub status_level: StatusLevel,
    pub status_ticks: u16,
    pub spinner_frame: usize,
    pub loading: bool,
    pub input_mode: bool,
    pub search_input: Seq<char>,
    pub results: Seq<AnimeSummary>,
    pub all_results: Seq<AnimeSummary>,
    pub selected_result: Option<usize>,
    pub list_offset: usize,
    pub query: Seq<char>,
    pub page: u32,
    pub total_pages: u32,
    pub total: usize,
    pub sort: SortMode,
    pub filter: Seq<char>,
    pub filtering: bool,
    pub loading_more: bool,
    pub details: Option<AnimeDetails>,
    pub selected_row: Option<usize>,
    pub expanded: Set<u32>,
    pub resume_positions: Map<Seq<char>, Seconds>,
    pub downloaded: Set<Seq<char>>,
    pub downloading: Set<Seq<char>>,
    pub is_favourite: bool,
    pub source_labels: Seq<Seq<char>>,
    pub selected_source: Option<usize>,
    pub playback: Option<PlaybackState>,
    pub fullscreen: bool,
    pub seek_input: Option<Seq<char>>,
}

impl vstd::view::View for App {
    type V = AppModel;

    open spec fn view(&self) -> AppModel {
        AppModel {
            view: self.view,
            should_quit: self.should_quit,
            status: text::opt_text(self.status),
            status_level: self.status_level,
            status_ticks: self.status_ticks,
            spinner_frame: self.spinner_frame,
            loading: self.loading,
            input_mode: self.input_mode,
            search_input: self.search_input@,
            results: self.results@,
            all_results: self.all_results@,
            selected_result: self.results_state.selection,
            list_offset: self.list_offset,
            query: self.query@,
            page: self.page,
            total_pages: self.total_pages,
            total: self.total,
            sort: self.sort,
            filter: self.filter@,
            filtering: self.filtering,
            loading_more: self.loading_more,
            details: self.details,
            selected_row: self.episodes_state.selection,
            expanded: self.expanded_seasons@,
            resume_positions: self.resume_positions@,
            downloaded: self.downloaded@,
            downloading: self.downloading@,
            is_favourite: self.is_favourite,
            source_labels: text::texts(self.source_labels@),
            selected_source: self.source_state.selection,
            playback: self.playback,
            fullscreen: self.fullscreen,
            seek_input: text::opt_text(self.seek_input),
        }
    }
}

/// The titles of `all` that the quick-filter lets through: all of them when it is
/// empty, else those whose title holds it, whatever the case of the letters.
pub open spec fn matching(all: Seq<AnimeSummary>, filter: Seq<char>) -> Seq<AnimeSummary> {
    let f = text::lowercase(filter);
    if f.len() == 0 {
        all
    } else {
        all.filter(|a: AnimeSummary| text::contains(text::lowercase(a.title@), f))
    }
}

/// The first row of a list, when it has one.
pub open spec fn first_of(len: nat) -> Option<usize> {
    if len == 0 {
        None
    } else {
        Some(0)
    }
}

/// The row `delta` away from the highlighted one in a list of `len` rows, going
/// round at both ends.
pub open spec fn moved(selected: Option<usize>, len: nat, delta: int) -> Option<usize> {
    if len == 0 {
        selected
    } else {
        Some(((selected.unwrap_or(0) + delta) % (len as int)) as usize)
    }
}

/// The lists that can be browsed, filtered and paged.
pub open spec fn browsing(v: View) -> bool {
    v == View::Home || v == View::Search || v == View::Favourites || v == View::History || v
        == View::Downloaded
}

impl AppModel {
    /// The state at startup.
    pub open spec fn initial() -> AppModel {
        AppModel {
            view: View::Home,
            should_quit: false,
            status: None,
            status_level: StatusLevel::Info,
            status_ticks: 0,
            spinner_frame: 0,
            loading: false,
            input_mode: false,
            search_input: Seq::empty(),
            results: Seq::empty(),
            all_results: Seq::empty(),
            selected_result: None,
            list_offset: 0,
            query: Seq::empty(),
            page: 1,
            total_pages: 1,
            total: 0,
            sort: SortMode::Relevance,
            filter: Seq::empty(),
            filtering: false,
            loading_more: false,
            details: None,
            selected_row: None,
            expanded: Set::empty(),
            resume_positions: Map::empty(),
            downloaded: Set::empty(),
            downloading: Set::empty(),
            is_favourite: false,
            source_labels: Seq::empty(),
            selected_source: None,
            playback: None,
            fullscreen: false,
            seek_input: None,
        }
    }

    /// The rows of the Episodes view.
    pub open spec fn rows(self) -> Seq<EpisodeRow> {
        rows::rows(self.details, self.expanded)
    }

    /// The highlighted row of the Episodes view.
    pub open spec fn row(self) -> Option<EpisodeRow> {
        match self.selected_row {
            Some(i) => if i < self.rows().len() {
                Some(self.rows()[i as int])
            } else {
                None
            },
            None => None,
        }
    }

    /// The highlighted episode; `None` on a season header.
    pub open spec fn episode(self) -> Option<usize> {
        match self.row() {
            Some(EpisodeRow::Episode { index, .. }) => Some(index),
            _ => None,
        }
    }

    /// The highlighted episode with its title, by their ids.
    pub open spec fn episode_ids(self) -> Option<(Seq<char>, Seq<char>)> {
        match (self.episode(), self.details) {
            (Some(i), Some(d)) => if i < d.episodes@.len() {
                Some((d.id@, d.episodes@[i as int].id@))
            } else {
                None
            },
            _ => None,
        }
    }

    /// The highlighted title of a browse list.
    pub open spec fn result(self) -> Option<AnimeSummary> {
        match self.selected_result {
            Some(i) => if i < self.results.len() {
                Some(self.results[i as int])
            } else {
                None
            },
            None => None,
        }
    }

    /// A source of the picker is highlighted.
    pub open spec fn source(self) -> Option<usize> {
        match self.selected_source {
            Some(i) => if i < self.source_labels.len() {
                Some(i)
            } else {
                None
            },
            None => None,
        }
    }

    /// The state with a status message that has its whole lifetime before it.
    pub open spec fn with_status(self, m: Seq<char>, level: StatusLevel) -> AppModel {
        AppModel {
            status: Some(m),
            status_level: level,
            status_ticks: App::STATUS_TTL_TICKS,
            ..self
        }
    }

    /// The state after a failure: nothing is loading, and the error is shown.
    pub open spec fn failed(self, f: Fault) -> AppModel {
        AppModel { loading: false, loading_more: false, ..self }.with_status(
            "error: "@ + errors::sentence(f),
            StatusLevel::Error,
        )
    }

    /// The player screen gives way to the episode list.
    pub open spec fn left_player(self) -> AppModel {
        AppModel {
            view: if self.view == View::Player {
                View::Episodes
            } else {
                self.view
            },
            ..self
        }
    }

    /// Where playback is.
    pub open spec fn position(self) -> Seconds {
        match self.playback {
            Some(pb) => pb.position,
            None => Seconds { bits: 0 },
        }
    }

    /// The state one tick later.
    pub open spec fn status_ticked(self) -> AppModel {
        if self.status_ticks == 0 {
            self
        } else if self.status_ticks == 1 {
            AppModel { status: None, status_level: StatusLevel::Info, status_ticks: 0, ..self }
        } else {
            AppModel { status_ticks: (self.status_ticks - 1) as u16, ..self }
        }
    }

    /// The state with the spinner one frame on; the counter wraps.
    pub open spec fn spun(self) -> AppModel {
        AppModel {
            spinner_frame: if self.spinner_frame == usize::MAX {
                0
            } else {
                (self.spinner_frame + 1) as usize
            },
            ..self
        }
    }

    /// The shown results derived again from all of them, with the selection and the
    /// scroll offset kept inside the list.
    pub open spec fn recomputed(self) -> AppModel {
        let shown = matching(self.all_results, self.filter);
        if shown.len() == 0 {
            AppModel { results: shown, selected_result: None, list_offset: 0, ..self }
        } else {
            let at = self.selected_result.unwrap_or(0);
            AppModel {
                results: shown,
                selected_result: Some(
                    if at < shown.len() {
                        at
                    } else {
                        (shown.len() - 1) as usize
                    },
                ),
                list_offset: if self.list_offset >= shown.len() {
                    0
                } else {
                    self.list_offset
                },
                ..self
            }
        }
    }

    /// The state with the first shown result highlighted.
    pub open spec fn at_first_result(self) -> AppModel {
        AppModel { selected_result: first_of(self.results.len()), ..self }
    }

    /// The state that shows a local list.
    pub open spec fn with_results(self, results: Seq<AnimeSummary>) -> AppModel {
        AppModel {
            loading: false,
            loading_more: false,
            query: Seq::empty(),
            page: 1,
            total_pages: 1,
            total: results.len() as usize,
            filter: Seq::empty(),
            filtering: false,
            all_results: results,
            list_offset: 0,
            ..self
        }.recomputed().at_first_result()
    }

    /// The state after a page of the catalogue came in.
    pub open spec fn with_page(self, page: CatalogPage, append: bool) -> AppModel {
        let counted = AppModel {
            loading: false,
            loading_more: false,
            page: page.page,
            total_pages: if page.total_pages == 0 {
                1
            } else {
                page.total_pages
            },
            total: page.total as usize,
            ..self
        };
        if append {
            AppModel {
                all_results: self.all_results + page.items@,
                ..counted
            }.recomputed()
        } else {
            AppModel {
                all_results: page.items@,
                list_offset: 0,
                filter: Seq::empty(),
                filtering: false,
                ..counted
            }.recomputed().at_first_result()
        }
    }

    /// The state that shows the details of a title: every season folded, the cursor
    /// on the first episode row or else on the first row.
    pub open spec fn with_details(self, details: AnimeDetails) -> AppModel {
        let loaded = AppModel {
            loading: false,
            details: Some(details),
            expanded: Set::empty(),
            ..self
        };
        let first = rows::first_row(loaded.rows(), |r: EpisodeRow| r is Episode, 0);
        AppModel {
            selected_row: match first {
                Some(i) => Some(i),
                None => first_of(loaded.rows().len()),
            },
            ..loaded
        }
    }

    /// The state with the cursor on an episode, its season opened.
    pub open spec fn with_episode(self, index: usize) -> AppModel {
        let opened = match self.details {
            Some(d) => if index < d.episodes@.len() {
                AppModel {
                    expanded: self.expanded.insert(rows::season_of(d.episodes@[index as int])),
                    ..self
                }
            } else {
                self
            },
            None => self,
        };
        let at = rows::first_row(
            opened.rows(),
            |r: EpisodeRow| r matches EpisodeRow::Episode { index: i, .. } && i == index,
            0,
        );
        AppModel {
            selected_row: match at {
                Some(i) => Some(i),
                None => Some(0),
            },
            ..opened
        }
    }

    /// The state that shows the source picker; without a source the screen stays.
    pub open spec fn with_sources(self, labels: Seq<Seq<char>>) -> AppModel {
        AppModel {
            source_labels: labels,
            selected_source: first_of(labels.len()),
            view: if labels.len() == 0 {
                self.view
            } else {
                View::Sources
            },
            ..self
        }
    }

    /// The state with the cursor of the current list moved.
    pub open spec fn cursor_moved(self, delta: int) -> AppModel {
        if self.view == View::Details || self.view == View::Episodes {
            AppModel { selected_row: moved(self.selected_row, self.rows().len(), delta), ..self }
        } else if self.view == View::Sources {
            AppModel {
                selected_source: moved(self.selected_source, self.source_labels.len(), delta),
                ..self
            }
        } else {
            AppModel {
                selected_result: moved(self.selected_result, self.results.len(), delta),
                ..self
            }
        }
    }

    /// The screen behind the current one.
    pub open spec fn went_back(self) -> AppModel {
        AppModel {
            input_mode: false,
            view: match self.view {
                View::Episodes => View::Details,
                View::Sources | View::Player => View::Episodes,
                _ => View::Home,
            },
            ..self
        }
    }

    /// The next main list, with what has to be loaded for it. Other screens have no
    /// next list.
    pub open spec fn tab_cycled(self) -> (AppModel, EffectModel) {
        let next = |v: View| AppModel { view: v, results: Seq::empty(), loading: true, ..self };
        match self.view {
            View::Home | View::Search => (next(View::Favourites), EffectModel::LoadFavourites),
            View::Favourites => (next(View::History), EffectModel::LoadHistory),
            View::History => (next(View::Downloaded), EffectModel::LoadDownloads),
            View::Downloaded => (next(View::Home), EffectModel::Search(Seq::empty())),
            _ => (self, EffectModel::Nothing),
        }
    }

    /// The next sort order, with the query to run again under it.
    pub open spec fn sort_cycled(self) -> (AppModel, EffectModel) {
        (
            AppModel { sort: self.sort.after(), loading: true, ..self },
            EffectModel::Search(self.query),
        )
    }

    /// The state that waits in the player for a stream.
    pub open spec fn waiting_in_player(self) -> AppModel {
        AppModel { view: View::Player, loading: true, ..self }
    }

    /// What confirming the highlighted item does.
    pub open spec fn selected(self) -> (AppModel, EffectModel) {
        match self.view {
            View::Home
            | View::Search
            | View::Favourites
            | View::History
            | View::Downloaded => match self.result() {
                Some(a) => (
                    AppModel {
                        view: View::Details,
                        loading: true,
                        details: None,
                        is_favourite: false,
                        resume_positions: Map::empty(),
                        downloaded: Set::empty(),
                        ..self
                    },
                    EffectModel::LoadDetails(a.id@),
                ),
                None => (self, EffectModel::Nothing),
            },
            View::Details => if self.details is Some {
                (
                    AppModel {
                        view: View::Episodes,
                        selected_row: Some(self.selected_row.unwrap_or(0)),
                        ..self
                    },
                    EffectModel::Nothing,
                )
            } else {
                (self, EffectModel::Nothing)
            },
            View::Episodes => match self.row() {
                Some(EpisodeRow::Season { id, .. }) => (
                    AppModel {
                        expanded: if self.expanded.contains(id) {
                            self.expanded.remove(id)
                        } else {
                            self.expanded.insert(id)
                        },
                        ..self
                    },
                    EffectModel::Nothing,
                ),
                Some(EpisodeRow::Episode { .. }) => match self.episode_ids() {
                    Some((a, e)) => (self.waiting_in_player(), EffectModel::Play(a, e)),
                    None => (self, EffectModel::Nothing),
                },
                None => (self, EffectModel::Nothing),
            },
            View::Sources => match self.source() {
                Some(i) => (self, EffectModel::SelectSource(i)),
                None => (self, EffectModel::Nothing),
            },
            View::Player => (self, EffectModel::Nothing),
        }
    }

    /// What asking for the source picker does.
    pub open spec fn source_chosen(self) -> (AppModel, EffectModel) {
        if self.view != View::Episodes {
            (self, EffectModel::Nothing)
        } else {
            match self.episode_ids() {
                Some((a, e)) => (
                    AppModel { loading: true, ..self },
                    EffectModel::PlayChoose(a, e),
                ),
                None => (self, EffectModel::Nothing),
            }
        }
    }

    /// What an action does: the state after it, and the effect it asks for.
    pub open spec fn acted(self, action: Action) -> (AppModel, EffectModel) {
        match action {
            Action::Quit => (AppModel { should_quit: true, ..self }, EffectModel::Nothing),
            Action::Up => (self.cursor_moved(-1), EffectModel::Nothing),
            Action::Down => (self.cursor_moved(1), EffectModel::Nothing),
            Action::Tab => self.tab_cycled(),
            Action::Search => (
                AppModel {
                    view: View::Search,
                    input_mode: true,
                    search_input: Seq::empty(),
                    ..self
                },
                EffectModel::Nothing,
            ),
            Action::Back | Action::Left => (self.went_back(), EffectModel::Nothing),
            Action::Right | Action::Select => self.selected(),
            Action::StopPlayback => if self.view == View::Player {
                (self.went_back(), EffectModel::Nothing)
            } else {
                (self, EffectModel::Nothing)
            },
            Action::ToggleFavourite => match self.details {
                Some(d) => (
                    AppModel { is_favourite: !self.is_favourite, ..self },
                    EffectModel::ToggleFavourite(d.id@, d.title@),
                ),
                None => (self, EffectModel::Nothing),
            },
            Action::CycleSort => if self.view == View::Home || self.view == View::Search {
                self.sort_cycled()
            } else {
                (self, EffectModel::Nothing)
            },
            Action::ChooseSource => self.source_chosen(),
            Action::Replay => match self.episode_ids() {
                Some((a, e)) if self.view == View::Episodes => (
                    self.waiting_in_player(),
                    EffectModel::Replay(a, e),
                ),
                _ => (self, EffectModel::Nothing),
            },
            Action::Download => match (self.view, self.episode_ids(), self.source()) {
                (View::Episodes, Some((a, e)), _) => (self, EffectModel::Download(a, e)),
                (View::Sources, _, Some(i)) => (self, EffectModel::DownloadSource(i)),
                _ => (self, EffectModel::Nothing),
            },
            Action::RemoveDownload => match self.episode_ids() {
                Some((a, e)) if self.view == View::Episodes => (
                    self,
                    EffectModel::RemoveDownload(a, e),
                ),
                _ => (self, EffectModel::Nothing),
            },
            Action::Filter => if browsing(self.view) {
                (
                    AppModel {
                        filtering: true,
                        input_mode: true,
                        filter: Seq::empty(),
                        ..self
                    }.recomputed(),
                    EffectModel::Nothing,
                )
            } else {
                (self, EffectModel::Nothing)
            },
            Action::PlayPause
            | Action::SeekForward
            | Action::SeekBackward
            | Action::VolumeUp
            | Action::VolumeDown
            | Action::Mute
            | Action::NextEpisode
            | Action::PrevEpisode
            | Action::CycleSubtitle
            | Action::CycleAudio => (self, EffectModel::Nothing),
        }
    }
}

impl Default for App {
    fn default() -> (r: Self)
        ensures
            r@ == AppModel::initial(),
    {
        let r = App {
            view: View::Home,
            should_quit: false,
            status: None,
            status_level: StatusLevel::Info,
            status_ticks: 0,
            spinner_frame: 0,
            loading: false,
            input_mode: false,
            search_input: String::new(),
            results: Vec::new(),
            all_results: Vec::new(),
            results_state: ListState { selection: None },
            list_offset: 0,
            query: String::new(),
            page: 1,
            total_pages: 1,
            total: 0,
            sort: SortMode::Relevance,
            filter: String::new(),
            filtering: false,
            loading_more: false,
            details: None,
            episodes_state: ListState { selection: None },
            expanded_seasons: HashSet::new(),
            resume_positions: StringHashMap::new(),
            downloaded: StringHashSet::new(),
            downloading: StringHashSet::new(),
            is_favourite: false,
            source_labels: Vec::new(),
            source_state: ListState { selection: None },
            playback: None,
            fullscreen: false,
            seek_input: None,
        };
        assert(r@ =~= AppModel::initial());
        r
    }
}

impl App {
    /// Default lifetime of a transient status message, in app ticks. At the 250 ms
    /// tick this is ~5 seconds before it auto-clears.
    pub const STATUS_TTL_TICKS: u16 = 20;

    pub fn on_action(&mut self, action: Action) -> (r: Effect)
        ensures
            (final(self)@, r@) == old(self)@.acted(action),
    {
        match action {
            Action::Quit => {
                self.should_quit = true;
                Effect::Nothing
            },
            Action::Up => {
                self.move_selection(false);
                Effect::Nothing
            },
            Action::Down => {
                self.move_selection(true);
                Effect::Nothing
            },
            Action::Tab => self.cycle_tab(),
            Action::Search => {
                self.goto(View::Search);
                self.input_mode = true;
                self.search_input.clear();
                Effect::Nothing
            },
            Action::Back | Action::Left => {
                self.back();
                Effect::Nothing
            },
            Action::Right => self.on_select(),
            Action::Select => self.on_select(),
            Action::StopPlayback => {
                if self.view == View::Player {
                    self.back();
                }
                Effect::Nothing
            },
            Action::ToggleFavourite => match &self.details {
                Some(d) => {
                    let id = d.id.clone();
                    let title = d.title.clone();
                    self.is_favourite = !self.is_favourite;
                    Effect::ToggleFavourite(id, title)
                },
                None => Effect::Nothing,
            },
            // Server-side sort applies only to catalogue queries (Home/Search); it
            // re-runs the search from page 1 with the new ordering.
            Action::CycleSort => {
                if self.view == View::Home || self.view == View::Search {
                    self.cycle_sort()
                } else {
                    Effect::Nothing
                }
            },
            // Open the source picker for the selected episode (Enter plays default).
            Action::ChooseSource => self.choose_source(),
            // Re-watch the selected episode from the start (Episodes view).
            Action::Replay => {
                if self.view != View::Episodes {
                    return Effect::Nothing;
                }
                match self.selected_episode_ids() {
                    Some((anime, episode)) => {
                        self.goto(View::Player);
                        self.loading = true;
                        Effect::Replay(anime, episode)
                    },
                    None => Effect::Nothing,
                }
            },
            // Download the selected episode (Episodes view); in the source picker the
            // highlighted source instead of playing it (Enter plays).
            Action::Download => {
                if self.view == View::Episodes {
                    match self.selected_episode_ids() {
                        Some((anime, episode)) => Effect::Download(anime, episode),
                        None => Effect::Nothing,
                    }
                } else if self.view == View::Sources {
                    match self.source_state.selected() {
                        Some(i) if i < self.source_labels.len() => Effect::DownloadSource(i),
                        _ => Effect::Nothing,
                    }
                } else {
                    Effect::Nothing
                }
            },
            Action::RemoveDownload => {
                if self.view != View::Episodes {
                    return Effect::Nothing;
                }
                match self.selected_episode_ids() {
                    Some((anime, episode)) => Effect::RemoveDownload(anime, episode),
                    None => Effect::Nothing,
                }
            },
            // Client-side quick-filter is available in any browse list.
            Action::Filter => {
                if self.is_browse_view() {
                    self.filtering = true;
                    self.input_mode = true;
                    self.filter.clear();
                    self.recompute_results();
                }
                Effect::Nothing
            },
            _ => Effect::Nothing,
        }
    }

    #[verifier::rlimit(40)]
    fn on_select(&mut self) -> (r: Effect)
        ensures
            (final(self)@, r@) == old(self)@.selected(),
    {
        match self.view {
            View::Home | View::Search | View::Favourites | View::History | View::Downloaded => {
                let id = match self.selected_result() {
                    Some(anime) => anime.id.clone(),
                    None => return Effect::Nothing,
                };
                self.goto(View::Details);
                self.loading = true;
                self.details = None;
                self.is_favourite = false;
                self.resume_positions.clear();
                self.downloaded.clear();
                Effect::LoadDetails(id)
            },
            View::Details => {
                if self.details.is_some() {
                    self.goto(View::Episodes);
                    if self.episodes_state.selected().is_none() {
                        self.episodes_state.select(Some(0));
                    }
                }
                Effect::Nothing
            },
            View::Episodes => match self.selected_row() {
                // Season header: fold/unfold. The header stays at the same row
                // index, so the cursor doesn't jump.
                Some(EpisodeRow::Season { id, .. }) => {
                    if !self.expanded_seasons.remove(&id) {
                        self.expanded_seasons.insert(id);
                    }
                    Effect::Nothing
                },
                Some(EpisodeRow::Episode { .. }) => match self.selected_episode_ids() {
                    Some((anime, episode)) => {
                        self.goto(View::Player);
                        self.loading = true;
                        Effect::Play(anime, episode)
                    },
                    None => Effect::Nothing,
                },
                None => Effect::Nothing,
            },
            View::Sources => match self.source_state.selected() {
                Some(i) if i < self.source_labels.len() => Effect::SelectSource(i),
                _ => Effect::Nothing,
            },
            View::Player => Effect::Nothing,
        }
    }

    /// Resolve the selected episode's sources and open the picker (rather than
    /// playing the default directly). No-op outside the Episodes view or on a
    /// season header.
    fn choose_source(&mut self) -> (r: Effect)
        ensures
            (final(self)@, r@) == old(self)@.source_chosen(),
    {
        if self.view != View::Episodes {
            return Effect::Nothing;
        }
        match self.selected_episode_ids() {
            Some((anime, episode)) => {
                self.loading = true;
                Effect::PlayChoose(anime, episode)
            },
            None => Effect::Nothing,
        }
    }

    /// Cycle between the main list views: Home → Favourites → History → Downloaded →
    /// Home.
    fn cycle_tab(&mut self) -> (r: Effect)
        ensures
            (final(self)@, r@) == old(self)@.tab_cycled(),
    {
        match self.view {
            View::Home | View::Search => {
                self.goto(View::Favourites);
                self.results.clear();
                self.loading = true;
                Effect::LoadFavourites
            },
            View::Favourites => {
                self.goto(View::History);
                self.results.clear();
                self.loading = true;
                Effect::LoadHistory
            },
            View::History => {
                self.goto(View::Downloaded);
                self.results.clear();
                self.loading = true;
                Effect::LoadDownloads
            },
            View::Downloaded => {
                self.goto(View::Home);
                self.results.clear();
                self.loading = true;
                Effect::Search(String::new())
            },
            _ => Effect::Nothing,
        }
    }

    /// Show an informational status.
    pub fn set_status(&mut self, status: &str)
        ensures
            final(self)@ == old(self)@.with_status(status@, StatusLevel::Info),
    {
        self.status = Some(status.to_string());
        self.status_level = StatusLevel::Info;
        self.status_ticks = Self::STATUS_TTL_TICKS;
    }

    /// Show an error status (rendered red) that auto-clears like any other.
    pub fn set_error(&mut self, status: &str)
        ensures
            final(self)@ == old(self)@.with_status(status@, StatusLevel::Error),
    {
        self.status = Some(status.to_string());
        self.status_level = StatusLevel::Error;
        self.status_ticks = Self::STATUS_TTL_TICKS;
    }

    /// Show a failure; nothing is loading any more.
    pub fn fail(&mut self, e: Error)
        ensures
            final(self)@ == old(self)@.failed(e@),
    {
        self.loading = false;
        self.loading_more = false;
        self.set_error(text::cat("error: ", e.message().as_str()).as_str());
    }

    /// From the player screen back to the episode list.
    pub fn leave_player(&mut self)
        ensures
            final(self)@ == old(self)@.left_player(),
    {
        if self.view == View::Player {
            self.view = View::Episodes;
        }
    }

    /// Where playback is; at the start when nothing is playing.
    pub fn current_position(&self) -> (r: Seconds)
        ensures
            r == self@.position(),
    {
        match self.playback {
            Some(pb) => pb.position,
            None => Seconds::zero(),
        }
    }

    /// Age the current status by one tick; clear it (and reset the level) when its
    /// lifetime runs out. No-op when there is no timed status.
    pub fn tick_status(&mut self)
        ensures
            final(self)@ == old(self)@.status_ticked(),
    {
        if self.status_ticks > 0 {
            self.status_ticks = self.status_ticks - 1;
            if self.status_ticks == 0 {
                self.status = None;
                self.status_level = StatusLevel::Info;
            }
        }
    }

    /// Advance the loading-spinner animation by one frame.
    pub fn advance_spinner(&mut self)
        ensures
            final(self)@ == old(self)@.spun(),
    {
        self.spinner_frame = self.spinner_frame.wrapping_add(1);
    }

    /// The highlighted title of a browse list.
    pub fn selected_result(&self) -> (r: Option<&AnimeSummary>)
        ensures
            match r {
                Some(a) => self@.result() == Some(*a),
                None => self@.result() is None,
            },
    {
        match self.results_state.selected() {
            Some(i) if i < self.results.len() => Some(&self.results[i]),
            _ => None,
        }
    }

    /// True for the scrollable browse lists (where filter/sort/thumbnails apply).
    pub fn is_browse_view(&self) -> (r: bool)
        ensures
            r == browsing(self@.view),
    {
        match self.view {
            View::Home | View::Search | View::Favourites | View::History | View::Downloaded => true,
            _ => false,
        }
    }

    /// Set a non-paginated result list (favourites/history come from the local DB).
    /// Resets the catalogue cursor and clears any active filter.
    pub fn set_results(&mut self, results: Vec<AnimeSummary>)
        ensures
            final(self)@ == old(self)@.with_results(results@),
            final(self)@.results == results@,
    {
        self.loading = false;
        self.loading_more = false;
        self.query.clear();
        self.page = 1;
        self.total_pages = 1;
        self.total = results.len();
        self.filter.clear();
        self.filtering = false;
        self.all_results = results;
        self.list_offset = 0;
        self.recompute_results();
        self.results_state.select(
            if self.results.is_empty() {
                None
            } else {
                Some(0)
            },
        );
    }

    /// Apply a fetched catalogue page. `append` extends the current accumulation
    /// (infinite scroll); otherwise it replaces it (fresh search / sort change).
    pub fn set_page(&mut self, page: CatalogPage, append: bool)
        ensures
            final(self)@ == old(self)@.with_page(page, append),
            !append ==> final(self)@.results == page.items@,
    {
        self.loading = false;
        self.loading_more = false;
        self.page = page.page;
        self.total_pages =
        if page.total_pages == 0 {
            1
        } else {
            page.total_pages
        };
        self.total = page.total as usize;
        let mut items = page.items;
        if append {
            self.all_results.append(&mut items);
        } else {
            self.all_results = items;
            self.list_offset = 0;
            self.filter.clear();
            self.filtering = false;
        }
        self.recompute_results();
        if !append {
            self.results_state.select(
                if self.results.is_empty() {
                    None
                } else {
                    Some(0)
                },
            );
        }
    }

    /// Rebuild `results` from `all_results` under the active filter. Server output
    /// is already ordered, so this only filters. Keeps the selection valid.
    pub fn recompute_results(&mut self)
        ensures
            final(self)@ == old(self)@.recomputed(),
            old(self)@.filter.len() == 0 ==> final(self)@.results == old(self)@.all_results,
    {
        self.results = filtered(&self.all_results, self.filter.as_str());
        // Clamp selection + offset to the new length.
        if self.results.is_empty() {
            self.results_state.select(None);
            self.list_offset = 0;
        } else {
            let last: usize = self.results.len() - 1;
            let at: usize = match self.results_state.selected() {
                Some(i) => i,
                None => 0,
            };
            self.results_state.select(
                Some(
                    if at < last {
                        at
                    } else {
                        last
                    },
                ),
            );
            if self.list_offset >= self.results.len() {
                self.list_offset = 0;
            }
        }
    }

    /// Advance the sort order and request a fresh page-1 query with it.
    pub fn cycle_sort(&mut self) -> (r: Effect)
        ensures
            (final(self)@, r@) == old(self)@.sort_cycled(),
    {
        self.sort = self.sort.next();
        self.loading = true;
        Effect::Search(self.query.clone())
    }

    /// Append a char to the quick-filter and re-derive `results` live.
    pub fn push_filter_char(&mut self, c: char)
        ensures
            final(self)@ == (AppModel { filter: old(self)@.filter.push(c), ..old(self)@ }).recomputed(),
    {
        self.filter.push(c);
        self.recompute_results();
    }

    /// Delete the last quick-filter char and re-derive `results` live.
    pub fn pop_filter_char(&mut self)
        ensures
            final(self)@ == (AppModel {
                filter: without_last(old(self)@.filter),
                ..old(self)@
            }).recomputed(),
    {
        let _ = self.filter.pop();
        self.recompute_results();
    }

    /// Clear the quick-filter entirely (Esc) and re-derive `results`.
    pub fn clear_filter(&mut self)
        ensures
            final(self)@ == (AppModel { filter: Seq::empty(), ..old(self)@ }).recomputed(),
            final(self)@.results == old(self)@.all_results,
    {
        self.filter.clear();
        self.recompute_results();
    }

    /// Show the details of a title. Multi-season titles start fully folded: the list
    /// shows just the season headers so you can open the one you want. The cursor is
    /// on the first visible row (the first season header, or the first episode when
    /// there is only one season and thus no headers).
    pub fn set_details(&mut self, details: AnimeDetails)
        ensures
            final(self)@ == old(self)@.with_details(details),
    {
        self.loading = false;
        self.details = Some(details);
        self.expanded_seasons.clear();
        let rows = self.episode_rows();
        let mut i: usize = 0;
        let ghost p = |r: EpisodeRow| r is Episode;
        while i < rows.len() && !is_episode_row(&rows[i])
            invariant
                i <= rows@.len(),
                p == (|r: EpisodeRow| r is Episode),
                rows::first_row(rows@, p, i as int) == rows::first_row(rows@, p, 0),
            decreases rows@.len() - i,
        {
            i = i + 1;
        }
        let sel: Option<usize> = if i < rows.len() {
            Some(i)
        } else if rows.is_empty() {
            None
        } else {
            Some(0)
        };
        self.episodes_state.select(sel);
    }

    /// The visible rows of the Episodes view given the current fold state.
    /// Single-season titles yield only [`EpisodeRow::Episode`] rows (no headers);
    /// multi-season titles yield season headers with their episodes nested when
    /// expanded. Episodes are already globally sorted by (season, number).
    pub fn episode_rows(&self) -> (r: Vec<EpisodeRow>)
        ensures
            r@ == self@.rows(),
    {
        match &self.details {
            Some(d) => rows::list_rows(&d.episodes, &self.expanded_seasons),
            None => Vec::new(),
        }
    }

    /// The highlighted row of the Episodes view.
    fn selected_row(&self) -> (r: Option<EpisodeRow>)
        ensures
            r == self@.row(),
    {
        let rows = self.episode_rows();
        match self.episodes_state.selected() {
            Some(i) if i < rows.len() => Some(rows[i]),
            _ => None,
        }
    }

    /// Episode index for the currently selected row, or `None` if a season header
    /// (or nothing) is selected.
    pub fn selected_episode_index(&self) -> (r: Option<usize>)
        ensures
            r == self@.episode(),
    {
        match self.selected_row() {
            Some(EpisodeRow::Episode { index, .. }) => Some(index),
            _ => None,
        }
    }

    /// `(anime_id, episode_id)` for the currently selected episode row, or `None`
    /// if a season header / nothing is selected or details aren't loaded. Used by
    /// the replay/download actions.
    pub fn selected_episode_ids(&self) -> (r: Option<(AnimeId, EpisodeId)>)
        ensures
            match r {
                Some((a, e)) => self@.episode_ids() == Some((a@, e@)),
                None => self@.episode_ids() is None,
            },
    {
        match (self.selected_episode_index(), &self.details) {
            (Some(i), Some(d)) => {
                if i < d.episodes.len() {
                    Some((d.id.clone(), d.episodes[i].id.clone()))
                } else {
                    None
                }
            },
            _ => None,
        }
    }

    /// Expand the season containing `ep_index` and move the cursor onto that
    /// episode's row. Used when switching episodes during playback (n/p keys).
    pub fn select_episode(&mut self, ep_index: usize)
        ensures
            final(self)@ == old(self)@.with_episode(ep_index),
    {
        let sid: Option<u32> = match &self.details {
            Some(d) => if ep_index < d.episodes.len() {
                Some(rows::season(&d.episodes[ep_index]))
            } else {
                None
            },
            None => None,
        };
        if let Some(sid) = sid {
            self.expanded_seasons.insert(sid);
        }
        let rows = self.episode_rows();
        let ghost p = |r: EpisodeRow|
            r matches EpisodeRow::Episode { index: i, .. } && i == ep_index;
        let mut i: usize = 0;
        while i < rows.len() && !is_row_of(&rows[i], ep_index)
            invariant
                i <= rows@.len(),
                p == (|r: EpisodeRow|
                    r matches EpisodeRow::Episode { index: i, .. } && i == ep_index),
                rows::first_row(rows@, p, i as int) == rows::first_row(rows@, p, 0),
            decreases rows@.len() - i,
        {
            i = i + 1;
        }
        self.episodes_state.select(
            Some(
                if i < rows.len() {
                    i
                } else {
                    0
                },
            ),
        );
    }

    /// Show the source picker, when there is a source to pick.
    pub fn set_sources(&mut self, labels: Vec<String>)
        ensures
            final(self)@ == old(self)@.with_sources(text::texts(labels@)),
    {
        self.source_labels = labels;
        self.source_state.select(
            if self.source_labels.is_empty() {
                None
            } else {
                Some(0)
            },
        );
        if !self.source_labels.is_empty() {
            self.goto(View::Sources);
        }
    }

    fn move_selection(&mut self, down: bool)
        ensures
            final(self)@ == old(self)@.cursor_moved(
                if down {
                    1
                } else {
                    -1
                },
            ),
    {
        match self.view {
            View::Details | View::Episodes => {
                let len: usize = self.episode_rows().len();
                let next = stepped(self.episodes_state.selected(), len, down);
                self.episodes_state.select(next);
            },
            View::Sources => {
                let next = stepped(self.source_state.selected(), self.source_labels.len(), down);
                self.source_state.select(next);
            },
            _ => {
                let next = stepped(self.results_state.selected(), self.results.len(), down);
                self.results_state.select(next);
            },
        }
    }

    /// Show a screen.
    pub fn goto(&mut self, view: View)
        ensures
            final(self)@ == (AppModel { view, ..old(self)@ }),
    {
        self.view = view;
    }

    fn back(&mut self)
        ensures
            final(self)@ == old(self)@.went_back(),
    {
        self.input_mode = false;
        self.view =
        match self.view {
            View::Home | View::Favourites | View::History | View::Downloaded => View::Home,
            View::Search => View::Home,
            View::Details => View::Home,
            View::Episodes => View::Details,
            View::Sources => View::Episodes,
            View::Player => View::Episodes,
        };
    }
}

/// A text without its last character.
pub open spec fn without_last(s: Seq<char>) -> Seq<char> {
    if s.len() == 0 {
        s
    } else {
        s.drop_last()
    }
}

/// Whether a row shows an episode.
fn is_episode_row(r: &EpisodeRow) -> (b: bool)
    ensures
        b == (r is Episode),
{
    match r {
        EpisodeRow::Episode { .. } => true,
        EpisodeRow::Season { .. } => false,
    }
}

/// Whether a row shows the given episode.
fn is_row_of(r: &EpisodeRow, ep_index: usize) -> (b: bool)
    ensures
        b == (r matches EpisodeRow::Episode { index: i, .. } && i == ep_index),
{
    match r {
        EpisodeRow::Episode { index, .. } => *index == ep_index,
        EpisodeRow::Season { .. } => false,
    }
}

/// The row after or before the highlighted one, going round at both ends.
fn stepped(selected: Option<usize>, len: usize, down: bool) -> (r: Option<usize>)
    ensures
        r == moved(
            selected,
            len as nat,
            if down {
                1
            } else {
                -1
            },
        ),
{
    if len == 0 {
        return selected;
    }
    let at: u128 = match selected {
        Some(i) => i as u128,
        None => 0,
    };
    let n: u128 = len as u128;
    let next: u128 = if down {
        (at + 1) % n
    } else {
        proof {
            vstd::arithmetic::div_mod::lemma_mod_add_multiples_vanish(at - 1, n as int);
        }
        (at + (n - 1)) % n
    };
    Some(next as usize)
}

/// The titles that the quick-filter lets through.
fn filtered(all: &Vec<AnimeSummary>, filter: &str) -> (r: Vec<AnimeSummary>)
    ensures
        r@ == matching(all@, filter@),
        filter@.len() == 0 ==> r@ == all@,
{
    let f = text::lowered(filter);
    assert(filter@.len() == 0 ==> vstd::utf8::is_ascii_chars(filter@) && text::ascii_lower(filter@).len() == 0);
    let f = text::chars_of(f.as_str());
    let mut shown: Vec<AnimeSummary> = Vec::new();
    let ghost p = |a: AnimeSummary| text::contains(text::lowercase(a.title@), f@);
    let mut i: usize = 0;
    while i < all.len()
        invariant
            i <= all@.len(),
            p == (|a: AnimeSummary| text::contains(text::lowercase(a.title@), f@)),
            f@.len() > 0 ==> shown@ == all@.take(i as int).filter(p),
            f@.len() == 0 ==> shown@ == all@.take(i as int),
        decreases all@.len() - i,
    {
        proof {
            reveal(Seq::filter);
            assert(all@.take(i + 1).drop_last() =~= all@.take(i as int));
        }
        let title = text::lowered(all[i].title.as_str());
        let title = text::chars_of(title.as_str());
        if f.len() == 0 || text::has(title.as_slice(), f.as_slice()) {
            shown.push(all[i].clone());
        }
        i = i + 1;
    }
    assert(all@.take(all@.len() as int) =~= all@);
    shown
}

} // verus!
