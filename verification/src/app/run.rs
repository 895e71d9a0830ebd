//! The decisions of the event loop. Terminal input, a periodic tick, background task
//! results, and playback-progress samples come in one by one; each changes the state of
//! the [`Runner`] and yields the [`Command`]s to perform, in order. Network and playback
//! IO run outside and report back as messages.
//!
//! The state is modelled by [`RunnerModel`], and every step by a function on it that
//! gives the state after the step and what is to be performed.

pub mod covers;
pub mod keys;
pub mod laws;
pub mod session;
pub mod thumbs;
pub mod warm;

use crate::app::run::covers::{Covers, CoversModel, Screen};
use crate::app::run::session::{Session, SessionModel};
use crate::app::run::warm::{WarmModel, Warmup};
use crate::app::sources;
use crate::app::sources::{PreparedModel, PreparedSource, TimeInput};
use crate::app::{App, AppModel, Effect, EffectModel, StatusLevel, View};
use crate::cache::Cache;
use crate::config::Config;
use crate::errors;
use crate::errors::{Error, Fault, Result};
use crate::models;
use crate::models::{AnimeDetails, AnimeId, AnimeSummary, CatalogPage, EpisodeId};
use crate::player;
use crate::player::embedded::{Control, ProgressUpdate};
use crate::player::kitty::{CellRect, DELETE_ALL_IMAGES};
use crate::player::mpv;
use crate::player::mpv::MpvTuning;
use crate::player::Backend;
use crate::seconds::Seconds;
use crate::text;
use vstd::hash_map::StringHashMap;
use vstd::prelude::*;
use vstd::view::View as _;

verus! {

/// What the session was started with.
pub struct Settings {
    pub provider_name: String,
    pub mpv_path: String,
    pub backend: Backend,
    /// Whether the terminal shows Kitty graphics.
    pub graphics: bool,
    pub save_interval_secs: u64,
    /// Seconds the `i` key jumps to skip an opening.
    pub skip_intro_secs: u64,
    /// Preferred source label for direct (Enter) playback, e.g. "vidmoly (VF)".
    pub default_source: String,
    /// mpv read-ahead buffer caps (its own RAM, not the terminal image cache).
    pub tuning: MpvTuning,
    /// Path to the generated mpv input.conf that gives the external window our
    /// keybinds (None if it couldn't be written → mpv defaults still apply).
    pub input_conf_path: Option<String>,
    /// On-disk cache of raw poster source bytes.
    pub poster_cache: Cache,
}

/// Something for the loop to perform.
#[derive(Debug)]
pub enum Command {
    /// Fetch a page of the catalogue; `more` pages are appended.
    SearchPage { query: String, page: u32, sort: &'static str, more: bool },
    LoadDetails(AnimeId),
    LoadFavourites,
    LoadHistory,
    ToggleFavourite(AnimeId, String),
    /// Resolve an episode's sources and report them as [`Msg::Resolved`].
    Resolve { anime: AnimeId, episode: EpisodeId, choose: bool },
    /// Report sources that are at hand as [`Msg::Resolved`].
    Resolved { anime: AnimeId, episode: EpisodeId, sources: Vec<PreparedSource>, choose: bool },
    /// Report a choice as [`Msg::PlayQueue`].
    PlayQueue { anime: AnimeId, episode: EpisodeId, queue: Vec<PreparedSource> },
    /// Resolve an episode's sources ahead and report them as [`Msg::Prefetched`].
    Prefetch { anime: AnimeId, episode: EpisodeId },
    FetchPoster { anime: AnimeId, path: String, url: String },
    FetchThumb { anime: AnimeId, path: String, url: String },
    /// Keep the poster image that was just reported.
    KeepPoster,
    /// Let the kept poster image go.
    DropPoster,
    /// Resize the kept poster to a size in pixels, and report the PNG.
    PaintPoster { rect: CellRect, width: u32, height: u32 },
    /// Write to the terminal.
    Write(String),
    /// Wipe the screen for a full repaint.
    ClearScreen,
    /// Remember title + cover so history/favourites can show them later.
    CacheAnime { anime: AnimeId, title: String, poster_url: Option<String> },
    SaveProgress { anime: AnimeId, episode: EpisodeId, position: Seconds, duration: Seconds },
    /// Read the resume positions of an anime and report them.
    ReloadResume(AnimeId),
    /// Read the resume position of an episode and begin to play a source of it.
    Begin { anime: AnimeId, episode: EpisodeId, source: PreparedSource },
    /// Stop the embedded player.
    StopPlayer,
    /// Ask the external window to quit.
    QuitExternal,
    /// Start the embedded player and report whether it started; `again` after a resize.
    StartEmbedded { source: PreparedSource, start: Seconds, tuning: MpvTuning, again: bool },
    /// Run the external player and report its end as [`Msg::ExternalEnded`].
    RunExternal {
        anime: AnimeId,
        episode: EpisodeId,
        source: PreparedSource,
        start: Seconds,
        tuning: MpvTuning,
    },
    /// Control the player: the embedded one, or else the external window. The amount is
    /// the number that the command takes, if it takes one.
    Control { embedded: bool, control: Control, amount: i128 },
    /// Seek to a time that was typed.
    SeekTo { embedded: bool, time: TimeInput },
}

/// What a [`Command`] asks for.
pub ghost enum CommandModel {
    SearchPage { query: Seq<char>, page: u32, sort: Seq<char>, more: bool },
    LoadDetails(Seq<char>),
    LoadFavourites,
    LoadHistory,
    ToggleFavourite(Seq<char>, Seq<char>),
    Resolve { anime: Seq<char>, episode: Seq<char>, choose: bool },
    Resolved { anime: Seq<char>, episode: Seq<char>, sources: Seq<PreparedModel>, choose: bool },
    PlayQueue { anime: Seq<char>, episode: Seq<char>, queue: Seq<PreparedModel> },
    Prefetch { anime: Seq<char>, episode: Seq<char> },
    FetchPoster { anime: Seq<char>, path: Seq<char>, url: Seq<char> },
    FetchThumb { anime: Seq<char>, path: Seq<char>, url: Seq<char> },
    KeepPoster,
    DropPoster,
    PaintPoster { rect: CellRect, width: u32, height: u32 },
    Write(Seq<char>),
    ClearScreen,
    CacheAnime { anime: Seq<char>, title: Seq<char>, poster_url: Option<Seq<char>> },
    SaveProgress { anime: Seq<char>, episode: Seq<char>, position: Seconds, duration: Seconds },
    ReloadResume(Seq<char>),
    Begin { anime: Seq<char>, episode: Seq<char>, source: PreparedModel },
    StopPlayer,
    QuitExternal,
    StartEmbedded { source: PreparedModel, start: Seconds, tuning: MpvTuning, again: bool },
    RunExternal {
        anime: Seq<char>,
        episode: Seq<char>,
        source: PreparedModel,
        start: Seconds,
        tuning: MpvTuning,
    },
    Control { embedded: bool, control: Control, amount: i128 },
    SeekTo { embedded: bool, hours: u64, minutes: u64, seconds: Seq<char> },
}

impl vstd::view::View for Command {
    type V = CommandModel;

    open spec fn view(&self) -> CommandModel {
        match self {
            Command::SearchPage { query, page, sort, more } => CommandModel::SearchPage {
                query: query@,
                page: *page,
                sort: sort@,
                more: *more,
            },
            Command::LoadDetails(id) => CommandModel::LoadDetails(id@),
            Command::LoadFavourites => CommandModel::LoadFavourites,
            Command::LoadHistory => CommandModel::LoadHistory,
            Command::ToggleFavourite(id, t) => CommandModel::ToggleFavourite(id@, t@),
            Command::Resolve { anime, episode, choose } => CommandModel::Resolve {
                anime: anime@,
                episode: episode@,
                choose: *choose,
            },
            Command::Resolved { anime, episode, sources, choose } => CommandModel::Resolved {
                anime: anime@,
                episode: episode@,
                sources: sources::prepared_models(sources@),
                choose: *choose,
            },
            Command::PlayQueue { anime, episode, queue } => CommandModel::PlayQueue {
                anime: anime@,
                episode: episode@,
                queue: sources::prepared_models(queue@),
            },
            Command::Prefetch { anime, episode } => CommandModel::Prefetch {
                anime: anime@,
                episode: episode@,
            },
            Command::FetchPoster { anime, path, url } => CommandModel::FetchPoster {
                anime: anime@,
                path: path@,
                url: url@,
            },
            Command::FetchThumb { anime, path, url } => CommandModel::FetchThumb {
                anime: anime@,
                path: path@,
                url: url@,
            },
            Command::KeepPoster => CommandModel::KeepPoster,
            Command::DropPoster => CommandModel::DropPoster,
            Command::PaintPoster { rect, width, height } => CommandModel::PaintPoster {
                rect: *rect,
                width: *width,
                height: *height,
            },
            Command::Write(s) => CommandModel::Write(s@),
            Command::ClearScreen => CommandModel::ClearScreen,
            Command::CacheAnime { anime, title, poster_url } => CommandModel::CacheAnime {
                anime: anime@,
                title: title@,
                poster_url: text::opt_text(*poster_url),
            },
            Command::SaveProgress { anime, episode, position, duration } =>
            CommandModel::SaveProgress {
                anime: anime@,
                episode: episode@,
                position: *position,
                duration: *duration,
            },
            Command::ReloadResume(id) => CommandModel::ReloadResume(id@),
            Command::Begin { anime, episode, source } => CommandModel::Begin {
                anime: anime@,
                episode: episode@,
                source: source@,
            },
            Command::StopPlayer => CommandModel::StopPlayer,
            Command::QuitExternal => CommandModel::QuitExternal,
            Command::StartEmbedded { source, start, tuning, again } =>
            CommandModel::StartEmbedded {
                source: source@,
                start: *start,
                tuning: *tuning,
                again: *again,
            },
            Command::RunExternal { anime, episode, source, start, tuning } =>
            CommandModel::RunExternal {
                anime: anime@,
                episode: episode@,
                source: source@,
                start: *start,
                tuning: *tuning,
            },
            Command::Control { embedded, control, amount } => CommandModel::Control {
                embedded: *embedded,
                control: *control,
                amount: *amount,
            },
            Command::SeekTo { embedded, time } => CommandModel::SeekTo {
                embedded: *embedded,
                hours: time.hours,
                minutes: time.minutes,
                seconds: time.seconds@,
            },
        }
    }
}

/// What a list of commands asks for.
pub open spec fn commands(v: Seq<Command>) -> Seq<CommandModel> {
    v.map_values(|c: Command| c@)
}

/// The list of one command.
pub fn just(c: Command) -> (r: Vec<Command>)
    ensures
        commands(r@) == seq![c@],
{
    let mut v: Vec<Command> = Vec::new();
    v.push(c);
    assert(commands(v@) =~= seq![c@]);
    v
}

/// The list of no command.
pub fn nothing() -> (r: Vec<Command>)
    ensures
        commands(r@) == Seq::<CommandModel>::empty(),
{
    let v: Vec<Command> = Vec::new();
    assert(commands(v@) =~= Seq::<CommandModel>::empty());
    v
}

/// Appends a command.
pub fn emit(list: &mut Vec<Command>, c: Command)
    ensures
        commands(final(list)@) == commands(old(list)@).push(c@),
{
    let ghost before = list@;
    list.push(c);
    assert(commands(list@) =~= commands(before).push(c@));
}

/// Appends commands.
pub fn emit_all(list: &mut Vec<Command>, more: Vec<Command>)
    ensures
        commands(final(list)@) == commands(old(list)@) + commands(more@),
{
    let ghost before = list@;
    let mut more = more;
    let ghost added = more@;
    list.append(&mut more);
    assert(commands(list@) =~= commands(before) + commands(added));
}

/// The resume positions of a list, by the ids of their episodes.
pub open spec fn by_episode(list: Seq<(String, Seconds)>) -> Map<Seq<char>, Seconds>
    decreases list.len(),
{
    if list.len() == 0 {
        Map::empty()
    } else {
        by_episode(list.drop_last()).insert(list.last().0@, list.last().1)
    }
}

/// The resume positions of a list, by the ids of their episodes.
fn index_positions(list: Vec<(String, Seconds)>) -> (r: StringHashMap<Seconds>)
    ensures
        r@ == by_episode(list@),
{
    let ghost all = list@;
    let mut map: StringHashMap<Seconds> = StringHashMap::new();
    for pair in it: list
        invariant
            it.seq() == all,
            map@ == by_episode(all.take(it.index() as int)),
    {
        assert(all.take(it.index() + 1).drop_last() =~= all.take(it.index() as int));
        map.insert(pair.0, pair.1);
    }
    assert(all.take(all.len() as int) =~= all);
    map
}

/// What the local database says of an anime.
pub struct Local {
    /// The resume positions of its episodes.
    pub resume_positions: Vec<(String, Seconds)>,
    pub favourite: bool,
    /// The episode that was watched last.
    pub last_watched: Option<String>,
}

/// Results delivered from background tasks back into the loop.
pub enum Msg {
    /// First page of a fresh catalogue query (replaces the list).
    Results(Result<CatalogPage>),
    /// A subsequent catalogue page (appended for infinite scroll).
    MoreResults(Result<CatalogPage>),
    Details(Result<AnimeDetails>, Local),
    Favourites(Result<Vec<AnimeSummary>>),
    History(Result<Vec<AnimeSummary>>),
    Resolved {
        anime: AnimeId,
        episode: EpisodeId,
        result: Result<Vec<PreparedSource>>,
        /// True when the user asked to pick a source (show the picker); false plays
        /// the configured default source directly.
        choose: bool,
    },
    /// External-backend playback finished (embedded finish is detected via tick).
    ExternalEnded { anime: AnimeId, episode: EpisodeId, end: Result<()> },
    /// Play an ordered set of fallback candidates for an episode (picker choice).
    PlayQueue { anime: AnimeId, episode: EpisodeId, queue: Vec<PreparedSource> },
    /// Background prefetch of an episode's sources completed (empty on failure).
    Prefetched { episode: EpisodeId, sources: Vec<PreparedSource> },
    /// A poster was fetched and decoded, or could not be.
    Poster { anime: AnimeId, decoded: bool },
    /// Fetched + decoded browse-row thumbnail, pre-sized to a small PNG.
    Thumb { anime: AnimeId, png: Result<Vec<u8>> },
}

/// The state of the event loop.
pub struct Runner {
    pub settings: Settings,
    pub app: App,
    pub session: Session,
    pub warm: Warmup,
    pub covers: Covers,
    /// Last time the TUI chrome was redrawn during embedded playback, in milliseconds.
    /// Used to throttle redraws so they don't compete with mpv's Kitty output.
    pub last_tui_draw: u64,
}

/// The state of a [`Runner`].
#[verifier::ext_equal]
pub ghost struct RunnerModel {
    pub settings: Settings,
    pub app: AppModel,
    pub session: SessionModel,
    pub warm: WarmModel,
    pub covers: CoversModel,
    pub last_tui_draw: u64,
}

impl vstd::view::View for Runner {
    type V = RunnerModel;

    open spec fn view(&self) -> RunnerModel {
        RunnerModel {
            settings: self.settings,
            app: self.app@,
            session: self.session@,
            warm: self.warm@,
            covers: self.covers@,
            last_tui_draw: self.last_tui_draw,
        }
    }
}

/// The settings are those of a configuration, on a terminal with or without graphics,
/// with the working files in `dir`.
pub open spec fn configured(
    s: Settings,
    config: Config,
    provider_name: Seq<char>,
    graphics: bool,
    dir: Seq<char>,
    conf_written: bool,
) -> bool {
    &&& s.provider_name@ == provider_name
    &&& s.mpv_path@ == config.mpv_path@
    &&& s.backend == (if config.embedded_player && graphics {
        Backend::EmbeddedKitty
    } else {
        Backend::ExternalMpv
    })
    &&& s.graphics == graphics
    &&& s.save_interval_secs == config.progress_save_interval_secs
    &&& s.skip_intro_secs == config.playback.skip_intro_secs
    &&& s.default_source@ == config.playback.default_source@
    &&& s.tuning == (MpvTuning {
        max_buffer_mib: config.playback.max_buffer_mib,
        readahead_secs: config.playback.readahead_secs,
    })
    &&& text::opt_text(s.input_conf_path) == (if conf_written {
        Some(text::path_join(dir, "mpv-input.conf"@))
    } else {
        None
    })
    &&& s.poster_cache.dir() == text::path_join(dir, "posters"@)
}

/// A command asks for what it holds, each part for itself.
pub proof fn law_command_parts(
    a: AnimeId,
    e: EpisodeId,
    p: Seconds,
    d: Seconds,
    s: PreparedSource,
    t: MpvTuning,
    q: String,
    u: String,
    n: u32,
    sort: &'static str,
    flag: bool,
)
    ensures
        (Command::SaveProgress { anime: a, episode: e, position: p, duration: d })@ == (
        CommandModel::SaveProgress { anime: a@, episode: e@, position: p, duration: d }),
        (Command::SearchPage { query: q, page: n, sort, more: flag })@ == (
        CommandModel::SearchPage { query: q@, page: n, sort: sort@, more: flag }),
        (Command::Begin { anime: a, episode: e, source: s })@ == (CommandModel::Begin {
            anime: a@,
            episode: e@,
            source: s@,
        }),
        (Command::StartEmbedded { source: s, start: p, tuning: t, again: flag })@ == (
        CommandModel::StartEmbedded { source: s@, start: p, tuning: t, again: flag }),
        (Command::RunExternal { anime: a, episode: e, source: s, start: p, tuning: t })@ == (
        CommandModel::RunExternal { anime: a@, episode: e@, source: s@, start: p, tuning: t }),
        (Command::Resolve { anime: a, episode: e, choose: flag })@ == (CommandModel::Resolve {
            anime: a@,
            episode: e@,
            choose: flag,
        }),
        (Command::Prefetch { anime: a, episode: e })@ == (CommandModel::Prefetch {
            anime: a@,
            episode: e@,
        }),
        (Command::FetchPoster { anime: a, path: q, url: u })@ == (CommandModel::FetchPoster {
            anime: a@,
            path: q@,
            url: u@,
        }),
        (Command::FetchThumb { anime: a, path: q, url: u })@ == (CommandModel::FetchThumb {
            anime: a@,
            path: q@,
            url: u@,
        }),
        Command::ToggleFavourite(a, q)@ == CommandModel::ToggleFavourite(a@, q@),
        Command::LoadDetails(a)@ == CommandModel::LoadDetails(a@),
        Command::ReloadResume(a)@ == CommandModel::ReloadResume(a@),
        Command::Write(q)@ == CommandModel::Write(q@),
{
}

/// The settings are those of the configuration, each from the value of its name; the
/// embedded player is used only where it is asked for and can be shown.
pub proof fn law_configured(
    s: Settings,
    config: Config,
    name: Seq<char>,
    graphics: bool,
    dir: Seq<char>,
    written: bool,
)
    requires
        configured(s, config, name, graphics, dir, written),
    ensures
        s.provider_name@ == name,
        s.mpv_path@ == config.mpv_path@,
        s.graphics == graphics,
        s.backend == Backend::EmbeddedKitty <==> config.embedded_player && graphics,
        s.save_interval_secs == config.progress_save_interval_secs,
        s.skip_intro_secs == config.playback.skip_intro_secs,
        s.default_source@ == config.playback.default_source@,
        s.tuning.max_buffer_mib == config.playback.max_buffer_mib,
        s.tuning.readahead_secs == config.playback.readahead_secs,
        s.input_conf_path is Some <==> written,
        s.input_conf_path matches Some(p) ==> p@ == text::path_join(dir, "mpv-input.conf"@),
        s.poster_cache.dir() == text::path_join(dir, "posters"@),
{
}

/// The work goes where the config says, else where the platform caches, and else into the
/// directory for temporary files.
pub proof fn law_work_dir(config: &Config, platform: Option<&str>, temp: &str, r: String)
    requires
        call_ensures(work_dir, (config, platform, temp), r),
    ensures
        config.cache_dir matches Some(d) ==> r@ == d@,
        config.cache_dir is None && platform is Some ==> r@ == platform->0@,
        config.cache_dir is None && platform is None ==> r@ == temp@,
{
}

/// Where the working files go: the cache directory, or else the temporary directory.
pub fn work_dir(config: &Config, platform_dir: Option<&str>, temp_dir: &str) -> (r: String)
    ensures
        r@ == (match (config.cache_dir, platform_dir) {
            (Some(d), _) => d@,
            (None, Some(d)) => d@,
            (None, None) => temp_dir@,
        }),
{
    match config.cache_dir(platform_dir) {
        Ok(dir) => dir,
        Err(_) => temp_dir.to_string(),
    }
}

/// Where the posters are cached.
pub fn poster_dir(dir: &str) -> (r: String)
    ensures
        r@ == text::path_join(dir@, "posters"@),
{
    text::joined_path(dir, "posters")
}

/// The mpv input.conf that mirrors our keybinds for the external window: its path and
/// what is written there.
pub fn input_conf_file(config: &Config, dir: &str) -> (r: (String, String))
    ensures
        r.0@ == text::path_join(dir@, "mpv-input.conf"@),
        r.1@ == mpv::input_conf(config.playback.skip_intro_secs),
{
    (
        text::joined_path(dir, "mpv-input.conf"),
        mpv::external_input_conf(config.playback.skip_intro_secs),
    )
}

impl RunnerModel {
    pub open spec fn with_app(self, app: AppModel) -> RunnerModel {
        RunnerModel { app, ..self }
    }

    /// The episode that plays starts at its saved position, or at the beginning.
    pub open spec fn starting(self, from_start: bool) -> RunnerModel {
        RunnerModel { session: SessionModel { from_start, ..self.session }, ..self }
    }

    /// What an effect leads to.
    pub open spec fn dispatched(self, effect: EffectModel) -> (RunnerModel, Seq<CommandModel>) {
        match effect {
            EffectModel::Nothing => (self, Seq::empty()),
            EffectModel::Search(query) => (
                self.with_app(AppModel { query, ..self.app }),
                seq![
                    CommandModel::SearchPage {
                        query,
                        page: 1,
                        sort: self.app.sort.query(),
                        more: false,
                    },
                ],
            ),
            EffectModel::LoadDetails(id) => {
                let (covers, asked) = self.covers.opened(self.settings, self.app.results, id);
                (RunnerModel { covers, ..self }, asked.push(CommandModel::LoadDetails(id)))
            },
            EffectModel::LoadFavourites => (self, seq![CommandModel::LoadFavourites]),
            EffectModel::LoadHistory => (self, seq![CommandModel::LoadHistory]),
            EffectModel::Play(a, e) => (self.starting(false), self.warm.resolving(a, e, false)),
            EffectModel::Replay(a, e) => (self.starting(true), self.warm.resolving(a, e, false)),
            EffectModel::PlayChoose(a, e) => (
                self.starting(false),
                self.warm.resolving(a, e, true),
            ),
            EffectModel::SelectSource(i) => {
                let (app, asked) = self.session.source_selected(self.app, i);
                (self.with_app(app), asked)
            },
            EffectModel::ToggleFavourite(id, title) => (
                self,
                seq![CommandModel::ToggleFavourite(id, title)],
            ),
            EffectModel::LoadDownloads
            | EffectModel::Download(_, _)
            | EffectModel::DownloadSource(_)
            | EffectModel::RemoveDownload(_, _) => (
                self.with_app(self.app.failed(Fault::NotImplemented("downloads"@))),
                Seq::empty(),
            ),
        }
    }

    /// A list of results replaces the one shown, and its thumbnails with it.
    pub open spec fn relisted(self, app: AppModel) -> (RunnerModel, Seq<CommandModel>) {
        let (covers, freed) = self.covers.freed();
        (RunnerModel { app, covers, ..self }, freed)
    }

    /// The details of a title came in, with what the local database says of it.
    pub open spec fn detailed(
        self,
        d: AnimeDetails,
        resume: Map<Seq<char>, Seconds>,
        favourite: bool,
        last: Option<Seq<char>>,
    ) -> (RunnerModel, Seq<CommandModel>) {
        let (covers, asked) = self.covers.upgraded(
            self.settings,
            d.id@,
            text::opt_text(d.poster_url),
        );
        (
            RunnerModel {
                app: AppModel {
                    resume_positions: resume,
                    is_favourite: favourite,
                    ..self.app
                }.with_details(d),
                warm: self.warm.opened(d, last),
                covers,
                ..self
            },
            seq![
                CommandModel::CacheAnime {
                    anime: d.id@,
                    title: d.title@,
                    poster_url: text::opt_text(d.poster_url),
                },
            ] + asked,
        )
    }

    /// The anime whose (big) poster should currently be shown: the details anime.
    pub open spec fn poster_subject(self) -> Option<Seq<char>> {
        match self.app.details {
            Some(d) if self.app.view == View::Details => Some(d.id@),
            _ => None,
        }
    }

    /// What a playback step gives.
    pub open spec fn stepped(self, step: (SessionModel, AppModel, Seq<CommandModel>)) -> (
        RunnerModel,
        Seq<CommandModel>,
    ) {
        (RunnerModel { session: step.0, app: step.1, ..self }, step.2)
    }

    /// What a message leads to.
    pub open spec fn received(self, msg: Msg) -> (RunnerModel, Seq<CommandModel>) {
        match msg {
            Msg::Results(Ok(page)) => self.relisted(
                self.app.with_page(page, false).with_status(
                    "provider: "@ + self.settings.provider_name@ + " · backend: "@
                        + self.settings.backend.named(),
                    StatusLevel::Info,
                ),
            ),
            Msg::MoreResults(Ok(page)) => (
                self.with_app(self.app.with_page(page, true)),
                Seq::empty(),
            ),
            Msg::MoreResults(Err(e)) => (
                self.with_app(
                    AppModel { loading_more: false, ..self.app }.with_status(
                        "load more failed: "@ + errors::sentence(e@),
                        StatusLevel::Info,
                    ),
                ),
                Seq::empty(),
            ),
            Msg::Details(Ok(d), local) => self.detailed(
                d,
                by_episode(local.resume_positions@),
                local.favourite,
                text::opt_text(local.last_watched),
            ),
            Msg::Favourites(Ok(list)) => self.relisted(self.app.with_results(list@)),
            Msg::History(Ok(list)) => self.relisted(self.app.with_results(list@)),
            Msg::Results(Err(e))
            | Msg::Details(Err(e), _)
            | Msg::Favourites(Err(e))
            | Msg::History(Err(e)) => (self.with_app(self.app.failed(e@)), Seq::empty()),
            Msg::Resolved { anime, episode, result, choose } => self.stepped(
                self.session.resolved(
                    self.app,
                    self.settings,
                    anime@,
                    episode@,
                    session::outcome(result),
                    choose,
                ),
            ),
            Msg::ExternalEnded { anime, episode, end } => self.stepped(
                self.session.external_ended(self.app, anime@, episode@, session::fault_of(end)),
            ),
            Msg::PlayQueue { anime, episode, queue } => self.stepped(
                self.session.queue_started(
                    self.app,
                    anime@,
                    episode@,
                    sources::prepared_models(queue@),
                ),
            ),
            Msg::Prefetched { episode, sources } => (
                RunnerModel { warm: self.warm.fetched(episode@, sources), ..self },
                Seq::empty(),
            ),
            Msg::Poster { anime, decoded } => {
                let (covers, kept) = self.covers.poster_came(
                    self.poster_subject(),
                    anime@,
                    decoded,
                );
                (RunnerModel { covers, ..self }, kept)
            },
            Msg::Thumb { anime, png } => (
                RunnerModel {
                    covers: self.covers.thumb_came(
                        anime@,
                        match png {
                            Ok(png) => Some(png),
                            Err(_) => None,
                        },
                    ),
                    ..self
                },
                Seq::empty(),
            ),
        }
    }

    /// A tick: messages age, the spinner turns, a player that has finished ends
    /// playback, and sources are fetched ahead.
    pub open spec fn ticked(self, finished: bool, now: u64) -> (RunnerModel, Seq<CommandModel>) {
        let aged = self.app.status_ticked();
        let spun = if aged.loading || aged.loading_more {
            aged.spun()
        } else {
            aged
        };
        let (session, app, ending) = if self.session.player && finished {
            self.session.ended(spun, "finished"@)
        } else {
            (self.session, spun, Seq::empty())
        };
        let (warm, asked) = self.warm.warmed(
            app,
            session.player || session.playing is Some,
            now,
        );
        (RunnerModel { session, app, warm, ..self }, ending + asked)
    }
}

impl Runner {
    /// A session with a configuration. The working files are in `dir`: `created` says
    /// whether the directory for posters is there or could be made, `conf_written`
    /// whether the input.conf could be written (best-effort: on failure the window just
    /// uses mpv's defaults).
    pub fn new(
        config: &Config,
        provider_name: &str,
        graphics: bool,
        dir: &str,
        created: std::result::Result<(), String>,
        conf_written: bool,
    ) -> (r: Result<Runner>)
        ensures
            match (r, created) {
                (Ok(runner), Ok(_)) => {
                    &&& configured(
                        runner.settings,
                        *config,
                        provider_name@,
                        graphics,
                        dir@,
                        conf_written,
                    )
                    &&& runner@.app == AppModel::initial()
                    &&& runner@.session == SessionModel::initial()
                    &&& runner@.warm == WarmModel::initial()
                    &&& runner@.covers == CoversModel::initial()
                    &&& runner@.last_tui_draw == 0
                },
                (Err(e), Err(m)) => e@ == Fault::Io(m@),
                _ => false,
            },
    {
        let poster_cache = match Cache::new(poster_dir(dir).as_str(), created) {
            Ok(cache) => cache,
            Err(e) => return Err(e),
        };
        let input_conf_path = if conf_written {
            Some(input_conf_file(config, dir).0)
        } else {
            None
        };
        let settings = Settings {
            provider_name: provider_name.to_string(),
            mpv_path: config.mpv_path.clone(),
            backend: player::select_backend(config, graphics),
            graphics,
            save_interval_secs: config.progress_save_interval_secs,
            skip_intro_secs: config.playback.skip_intro_secs,
            default_source: config.playback.default_source.clone(),
            tuning: MpvTuning {
                max_buffer_mib: config.playback.max_buffer_mib,
                readahead_secs: config.playback.readahead_secs,
            },
            input_conf_path,
            poster_cache,
        };
        Ok(
            Runner {
                settings,
                app: App::default(),
                session: Session::new(),
                warm: Warmup::new(),
                covers: Covers::new(),
                last_tui_draw: 0,
            },
        )
    }

    /// Load the initial catalogue on startup.
    pub fn start(&mut self) -> (r: Vec<Command>)
        ensures
            (final(self)@, commands(r@)) == old(self)@.with_app(
                AppModel { loading: true, ..old(self)@.app },
            ).dispatched(EffectModel::Search(Seq::empty())),
    {
        self.app.loading = true;
        self.dispatch(Effect::Search(String::new()))
    }

    /// Ask for the first page of a catalogue query.
    fn search(&mut self, query: String) -> (r: Vec<Command>)
        ensures
            (final(self)@, commands(r@)) == old(self)@.dispatched(EffectModel::Search(query@)),
    {
        // Record the active query synchronously so paging/sort use it.
        self.app.query = query.clone();
        let sort = self.app.sort.param();
        just(Command::SearchPage { query, page: 1, sort, more: false })
    }

    /// Ask for the details of a title.
    fn open_title(&mut self, id: AnimeId) -> (r: Vec<Command>)
        ensures
            (final(self)@, commands(r@)) == old(self)@.dispatched(EffectModel::LoadDetails(id@)),
    {
        let mut out = self.covers.open_title(&self.settings, &self.app.results, &id);
        emit(&mut out, Command::LoadDetails(id));
        out
    }

    /// Ask for the sources of an episode that is to be played.
    fn resolve(&mut self, anime: AnimeId, episode: EpisodeId, choose: bool, from_start: bool) -> (r:
        Vec<Command>)
        ensures
            final(self)@ == old(self)@.starting(from_start),
            commands(r@) == old(self)@.warm.resolving(anime@, episode@, choose),
    {
        self.session.from_start = from_start;
        self.warm.dispatch_resolve(anime, episode, choose)
    }

    /// What an effect leads to.
    #[verifier::rlimit(60)]
    pub fn dispatch(&mut self, effect: Effect) -> (r: Vec<Command>)
        ensures
            (final(self)@, commands(r@)) == old(self)@.dispatched(effect@),
    {
        match effect {
            Effect::Nothing => nothing(),
            Effect::Search(query) => self.search(query),
            Effect::LoadDetails(id) => self.open_title(id),
            // Favourites and history come from the local database — no network.
            Effect::LoadFavourites => just(Command::LoadFavourites),
            Effect::LoadHistory => just(Command::LoadHistory),
            Effect::Play(anime, episode) => self.resolve(anime, episode, false, false),
            Effect::Replay(anime, episode) => self.resolve(anime, episode, false, true),
            Effect::PlayChoose(anime, episode) => self.resolve(anime, episode, true, false),
            Effect::SelectSource(i) => self.session.select_source(&mut self.app, i),
            Effect::ToggleFavourite(id, title) => just(Command::ToggleFavourite(id, title)),
            Effect::LoadDownloads
            | Effect::Download(_, _)
            | Effect::DownloadSource(_)
            | Effect::RemoveDownload(_, _) => {
                self.app.fail(Error::NotImplemented("downloads"));
                nothing()
            },
        }
    }

    /// Takes in what became of toggling a favourite: its state now.
    pub fn on_favourite_toggled(&mut self, result: Result<bool>)
        ensures
            final(self)@ == (match result {
                Ok(now) => old(self)@.with_app(
                    AppModel { is_favourite: now, ..old(self)@.app },
                ),
                Err(e) => old(self)@.with_app(
                    old(self)@.app.with_status(
                        "favourite error: "@ + errors::sentence(e@),
                        StatusLevel::Info,
                    ),
                ),
            }),
    {
        match result {
            Ok(now) => {
                self.app.is_favourite = now;
            },
            Err(e) => {
                self.app.set_status(text::cat("favourite error: ", e.message().as_str()).as_str());
            },
        }
    }

    /// Takes the details of a title in.
    fn on_details(&mut self, details: AnimeDetails, local: Local) -> (r: Vec<Command>)
        ensures
            (final(self)@, commands(r@)) == old(self)@.detailed(
                details,
                by_episode(local.resume_positions@),
                local.favourite,
                text::opt_text(local.last_watched),
            ),
    {
        // Cache title + cover so history/favourites can show them later.
        let mut out = just(
            Command::CacheAnime {
                anime: details.id.clone(),
                title: details.title.clone(),
                poster_url: models::clone_text(&details.poster_url),
            },
        );
        // Load resume positions and favourite flag.
        self.app.resume_positions = index_positions(local.resume_positions);
        self.app.is_favourite = local.favourite;
        self.warm.queue_resume_prefetch(&details, &local.last_watched);
        emit_all(
            &mut out,
            self.covers.upgrade_poster(&self.settings, &details.id, &details.poster_url),
        );
        self.app.set_details(details);
        out
    }

    /// Takes a message in.
    pub fn on_message(&mut self, msg: Msg) -> (r: Vec<Command>)
        ensures
            (final(self)@, commands(r@)) == old(self)@.received(msg),
    {
        match msg {
            Msg::Results(Ok(page)) => {
                // Fresh result set: bound terminal image memory.
                let out = self.covers.free_thumb_images();
                self.app.set_page(page, false);
                let mut m = text::cat("provider: ", self.settings.provider_name.as_str());
                m.append(" · backend: ");
                m.append(self.settings.backend.name());
                self.app.set_status(m.as_str());
                out
            },
            // A further page arrived — append without disturbing existing covers.
            Msg::MoreResults(Ok(page)) => {
                self.app.set_page(page, true);
                nothing()
            },
            Msg::MoreResults(Err(e)) => {
                // Non-fatal: keep the list we have, just surface the reason.
                self.app.loading_more = false;
                self.app.set_status(
                    text::cat("load more failed: ", e.message().as_str()).as_str(),
                );
                nothing()
            },
            Msg::Details(Ok(details), local) => self.on_details(details, local),
            Msg::Favourites(Ok(list)) => {
                let out = self.covers.free_thumb_images();
                self.app.set_results(list);
                out
            },
            Msg::History(Ok(list)) => {
                let out = self.covers.free_thumb_images();
                self.app.set_results(list);
                out
            },
            Msg::Results(Err(e))
            | Msg::Details(Err(e), _)
            | Msg::Favourites(Err(e))
            | Msg::History(Err(e)) => {
                self.app.fail(e);
                nothing()
            },
            Msg::Resolved { anime, episode, result, choose } => self.session.on_resolved(
                &mut self.app,
                &self.settings,
                anime,
                episode,
                result,
                choose,
            ),
            Msg::ExternalEnded { anime, episode, end } => self.session.on_external_ended(
                &mut self.app,
                anime,
                episode,
                end,
            ),
            Msg::PlayQueue { anime, episode, queue } => self.session.start_playback_queue(
                &mut self.app,
                anime,
                episode,
                queue,
            ),
            Msg::Prefetched { episode, sources } => {
                self.warm.on_prefetched(episode, sources);
                nothing()
            },
            Msg::Poster { anime, decoded } => {
                // Apply only if it's still the subject being shown (details anime).
                let subject = if self.app.view == View::Details {
                    match &self.app.details {
                        Some(d) => Some(&d.id),
                        None => None,
                    }
                } else {
                    None
                };
                self.covers.on_poster(subject, anime, decoded)
            },
            Msg::Thumb { anime, png } => {
                let png = match png {
                    Ok(png) => Some(png),
                    Err(_) => None,
                };
                self.covers.on_thumb(anime, png);
                nothing()
            },
        }
    }

    /// Takes the resume positions in that were read again.
    pub fn set_resume_positions(&mut self, positions: Vec<(String, Seconds)>)
        ensures
            final(self)@ == old(self)@.with_app(
                AppModel { resume_positions: by_episode(positions@), ..old(self)@.app },
            ),
    {
        self.app.resume_positions = index_positions(positions);
    }

    /// Start playing one source; `saved` is the saved position of the episode.
    pub fn begin_playback(
        &mut self,
        anime: AnimeId,
        episode: EpisodeId,
        source: PreparedSource,
        saved: Seconds,
    ) -> (r: Vec<Command>)
        ensures
            (final(self)@, commands(r@)) == old(self)@.stepped(
                old(self)@.session.begun(
                    old(self)@.app,
                    old(self)@.settings,
                    anime@,
                    episode@,
                    source@,
                    saved,
                ),
            ),
    {
        self.session.begin_playback(&mut self.app, &self.settings, anime, episode, source, saved)
    }

    /// Takes in whether the embedded player started; `again` after a resize.
    pub fn on_player_started(&mut self, result: Result<()>, again: bool) -> (r: Vec<Command>)
        ensures
            (final(self)@, commands(r@)) == old(self)@.stepped(
                if again {
                    old(self)@.session.restarted(old(self)@.app, session::fault_of(result))
                } else {
                    old(self)@.session.started(old(self)@.app, session::fault_of(result))
                },
            ),
    {
        if again {
            self.session.on_player_restarted(&mut self.app, result)
        } else {
            self.session.on_player_started(&mut self.app, result)
        }
    }

    /// Takes a progress sample in; `save_due` says whether the position has moved at
    /// least the save interval away from the one last saved.
    pub fn on_progress(&mut self, update: ProgressUpdate, save_due: bool) -> (r: Vec<Command>)
        ensures
            (final(self)@, commands(r@)) == old(self)@.stepped(
                old(self)@.session.progressed(old(self)@.app, update, save_due),
            ),
    {
        self.session.on_progress(&mut self.app, update, save_due)
    }

    /// A tick at the time `now`, in milliseconds. `finished` says whether the embedded
    /// player exited on its own (end of file / crash).
    pub fn on_tick(&mut self, finished: bool, now: u64) -> (r: Vec<Command>)
        ensures
            (final(self)@, commands(r@)) == old(self)@.ticked(finished, now),
    {
        // Age transient status messages and advance the loading spinner.
        self.app.tick_status();
        if self.app.loading || self.app.loading_more {
            self.app.advance_spinner();
        }
        let mut out = nothing();
        if self.session.player && finished {
            emit_all(&mut out, self.session.end_playback(&mut self.app, "finished"));
        }
        // Warm the resolve/yt-dlp cache for the episode you're hovering, so
        // pressing Enter plays instantly instead of waiting ~2-3 s.

        let busy = self.session.player || self.session.playing.is_some();
        emit_all(&mut out, self.warm.maybe_prefetch(&self.app, busy, now));
        assert(commands(out@) =~= old(self)@.ticked(finished, now).1);
        out
    }

    /// Paint the details-page poster, or remove it when off the details page.
    pub fn render_poster(&mut self, screen: Screen) -> (r: Vec<Command>)
        ensures
            ({
                let (covers, asked) = old(self)@.covers.rendered(
                    covers::poster_box(old(self)@.app.view, screen, old(self)@.settings.graphics),
                );
                final(self)@ == (RunnerModel { covers, ..old(self)@ }) && commands(r@) == asked
            }),
    {
        self.covers.render_poster(self.app.view, screen, self.settings.graphics)
    }

    /// Place the thumbnails of the browse list.
    pub fn place_thumbnails(&mut self, screen: Screen) -> (r: Vec<Command>)
        ensures
            ({
                let (covers, asked) = thumbs::placed(
                    old(self)@.covers,
                    old(self)@.settings,
                    keys::thumbnailed(old(self)@.app.view),
                    old(self)@.app.results,
                    old(self)@.app.list_offset,
                    screen,
                );
                final(self)@ == (RunnerModel { covers, ..old(self)@ }) && commands(r@) == asked
            }),
    {
        let browsing = self.in_browse_view();
        self.covers.place_thumbnails(
            &self.settings,
            browsing,
            &self.app.results,
            self.app.list_offset,
            screen,
        )
    }

    /// Wipe a finished/relocated video surface and force a full repaint, when that is
    /// due.
    pub fn wipe(&mut self) -> (r: Vec<Command>)
        ensures
            old(self)@.session.needs_clear ==> {
                &&& final(self)@ == (RunnerModel {
                    session: SessionModel { needs_clear: false, ..old(self)@.session },
                    covers: old(self)@.covers.wiped(),
                    ..old(self)@
                })
                &&& commands(r@) == seq![
                    CommandModel::Write(DELETE_ALL_IMAGES@),
                    CommandModel::ClearScreen,
                ]
            },
            !old(self)@.session.needs_clear ==> final(self)@ == old(self)@ && commands(r@)
                == Seq::<CommandModel>::empty(),
    {
        if !self.session.needs_clear {
            return nothing();
        }
        self.session.needs_clear = false;
        self.covers.forget_wiped();
        let mut out = just(Command::Write(DELETE_ALL_IMAGES.to_string()));
        emit(&mut out, Command::ClearScreen);
        assert(commands(out@) =~= seq![
            CommandModel::Write(DELETE_ALL_IMAGES@),
            CommandModel::ClearScreen,
        ]);
        out
    }
}

} // verus!
