//! Playback: what is playing, the candidates to fall back through, and the steps from
//! choosing a source to the end of playback.

use crate::app::run;
use crate::app::run::{Command, CommandModel, Settings};
use crate::app::sources;
use crate::app::sources::{PreparedModel, PreparedSource};
use crate::app::{no_playback, App, AppModel, PlaybackState, StatusLevel, View};
use crate::errors;
use crate::errors::{Error, Fault, Result};
use crate::models::{AnimeId, EpisodeId};
use crate::player::embedded::ProgressUpdate;
use crate::player::kitty::DELETE_ALL_IMAGES;
use crate::player::mpv::MpvTuning;
use crate::player::Backend;
use crate::seconds;
use crate::seconds::Seconds;
use crate::text;
use vstd::prelude::*;
use vstd::view::View as _;

verus! {

/// What is playing and what can be played.
pub struct Session {
    /// Whether embedded playback is active (not for external or when idle).
    pub player: bool,
    pub playing: Option<(AnimeId, EpisodeId)>,
    pub current_source: Option<PreparedSource>,
    pub last_saved_pos: Seconds,
    /// The list of validated sources for the current selection request.
    /// The App only holds display labels; this holds the actual URLs.
    pub pending_sources: Vec<PreparedSource>,
    /// Ordered playback candidates for the episode being played, and the index of
    /// the next one to try. When a source fails to start (mpv exit ≠ 0 before any
    /// progress), playback falls back to the next candidate — so a dead/blocked
    /// host (e.g. voe) transparently yields to a working one.
    pub playback_queue: Vec<PreparedSource>,
    pub playback_attempt: usize,
    /// Whether playback starts at the beginning, whatever position was saved.
    pub from_start: bool,
    /// Set when the video surface must be wiped and the TUI fully repainted
    /// (playback ended / resize).
    pub needs_clear: bool,
}

/// The state of a [`Session`].
#[verifier::ext_equal]
pub ghost struct SessionModel {
    pub player: bool,
    pub playing: Option<(Seq<char>, Seq<char>)>,
    pub current_source: Option<PreparedModel>,
    pub last_saved_pos: Seconds,
    pub pending_sources: Seq<PreparedModel>,
    pub playback_queue: Seq<PreparedModel>,
    pub playback_attempt: usize,
    pub from_start: bool,
    pub needs_clear: bool,
}

/// The ids of an episode and its anime, as texts.
pub open spec fn id_pair(p: Option<(AnimeId, EpisodeId)>) -> Option<(Seq<char>, Seq<char>)> {
    match p {
        Some((a, e)) => Some((a@, e@)),
        None => None,
    }
}

/// What a stream holds, if there is one.
pub open spec fn source_model(s: Option<PreparedSource>) -> Option<PreparedModel> {
    match s {
        Some(s) => Some(s@),
        None => None,
    }
}

impl vstd::view::View for Session {
    type V = SessionModel;

    open spec fn view(&self) -> SessionModel {
        SessionModel {
            player: self.player,
            playing: id_pair(self.playing),
            current_source: source_model(self.current_source),
            last_saved_pos: self.last_saved_pos,
            pending_sources: sources::prepared_models(self.pending_sources@),
            playback_queue: sources::prepared_models(self.playback_queue@),
            playback_attempt: self.playback_attempt,
            from_start: self.from_start,
            needs_clear: self.needs_clear,
        }
    }
}

/// The tuning of the external window: no terminal image cache, so a generous buffer.
pub open spec fn window_tuning() -> MpvTuning {
    MpvTuning { max_buffer_mib: 256, readahead_secs: 30 }
}

/// What reads the resume markers of the loaded anime again.
pub open spec fn reloading(app: AppModel) -> Seq<CommandModel> {
    match app.details {
        Some(d) => seq![CommandModel::ReloadResume(d.id@)],
        None => Seq::empty(),
    }
}

/// What resolving an episode gave, as models.
pub open spec fn outcome(r: Result<Vec<PreparedSource>>) -> std::result::Result<
    Seq<PreparedModel>,
    Fault,
> {
    match r {
        Ok(list) => Ok(sources::prepared_models(list@)),
        Err(e) => Err(e@),
    }
}

/// What an outcome reports as its failure.
pub open spec fn fault_of(r: Result<()>) -> Option<Fault> {
    match r {
        Ok(_) => None,
        Err(e) => Some(e@),
    }
}

impl SessionModel {
    /// The state at startup.
    pub open spec fn initial() -> SessionModel {
        SessionModel {
            player: false,
            playing: None,
            current_source: None,
            last_saved_pos: Seconds { bits: 0 },
            pending_sources: Seq::empty(),
            playback_queue: Seq::empty(),
            playback_attempt: 0,
            from_start: false,
            needs_clear: false,
        }
    }

    /// What saves the position of what is playing.
    pub open spec fn saving(self, app: AppModel) -> Seq<CommandModel> {
        match (self.playing, app.playback) {
            (Some((anime, episode)), Some(pb)) => seq![
                CommandModel::SaveProgress {
                    anime,
                    episode,
                    position: pb.position,
                    duration: pb.duration,
                },
            ],
            _ => Seq::empty(),
        }
    }

    /// Playback ends: the position is saved, the resume markers are read again, the
    /// player stops, and the episode list comes back.
    pub open spec fn ended(self, app: AppModel, status: Seq<char>) -> (
        SessionModel,
        AppModel,
        Seq<CommandModel>,
    ) {
        (
            SessionModel {
                player: false,
                playing: None,
                current_source: None,
                needs_clear: true,
                ..self
            },
            AppModel {
                playback: None,
                fullscreen: false,
                seek_input: None,
                ..app
            }.left_player().with_status(status, StatusLevel::Info),
            self.saving(app) + reloading(app) + seq![
                if self.player {
                    CommandModel::StopPlayer
                } else {
                    CommandModel::QuitExternal
                },
            ],
        )
    }

    /// What is told when a candidate is tried: of the first nothing, of a later one its
    /// label.
    pub open spec fn trying(self, app: AppModel) -> AppModel {
        if self.playback_attempt == 0 {
            app
        } else {
            app.with_status(
                "trying source "@ + (match self.playback_queue[self.playback_attempt as int].label {
                    Some(l) => l,
                    None => "next source"@,
                }) + "…"@,
                StatusLevel::Info,
            )
        }
    }

    /// The next candidate of the queue is tried; without one the failure is shown.
    pub open spec fn advanced(self, app: AppModel) -> (SessionModel, AppModel, Seq<CommandModel>) {
        match self.playing {
            None => (self, app, Seq::empty()),
            Some((anime, episode)) => if self.playback_attempt < self.playback_queue.len() {
                (
                    SessionModel {
                        playback_attempt: (self.playback_attempt + 1) as usize,
                        ..self
                    },
                    self.trying(app),
                    seq![
                        CommandModel::Begin {
                            anime,
                            episode,
                            source: self.playback_queue[self.playback_attempt as int],
                        },
                    ],
                )
            } else {
                (
                    SessionModel { playing: None, ..self },
                    AppModel { loading: false, ..app }.left_player().with_status(
                        "all sources failed to load"@,
                        StatusLevel::Error,
                    ),
                    Seq::empty(),
                )
            },
        }
    }

    /// A queue of candidates is set up for an episode, and the first one is tried.
    pub open spec fn queue_started(
        self,
        app: AppModel,
        anime: Seq<char>,
        episode: Seq<char>,
        queue: Seq<PreparedModel>,
    ) -> (SessionModel, AppModel, Seq<CommandModel>) {
        SessionModel {
            playing: Some((anime, episode)),
            playback_queue: queue,
            playback_attempt: 0,
            ..self
        }.advanced(app)
    }

    /// Where playback starts when `saved` is the saved position.
    pub open spec fn start_at(self, saved: Seconds) -> Seconds {
        if self.from_start {
            Seconds { bits: 0 }
        } else {
            saved
        }
    }

    /// What begins to play a source.
    pub open spec fn beginning(
        self,
        settings: Settings,
        anime: Seq<char>,
        episode: Seq<char>,
        source: PreparedModel,
        start: Seconds,
    ) -> Seq<CommandModel> {
        let stop = if self.player {
            seq![CommandModel::StopPlayer]
        } else {
            Seq::empty()
        };
        stop.push(
            match settings.backend {
                Backend::EmbeddedKitty => CommandModel::StartEmbedded {
                    source,
                    start,
                    tuning: settings.tuning,
                    again: false,
                },
                Backend::ExternalMpv => CommandModel::RunExternal {
                    anime,
                    episode,
                    source,
                    start,
                    tuning: window_tuning(),
                },
            },
        )
    }

    /// Playing a source begins at the saved position. Two players never run at once.
    pub open spec fn begun(
        self,
        app: AppModel,
        settings: Settings,
        anime: Seq<char>,
        episode: Seq<char>,
        source: PreparedModel,
        saved: Seconds,
    ) -> (SessionModel, AppModel, Seq<CommandModel>) {
        let start = self.start_at(saved);
        let waiting = AppModel { loading: false, playback: Some(no_playback()), ..app };
        (
            SessionModel {
                player: false,
                playing: Some((anime, episode)),
                current_source: Some(source),
                last_saved_pos: start,
                ..self
            },
            match settings.backend {
                Backend::EmbeddedKitty => waiting,
                Backend::ExternalMpv => waiting.with_status(
                    "playing (external mpv)"@,
                    StatusLevel::Info,
                ),
            },
            self.beginning(settings, anime, episode, source, start),
        )
    }

    /// The embedded player started, or failed to: then the next candidate is tried.
    pub open spec fn started(self, app: AppModel, fault: Option<Fault>) -> (
        SessionModel,
        AppModel,
        Seq<CommandModel>,
    ) {
        match fault {
            None => (
                SessionModel { player: true, ..self },
                app.with_status("playing (embedded)"@, StatusLevel::Info),
                Seq::empty(),
            ),
            Some(f) => self.advanced(
                AppModel { playback: None, ..app }.with_status(
                    "player error: "@ + errors::sentence(f),
                    StatusLevel::Error,
                ),
            ),
        }
    }

    /// Embedded playback is started again after a resize, where it is.
    pub open spec fn resized(self, app: AppModel, settings: Settings) -> (
        SessionModel,
        Seq<CommandModel>,
    ) {
        match self.current_source {
            Some(source) if self.player && self.playing is Some => (
                SessionModel { player: false, ..self },
                seq![
                    CommandModel::StopPlayer,
                    CommandModel::Write(DELETE_ALL_IMAGES@),
                    CommandModel::StartEmbedded {
                        source,
                        start: app.position(),
                        tuning: settings.tuning,
                        again: true,
                    },
                ],
            ),
            _ => (self, Seq::empty()),
        }
    }

    /// The embedded player started again, or failed to: then playback ends.
    pub open spec fn restarted(self, app: AppModel, fault: Option<Fault>) -> (
        SessionModel,
        AppModel,
        Seq<CommandModel>,
    ) {
        match fault {
            None => (SessionModel { player: true, ..self }, app, Seq::empty()),
            Some(f) => self.ended(app, "resize restart failed: "@ + errors::sentence(f)),
        }
    }

    /// The sources of an episode came in.
    pub open spec fn resolved(
        self,
        app: AppModel,
        settings: Settings,
        anime: Seq<char>,
        episode: Seq<char>,
        result: std::result::Result<Seq<PreparedModel>, Fault>,
        choose: bool,
    ) -> (SessionModel, AppModel, Seq<CommandModel>) {
        match result {
            Ok(list) => if list.len() == 0 {
                (
                    self,
                    app.failed(Fault::Resolve("no sources returned"@)).left_player(),
                    Seq::empty(),
                )
            } else if choose && list.len() > 1 {
                (
                    SessionModel {
                        pending_sources: list,
                        playing: Some((anime, episode)),
                        ..self
                    },
                    AppModel { loading: false, ..app }.with_sources(sources::picker_labels(list)),
                    Seq::empty(),
                )
            } else {
                SessionModel { pending_sources: list, ..self }.queue_started(
                    AppModel { view: View::Player, ..app },
                    anime,
                    episode,
                    sources::chosen_first(list, sources::default_index(list, settings.default_source@)),
                )
            },
            Err(f) => (self, app.failed(f).left_player(), Seq::empty()),
        }
    }

    /// A source of the picker is confirmed: it is played first, then the rest.
    pub open spec fn source_selected(self, app: AppModel, i: usize) -> (
        AppModel,
        Seq<CommandModel>,
    ) {
        match self.playing {
            Some((anime, episode)) if i < self.pending_sources.len() => (
                AppModel { view: View::Player, loading: true, ..app },
                seq![
                    CommandModel::PlayQueue {
                        anime,
                        episode,
                        queue: sources::chosen_first(self.pending_sources, i as int),
                    },
                ],
            ),
            _ => (app, Seq::empty()),
        }
    }

    /// The external player ended before any real progress, with a failure, while its
    /// episode is the current one and more candidates are left.
    pub open spec fn falls_back(
        self,
        app: AppModel,
        anime: Seq<char>,
        episode: Seq<char>,
        fault: Option<Fault>,
    ) -> bool {
        &&& fault is Some
        &&& app.position().below(seconds::TWO)
        &&& self.playing == Some((anime, episode))
        &&& self.playback_attempt < self.playback_queue.len()
    }

    /// What saves the last known position when the external player ended.
    pub open spec fn closing(app: AppModel, anime: Seq<char>, episode: Seq<char>) -> Seq<
        CommandModel,
    > {
        match app.playback {
            Some(pb) if pb.position.above(seconds::ONE) => seq![
                CommandModel::SaveProgress {
                    anime,
                    episode,
                    position: pb.position,
                    duration: pb.duration,
                },
            ],
            _ => Seq::empty(),
        }
    }

    /// The external player ended. An early failure (mpv errored before any real
    /// progress) with more candidates left falls back to the next source.
    pub open spec fn external_ended(
        self,
        app: AppModel,
        anime: Seq<char>,
        episode: Seq<char>,
        fault: Option<Fault>,
    ) -> (SessionModel, AppModel, Seq<CommandModel>) {
        let first = SessionModel::closing(app, anime, episode) + reloading(app);
        let idle = AppModel { playback: None, ..app };
        if self.falls_back(app, anime, episode, fault) {
            let (s, a, more) = self.advanced(idle);
            (s, a, first + more)
        } else {
            (
                SessionModel {
                    playing: if self.playing == Some((anime, episode)) {
                        None
                    } else {
                        self.playing
                    },
                    ..self
                },
                AppModel { loading: false, ..idle }.left_player().with_status(
                    match fault {
                        None => "playback finished"@,
                        Some(f) => "playback error: "@ + errors::sentence(f),
                    },
                    if fault is Some {
                        StatusLevel::Error
                    } else {
                        StatusLevel::Info
                    },
                ),
                first,
            )
        }
    }

    /// The resume markers after a sample: a position past the first second is put in
    /// for the episode that plays, when the details of its anime are loaded.
    pub open spec fn marked(self, app: AppModel, u: ProgressUpdate) -> Map<Seq<char>, Seconds> {
        match self.playing {
            Some((anime, episode)) if u.position.above(seconds::ONE) && (app.details matches Some(
                d,
            ) && d.id@ == anime) => app.resume_positions.insert(episode, u.position),
            _ => app.resume_positions,
        }
    }

    /// A progress sample came in; `save_due` says whether the position has moved far
    /// enough from the one last saved.
    pub open spec fn progressed(self, app: AppModel, u: ProgressUpdate, save_due: bool) -> (
        SessionModel,
        AppModel,
        Seq<CommandModel>,
    ) {
        let save = save_due && self.playing is Some;
        (
            SessionModel {
                last_saved_pos: if save {
                    u.position
                } else {
                    self.last_saved_pos
                },
                ..self
            },
            AppModel {
                playback: Some(
                    PlaybackState {
                        position: u.position,
                        duration: u.duration,
                        paused: u.paused,
                        fps: u.fps,
                    },
                ),
                resume_positions: self.marked(app, u),
                ..app
            },
            match self.playing {
                Some((anime, episode)) if save_due => seq![
                    CommandModel::SaveProgress {
                        anime,
                        episode,
                        position: u.position,
                        duration: u.duration,
                    },
                ],
                _ => Seq::empty(),
            },
        )
    }

    /// The stream is handed off to a standalone window, resuming where it is; the
    /// episode list comes back.
    pub open spec fn handed_off(self, app: AppModel) -> (
        SessionModel,
        AppModel,
        Seq<CommandModel>,
    ) {
        match (self.current_source, self.playing) {
            (Some(source), Some((anime, episode))) => (
                SessionModel { player: false, needs_clear: true, ..self },
                AppModel {
                    playback: None,
                    fullscreen: false,
                    seek_input: None,
                    view: View::Episodes,
                    ..app
                }.with_status(
                    "playing in external mpv window (best quality)"@,
                    StatusLevel::Info,
                ),
                self.saving(app) + (if self.player {
                    seq![CommandModel::StopPlayer]
                } else {
                    Seq::empty()
                }) + seq![
                    CommandModel::RunExternal {
                        anime,
                        episode,
                        source,
                        start: app.position(),
                        tuning: window_tuning(),
                    },
                ],
            ),
            _ => (self, app, Seq::empty()),
        }
    }
}

/// A copy of an optional pair of ids.
fn copy_ids(p: &Option<(AnimeId, EpisodeId)>) -> (r: Option<(AnimeId, EpisodeId)>)
    ensures
        id_pair(r) == id_pair(*p),
{
    match p {
        Some((a, e)) => Some((a.clone(), e.clone())),
        None => None,
    }
}

/// What reads the resume-position markers shown in the episode list for the
/// currently loaded anime again, so progress appears immediately after playback
/// without needing to re-open the details page.
fn reload_resume_positions(app: &App) -> (r: Vec<Command>)
    ensures
        run::commands(r@) == reloading(app@),
{
    match &app.details {
        Some(d) => run::just(Command::ReloadResume(d.id.clone())),
        None => run::nothing(),
    }
}

impl Session {
    /// Nothing is playing.
    pub fn new() -> (r: Session)
        ensures
            r@ == SessionModel::initial(),
    {
        let r = Session {
            player: false,
            playing: None,
            current_source: None,
            last_saved_pos: Seconds::zero(),
            pending_sources: Vec::new(),
            playback_queue: Vec::new(),
            playback_attempt: 0,
            from_start: false,
            needs_clear: false,
        };
        assert(r@ =~= SessionModel::initial());
        r
    }

    /// What saves the position of what is playing.
    pub fn save_current_progress(&self, app: &App) -> (r: Vec<Command>)
        ensures
            run::commands(r@) == self@.saving(app@),
    {
        match (&self.playing, app.playback) {
            (Some((anime, episode)), Some(pb)) => run::just(
                Command::SaveProgress {
                    anime: anime.clone(),
                    episode: episode.clone(),
                    position: pb.position,
                    duration: pb.duration,
                },
            ),
            _ => run::nothing(),
        }
    }

    /// Stop playback, save the final position, refresh the episode-list resume
    /// markers, and return to the episode list (wiping any embedded video).
    pub fn end_playback(&mut self, app: &mut App, status: &str) -> (r: Vec<Command>)
        ensures
            (final(self)@, final(app)@, run::commands(r@)) == old(self)@.ended(
                old(app)@,
                status@,
            ),
    {
        let mut out = self.save_current_progress(app);
        run::emit_all(&mut out, reload_resume_positions(app));
        if self.player {
            run::emit(&mut out, Command::StopPlayer);
        } else {
            // External window backend has no in-process handle; ask it to quit
            // over its IPC socket (no-op if nothing is playing there).
            run::emit(&mut out, Command::QuitExternal);
        }
        self.player = false;
        self.playing = None;
        self.current_source = None;
        self.needs_clear = true;
        app.playback = None;
        app.fullscreen = false;
        app.seek_input = None;
        app.leave_player();
        app.set_status(status);
        assert(run::commands(out@) =~= old(self)@.ended(old(app)@, status@).2);
        out
    }

    /// Try the next candidate in `playback_queue`. For the embedded backend a start
    /// failure is reported to [`Session::on_player_started`], for the external backend
    /// as `Msg::ExternalEnded`; both call back here. When the queue is exhausted, surface
    /// the failure.
    pub fn advance_playback(&mut self, app: &mut App) -> (r: Vec<Command>)
        ensures
            (final(self)@, final(app)@, run::commands(r@)) == old(self)@.advanced(old(app)@),
    {
        let (anime, episode) = match copy_ids(&self.playing) {
            Some(ids) => ids,
            None => return run::nothing(),
        };
        let idx: usize = self.playback_attempt;
        if idx >= self.playback_queue.len() {
            app.loading = false;
            app.leave_player();
            app.set_error("all sources failed to load");
            self.playing = None;
            return run::nothing();
        }
        let source = self.playback_queue[idx].clone();
        self.playback_attempt = idx + 1;
        if idx > 0 {
            // A previous candidate failed — tell the user what we're trying now.
            let host = match &source.label {
                Some(l) => l.clone(),
                None => "next source".to_string(),
            };
            let mut m = text::cat("trying source ", host.as_str());
            m.append("…");
            app.set_status(m.as_str());
        }
        run::just(Command::Begin { anime, episode, source })
    }

    /// Set up an ordered fallback queue for an episode and start the first source.
    pub fn start_playback_queue(
        &mut self,
        app: &mut App,
        anime: AnimeId,
        episode: EpisodeId,
        queue: Vec<PreparedSource>,
    ) -> (r: Vec<Command>)
        ensures
            (final(self)@, final(app)@, run::commands(r@)) == old(self)@.queue_started(
                old(app)@,
                anime@,
                episode@,
                sources::prepared_models(queue@),
            ),
    {
        self.playing = Some((anime, episode));
        self.playback_queue = queue;
        self.playback_attempt = 0;
        self.advance_playback(app)
    }

    /// Start playing one source; `saved` is the saved position of the episode.
    pub fn begin_playback(
        &mut self,
        app: &mut App,
        settings: &Settings,
        anime: AnimeId,
        episode: EpisodeId,
        source: PreparedSource,
        saved: Seconds,
    ) -> (r: Vec<Command>)
        ensures
            (final(self)@, final(app)@, run::commands(r@)) == old(self)@.begun(
                old(app)@,
                *settings,
                anime@,
                episode@,
                source@,
                saved,
            ),
    {
        let mut out = run::nothing();
        // Never run two players at once.
        if self.player {
            run::emit(&mut out, Command::StopPlayer);
        }
        self.player = false;
        let start = if self.from_start {
            Seconds::zero()
        } else {
            saved
        };
        app.loading = false;
        app.playback = Some(PlaybackState::idle());
        self.playing = Some((anime.clone(), episode.clone()));
        self.current_source = Some(source.clone());
        self.last_saved_pos = start;
        match settings.backend {
            Backend::EmbeddedKitty => {
                run::emit(
                    &mut out,
                    Command::StartEmbedded {
                        source,
                        start,
                        tuning: settings.tuning,
                        again: false,
                    },
                );
            },
            Backend::ExternalMpv => {
                // Hand mpv the pre-resolved direct stream so it skips its own
                // yt-dlp pass (the ~1-2 s launch delay); a generous buffer
                // keeps HD smooth.
                run::emit(
                    &mut out,
                    Command::RunExternal {
                        anime,
                        episode,
                        source,
                        start,
                        tuning: MpvTuning::high_quality(),
                    },
                );
                app.set_status("playing (external mpv)");
            },
        }
        assert(run::commands(out@) =~= old(self)@.beginning(
            *settings,
            anime@,
            episode@,
            source@,
            start,
        ));
        out
    }

    /// Takes in whether the embedded player started; if not, the next candidate is
    /// tried.
    pub fn on_player_started(&mut self, app: &mut App, result: Result<()>) -> (r: Vec<Command>)
        ensures
            (final(self)@, final(app)@, run::commands(r@)) == old(self)@.started(
                old(app)@,
                fault_of(result),
            ),
    {
        match result {
            Ok(_) => {
                self.player = true;
                app.set_status("playing (embedded)");
                run::nothing()
            },
            Err(e) => {
                app.playback = None;
                app.set_error(text::cat("player error: ", e.message().as_str()).as_str());
                self.advance_playback(app)
            },
        }
    }

    /// On resize, respawn embedded mpv aligned to the new rectangle, resuming at
    /// the current position. External mpv manages its own window.
    pub fn on_resize(&mut self, app: &App, settings: &Settings) -> (r: Vec<Command>)
        ensures
            (final(self)@, run::commands(r@)) == old(self)@.resized(app@, *settings),
    {
        if !self.player || self.playing.is_none() {
            return run::nothing();
        }
        let source = match &self.current_source {
            Some(s) => s.clone(),
            None => return run::nothing(),
        };
        self.player = false;
        let mut out = run::just(Command::StopPlayer);
        // Wipe old placements before the new instance paints.
        run::emit(&mut out, Command::Write(DELETE_ALL_IMAGES.to_string()));
        run::emit(
            &mut out,
            Command::StartEmbedded {
                source,
                start: app.current_position(),
                tuning: settings.tuning,
                again: true,
            },
        );
        assert(run::commands(out@) =~= old(self)@.resized(app@, *settings).1);
        out
    }

    /// Takes in whether the embedded player started again after a resize.
    pub fn on_player_restarted(&mut self, app: &mut App, result: Result<()>) -> (r: Vec<Command>)
        ensures
            (final(self)@, final(app)@, run::commands(r@)) == old(self)@.restarted(
                old(app)@,
                fault_of(result),
            ),
    {
        match result {
            Ok(_) => {
                self.player = true;
                run::nothing()
            },
            Err(e) => self.end_playback(
                app,
                text::cat("resize restart failed: ", e.message().as_str()).as_str(),
            ),
        }
    }

    /// Takes the sources of an episode in.
    pub fn on_resolved(
        &mut self,
        app: &mut App,
        settings: &Settings,
        anime: AnimeId,
        episode: EpisodeId,
        result: Result<Vec<PreparedSource>>,
        choose: bool,
    ) -> (r: Vec<Command>)
        ensures
            (final(self)@, final(app)@, run::commands(r@)) == old(self)@.resolved(
                old(app)@,
                *settings,
                anime@,
                episode@,
                outcome(result),
                choose,
            ),
    {
        let list = match result {
            Ok(list) => list,
            Err(e) => {
                app.fail(e);
                app.leave_player();
                return run::nothing();
            },
        };
        if list.is_empty() {
            app.fail(Error::Resolve("no sources returned".to_string()));
            app.leave_player();
            return run::nothing();
        }
        if choose && list.len() > 1 {
            // Explicit "choose source" with more than one option → show the picker.
            let labels = sources::list_labels(&list);
            self.pending_sources = list;
            // Store the intended (anime, episode) pair so SelectSource can use it.
            self.playing = Some((anime, episode));
            app.loading = false;
            app.set_sources(labels);
            return run::nothing();
        }
        // Default: play the preferred source directly, falling back through the
        // rest (reliability order) if it fails to start.

        let start: usize = sources::pick_default_index(&list, settings.default_source.as_str());
        let queue = sources::fallback_queue(&list, start);
        self.pending_sources = list;
        app.view = View::Player;
        self.start_playback_queue(app, anime, episode, queue)
    }

    /// Play the chosen source first, then fall back through the rest (already
    /// resolved) if it fails to start. This uses the (anime, episode) pair captured when
    /// the sources were resolved, not the selected row: with the season-fold tree that
    /// is a ROW index (headers included), which would map to the wrong episode.
    pub fn select_source(&self, app: &mut App, i: usize) -> (r: Vec<Command>)
        ensures
            (final(app)@, run::commands(r@)) == self@.source_selected(old(app)@, i),
    {
        if i >= self.pending_sources.len() {
            return run::nothing();
        }
        match copy_ids(&self.playing) {
            Some((anime, episode)) => {
                let queue = sources::fallback_queue(&self.pending_sources, i);
                app.view = View::Player;
                app.loading = true;
                run::just(Command::PlayQueue { anime, episode, queue })
            },
            None => run::nothing(),
        }
    }

    /// Whether an episode is the one that plays.
    fn is_current(&self, anime: &AnimeId, episode: &EpisodeId) -> (r: bool)
        ensures
            r == (self@.playing == Some((anime@, episode@))),
    {
        match &self.playing {
            Some((a, e)) => text::str_same(a.0.as_str(), anime.0.as_str()) && text::str_same(
                e.0.as_str(),
                episode.0.as_str(),
            ),
            None => false,
        }
    }

    /// Takes the end of the external player in.
    pub fn on_external_ended(
        &mut self,
        app: &mut App,
        anime: AnimeId,
        episode: EpisodeId,
        result: Result<()>,
    ) -> (r: Vec<Command>)
        ensures
            (final(self)@, final(app)@, run::commands(r@)) == old(self)@.external_ended(
                old(app)@,
                anime@,
                episode@,
                fault_of(result),
            ),
    {
        let pos = app.current_position();
        let still_current = self.is_current(&anime, &episode);
        let ghost ids = (anime@, episode@);
        let mut out = run::nothing();
        // Persist the final observed position so resume works, including
        // after an early quit. The throttled saves during playback may lag
        // by a few seconds, so save the last known position here too.
        if let Some(pb) = app.playback {
            if pb.position.above_one() {
                run::emit(
                    &mut out,
                    Command::SaveProgress {
                        anime,
                        episode,
                        position: pb.position,
                        duration: pb.duration,
                    },
                );
            }
        }
        // Refresh the resume markers so progress shows immediately on
        // return, not only after re-opening the details page.

        run::emit_all(&mut out, reload_resume_positions(app));
        assert(run::commands(out@) =~= SessionModel::closing(app@, ids.0, ids.1) + reloading(
            app@,
        ));
        app.playback = None;
        // Early failure (mpv errored before any real progress) with more
        // candidates left → fall back to the next source rather than giving up.
        let early = result.is_err() && pos.below_two();
        if early && still_current && self.playback_attempt < self.playback_queue.len() {
            run::emit_all(&mut out, self.advance_playback(app));
            return out;
        }
        app.loading = false;
        app.leave_player();
        match result {
            Ok(_) => app.set_status("playback finished"),
            Err(e) => app.set_error(text::cat("playback error: ", e.message().as_str()).as_str()),
        }
        if still_current {
            self.playing = None;
        }
        out
    }

    /// Takes a progress sample in; `save_due` says whether the position has moved at
    /// least the save interval away from the one last saved.
    pub fn on_progress(&mut self, app: &mut App, update: ProgressUpdate, save_due: bool) -> (r:
        Vec<Command>)
        ensures
            (final(self)@, final(app)@, run::commands(r@)) == old(self)@.progressed(
                old(app)@,
                update,
                save_due,
            ),
    {
        app.playback = Some(
            PlaybackState {
                position: update.position,
                duration: update.duration,
                paused: update.paused,
                fps: update.fps,
            },
        );
        let (anime, episode) = match copy_ids(&self.playing) {
            Some(ids) => ids,
            None => return run::nothing(),
        };
        // Keep the in-memory resume marker live so the episode list shows the
        // current position immediately (independent of the DB save throttle and
        // of which stop path is taken). Only touch the map for the displayed anime.
        let displayed = match &app.details {
            Some(d) => text::str_same(d.id.0.as_str(), anime.0.as_str()),
            None => false,
        };
        if update.position.above_one() && displayed {
            app.resume_positions.insert(episode.0.clone(), update.position);
        }
        // Throttled, atomic DB persist.

        if save_due {
            self.last_saved_pos = update.position;
            run::just(
                Command::SaveProgress {
                    anime,
                    episode,
                    position: update.position,
                    duration: update.duration,
                },
            )
        } else {
            run::nothing()
        }
    }

    /// Hand the current stream off to a standalone mpv window. Embedded Kitty
    /// output makes the terminal cache every RGBA frame (multi-GB RSS); a normal
    /// mpv window renders to a GPU surface with no such cache. Resumes at the
    /// current position and returns the TUI to the episode list.
    pub fn open_external(&mut self, app: &mut App) -> (r: Vec<Command>)
        ensures
            (final(self)@, final(app)@, run::commands(r@)) == old(self)@.handed_off(old(app)@),
    {
        let (anime, episode) = match copy_ids(&self.playing) {
            Some(ids) => ids,
            None => return run::nothing(),
        };
        let source = match &self.current_source {
            Some(s) => s.clone(),
            None => return run::nothing(),
        };
        let start = app.current_position();
        // Stop embedded playback and wipe its Kitty output.
        let mut out = self.save_current_progress(app);
        if self.player {
            run::emit(&mut out, Command::StopPlayer);
        }
        self.player = false;
        self.needs_clear = true;
        app.playback = None;
        app.fullscreen = false;
        app.seek_input = None;
        app.view = View::Episodes;
        app.set_status("playing in external mpv window (best quality)");
        // Pre-resolved direct stream → mpv skips its yt-dlp pass and opens fast.
        run::emit(
            &mut out,
            Command::RunExternal {
                anime,
                episode,
                source,
                start,
                tuning: MpvTuning::high_quality(),
            },
        );
        assert(run::commands(out@) =~= old(self)@.handed_off(old(app)@).2);
        out
    }
}

} // verus!
