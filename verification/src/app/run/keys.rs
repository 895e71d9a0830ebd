//! Keys and scrolling: what a key does on each screen, and what follows the selection.

use crate::app::run;
use crate::app::run::session;
use crate::app::run::warm;
use crate::app::run::{Command, CommandModel, Runner, RunnerModel};
use crate::app::sources;
use crate::app::{AppModel, Effect, EffectModel, View};
use crate::app;
use crate::input;
use crate::input::{KeyCode, KeyModifiers};
use crate::models::{AnimeId, EpisodeId};
use crate::player::embedded::Control;
use crate::text;
use crate::ui;
use vstd::prelude::*;
use vstd::view::View as _;

verus! {

/// How long the TUI chrome is left alone during embedded playback, in milliseconds.
pub const DRAW_MS: u64 = 900;

/// Something that happened at the terminal.
#[derive(Debug, Clone, Copy, PartialEq, Eq)]
pub enum Event {
    /// A key went down.
    Press(KeyCode, KeyModifiers),
    Resize,
    /// Anything else.
    Other,
}

/// The lists that show thumbnails and scroll by rows.
pub open spec fn thumbnailed(v: View) -> bool {
    v == View::Home || v == View::Search || v == View::Favourites || v == View::History
}

/// The episode next to another one in a list of `len`, staying inside the list.
pub open spec fn neighbour(current: int, forward: bool, len: int) -> int {
    let next = if forward {
        current + 1
    } else {
        current - 1
    };
    if next < 0 {
        0
    } else if next >= len {
        len - 1
    } else {
        next
    }
}

impl RunnerModel {
    /// What controls the player.
    pub open spec fn controlling(self, control: Control, amount: int) -> Seq<CommandModel> {
        seq![
            CommandModel::Control {
                embedded: self.session.player,
                control,
                amount: amount as i128,
            },
        ]
    }

    /// The episode that counts as current: the one that plays, or else the selected one,
    /// or else the first.
    pub open spec fn current_episode(self) -> int {
        let fallback = match self.app.episode() {
            Some(i) => i as int,
            None => 0,
        };
        match (self.app.details, self.session.playing) {
            (Some(d), Some((_, e))) => match warm::episode_with(d.episodes@, e, 0) {
                Some(i) => i,
                None => fallback,
            },
            _ => fallback,
        }
    }

    /// The next or the previous episode is played instead.
    pub open spec fn switched(self, forward: bool) -> (RunnerModel, Seq<CommandModel>) {
        match self.app.details {
            Some(d) if d.episodes@.len() > 0 => {
                let next = neighbour(self.current_episode(), forward, d.episodes@.len() as int);
                let (session, app, ending) = self.session.ended(
                    self.app.with_episode(next as usize),
                    "switching episode"@,
                );
                let (after, asked) = RunnerModel {
                    session,
                    app: app.waiting_in_player(),
                    ..self
                }.dispatched(EffectModel::Play(d.id@, d.episodes@[next].id@));
                (after, ending + asked)
            },
            _ => (self, Seq::empty()),
        }
    }

    /// The video fills the terminal, or gives room to the chrome again.
    pub open spec fn fullscreen_toggled(self, now: u64) -> (RunnerModel, Seq<CommandModel>) {
        let app = AppModel { fullscreen: !self.app.fullscreen, ..self.app };
        let (session, asked) = self.session.resized(app, self.settings);
        (
            RunnerModel {
                app,
                session,
                last_tui_draw: if now >= 2000 {
                    (now - 2000) as u64
                } else {
                    now
                },
                ..self
            },
            asked,
        )
    }

    /// A key while a time to seek to is typed.
    pub open spec fn seek_key(self, code: KeyCode) -> (RunnerModel, Seq<CommandModel>) {
        match (code, self.app.seek_input) {
            (KeyCode::Esc, _) => (
                self.with_app(AppModel { seek_input: None, ..self.app }),
                Seq::empty(),
            ),
            (KeyCode::Enter, Some(input)) => (
                self.with_app(AppModel { seek_input: None, ..self.app }),
                match sources::typed_time(input) {
                    Some((hours, minutes, seconds)) => seq![
                        CommandModel::SeekTo {
                            embedded: self.session.player,
                            hours: hours as u64,
                            minutes: minutes as u64,
                            seconds,
                        },
                    ],
                    None => Seq::empty(),
                },
            ),
            (KeyCode::Char(c), Some(input)) if ('0' <= c <= '9') || c == ':' => (
                self.with_app(AppModel { seek_input: Some(input.push(c)), ..self.app }),
                Seq::empty(),
            ),
            (KeyCode::Backspace, Some(input)) => (
                self.with_app(
                    AppModel { seek_input: Some(app::without_last(input)), ..self.app },
                ),
                Seq::empty(),
            ),
            _ => (self, Seq::empty()),
        }
    }

    /// A key on the player screen.
    pub open spec fn player_key(self, code: KeyCode, now: u64) -> (RunnerModel, Seq<CommandModel>) {
        if self.app.seek_input is Some {
            self.seek_key(code)
        } else {
            match code {
                KeyCode::Char('q') | KeyCode::Esc => self.stepped(
                    self.session.ended(self.app, "stopped"@),
                ),
                KeyCode::Char('n') => self.switched(true),
                KeyCode::Char('p') => self.switched(false),
                KeyCode::Char('f') => self.fullscreen_toggled(now),
                KeyCode::Char('g') => (
                    self.with_app(AppModel { seek_input: Some(Seq::empty()), ..self.app }),
                    Seq::empty(),
                ),
                KeyCode::Char('o') => self.stepped(self.session.handed_off(self.app)),
                KeyCode::Char('i') => (
                    self,
                    self.controlling(
                        Control::SeekRelative,
                        self.settings.skip_intro_secs as int,
                    ),
                ),
                KeyCode::Char(' ') => (self, self.controlling(Control::TogglePause, 0)),
                KeyCode::Left | KeyCode::Char('h') => (
                    self,
                    self.controlling(Control::SeekRelative, -10),
                ),
                KeyCode::Right | KeyCode::Char('l') => (
                    self,
                    self.controlling(Control::SeekRelative, 10),
                ),
                KeyCode::Char(',') => (self, self.controlling(Control::SeekRelative, -5)),
                KeyCode::Char('.') => (self, self.controlling(Control::SeekRelative, 5)),
                KeyCode::Up | KeyCode::Char('+') | KeyCode::Char('=') => (
                    self,
                    self.controlling(Control::AddVolume, 5),
                ),
                KeyCode::Down | KeyCode::Char('-') => (
                    self,
                    self.controlling(Control::AddVolume, -5),
                ),
                KeyCode::Char('m') => (self, self.controlling(Control::ToggleMute, 0)),
                KeyCode::Char('s') => (self, self.controlling(Control::CycleSubtitle, 0)),
                KeyCode::Char('a') => (self, self.controlling(Control::CycleAudio, 0)),
                _ => (self, Seq::empty()),
            }
        }
    }

    /// A key while the quick-filter is typed.
    pub open spec fn filter_key(self, code: KeyCode) -> RunnerModel {
        let left = |a: AppModel| AppModel { filtering: false, input_mode: false, ..a };
        match code {
            KeyCode::Char(c) => self.with_app(
                AppModel { filter: self.app.filter.push(c), ..self.app }.recomputed(),
            ),
            KeyCode::Backspace => self.with_app(
                AppModel {
                    filter: app::without_last(self.app.filter),
                    ..self.app
                }.recomputed(),
            ),
            KeyCode::Enter => self.with_app(left(self.app)),
            KeyCode::Esc => self.with_app(
                left(AppModel { filter: Seq::empty(), ..self.app }.recomputed()),
            ),
            _ => self,
        }
    }

    /// A key while a search is typed.
    pub open spec fn search_key(self, code: KeyCode) -> (RunnerModel, Seq<CommandModel>) {
        if self.app.filtering {
            (self.filter_key(code), Seq::empty())
        } else {
            match code {
                KeyCode::Char(c) => (
                    self.with_app(
                        AppModel { search_input: self.app.search_input.push(c), ..self.app },
                    ),
                    Seq::empty(),
                ),
                KeyCode::Backspace => (
                    self.with_app(
                        AppModel {
                            search_input: app::without_last(self.app.search_input),
                            ..self.app
                        },
                    ),
                    Seq::empty(),
                ),
                KeyCode::Esc => (
                    self.with_app(AppModel { input_mode: false, ..self.app }),
                    Seq::empty(),
                ),
                KeyCode::Enter => {
                    let query = text::trim(self.app.search_input);
                    if query.len() == 0 {
                        (self.with_app(AppModel { input_mode: false, ..self.app }), Seq::empty())
                    } else {
                        self.with_app(
                            AppModel { input_mode: false, loading: true, ..self.app },
                        ).dispatched(EffectModel::Search(query))
                    }
                },
                _ => (self, Seq::empty()),
            }
        }
    }

    /// What an event at the terminal leads to.
    pub open spec fn happened(self, event: Event, now: u64) -> (RunnerModel, Seq<CommandModel>) {
        match event {
            Event::Press(code, mods) => if self.app.input_mode {
                self.search_key(code)
            } else if self.app.view == View::Player {
                self.player_key(code, now)
            } else {
                match input::bound(code, mods == KeyModifiers::CONTROL) {
                    Some(action) => {
                        let (app, effect) = self.app.acted(action);
                        self.with_app(app).dispatched(effect)
                    },
                    None => (self, Seq::empty()),
                }
            },
            Event::Resize => {
                let (session, asked) = self.session.resized(self.app, self.settings);
                (
                    RunnerModel {
                        session,
                        covers: crate::app::run::covers::CoversModel {
                            poster_dirty: true,
                            ..self.covers
                        },
                        ..self
                    },
                    asked,
                )
            },
            Event::Other => (self, Seq::empty()),
        }
    }

    /// The scroll offset follows the selection, in lists that scroll by rows.
    pub open spec fn scrolled(self, rows: u16) -> RunnerModel {
        if !thumbnailed(self.app.view) {
            self
        } else {
            self.with_app(
                AppModel {
                    list_offset: if self.app.results.len() == 0 {
                        0
                    } else {
                        sources::kept_in_view(
                            self.app.list_offset,
                            self.app.selected_result.unwrap_or(0),
                            ui::visible_rows(rows),
                            self.app.results.len() as usize,
                        ) as usize
                    },
                    ..self.app
                },
            )
        }
    }

    /// The next page of the catalogue is due: the selection is within one screen of the
    /// end of what is loaded, no filter narrows the list, and no page is on its way.
    pub open spec fn page_due(self, rows: u16) -> bool {
        &&& self.app.view == View::Home || self.app.view == View::Search
        &&& self.app.filter.len() == 0
        &&& !self.app.loading_more
        &&& self.app.page < self.app.total_pages
        &&& self.app.selected_result.unwrap_or(0) + ui::visible_rows(rows)
            >= self.app.results.len()
    }

    /// The next page of the catalogue is asked for, when it is due.
    pub open spec fn paged(self, rows: u16) -> (RunnerModel, Seq<CommandModel>) {
        if self.page_due(rows) {
            (
                self.with_app(AppModel { loading_more: true, ..self.app }),
                seq![
                    CommandModel::SearchPage {
                        query: self.app.query,
                        page: (self.app.page + 1) as u32,
                        sort: self.app.sort.query(),
                        more: true,
                    },
                ],
            )
        } else {
            (self, Seq::empty())
        }
    }
}

impl Runner {
    /// True when the current view is one of the scrollable browse lists.
    pub fn in_browse_view(&self) -> (r: bool)
        ensures
            r == thumbnailed(self@.app.view),
    {
        match self.app.view {
            View::Home | View::Search | View::Favourites | View::History => true,
            _ => false,
        }
    }

    /// Keep the selected browse row within the visible window by adjusting
    /// `list_offset` (only scrolls when the selection leaves the window). Must run
    /// before the draw so the list renders at this offset.
    pub fn update_list_offset(&mut self, rows: u16)
        ensures
            final(self)@ == old(self)@.scrolled(rows),
    {
        if !self.in_browse_view() {
            return;
        }
        let visible: usize = ui::count_visible_rows(rows);
        let len: usize = self.app.results.len();
        if len == 0 {
            self.app.list_offset = 0;
            return;
        }
        let sel: usize = match self.app.results_state.selected() {
            Some(i) => i,
            None => 0,
        };
        self.app.list_offset = sources::keep_in_view(self.app.list_offset, sel, visible, len);
    }

    /// Fetch the next catalogue page when the selection nears the bottom of the
    /// loaded results (infinite scroll). Catalogue only (Home/Search) — favourites
    /// and history are single local lists. Skipped while a quick-filter is
    /// active (the user is narrowing, not paging) or a page is already in flight.
    pub fn maybe_load_more(&mut self, rows: u16) -> (r: Vec<Command>)
        ensures
            (final(self)@, run::commands(r@)) == old(self)@.paged(rows),
    {
        if !(self.app.view == View::Home || self.app.view == View::Search) {
            return run::nothing();
        }
        if self.app.filter.as_str().unicode_len() > 0 || self.app.loading_more || self.app.page
            >= self.app.total_pages {
            return run::nothing();
        }
        let visible: usize = ui::count_visible_rows(rows);
        let len: usize = self.app.results.len();
        let sel: usize = match self.app.results_state.selected() {
            Some(i) => i,
            None => 0,
        };
        // Trigger within one screen of the end.
        if (sel as u128 + visible as u128) < len as u128 {
            return run::nothing();
        }
        self.app.loading_more = true;
        run::just(
            Command::SearchPage {
                query: self.app.query.clone(),
                page: self.app.page + 1,
                sort: self.app.sort.param(),
                more: true,
            },
        )
    }

    /// Whether the TUI is to be drawn at the time `now`. During embedded playback, mpv
    /// writes Kitty frames to the same stdout. Throttling chrome redraws to about once
    /// per second keeps them from competing with video frames and causing stutter.
    pub fn draw_due(&self, now: u64) -> (r: bool)
        ensures
            r == (!self@.session.player || now - self@.last_tui_draw >= DRAW_MS),
    {
        !self.session.player || (now >= self.last_tui_draw && now - self.last_tui_draw >= DRAW_MS)
    }

    /// The TUI was drawn at the time `now`.
    pub fn drawn(&mut self, now: u64)
        ensures
            final(self)@ == (RunnerModel { last_tui_draw: now, ..old(self)@ }),
    {
        self.last_tui_draw = now;
    }

    /// Control whichever backend is active (the embedded player, or the external
    /// window).
    fn control(&self, control: Control, amount: i128) -> (r: Vec<Command>)
        ensures
            run::commands(r@) == self@.controlling(control, amount as int),
    {
        run::just(Command::Control { embedded: self.session.player, control, amount })
    }

    /// The episode after or before the current one, with its anime and its position.
    fn neighbour_episode(&self, forward: bool) -> (r: Option<(AnimeId, EpisodeId, usize)>)
        ensures
            match (r, self@.app.details) {
                (Some((a, e, next)), Some(d)) => {
                    &&& d.episodes@.len() > 0
                    &&& next == neighbour(
                        self@.current_episode(),
                        forward,
                        d.episodes@.len() as int,
                    )
                    &&& a@ == d.id@
                    &&& e@ == d.episodes@[next as int].id@
                },
                (None, Some(d)) => d.episodes@.len() == 0,
                (None, None) => true,
                _ => false,
            },
    {
        // Determine the current episode index from what's playing (robust even if
        // a season header is the selected row); fall back to the selected episode.
        let fallback: usize = match self.app.selected_episode_index() {
            Some(i) => i,
            None => 0,
        };
        let d = match &self.app.details {
            Some(d) => d,
            None => return None,
        };
        let len: usize = d.episodes.len();
        if len == 0 {
            return None;
        }
        let playing = match &self.session.playing {
            Some((_, e)) => warm::position_of_episode(&d.episodes, e.0.as_str()),
            None => None,
        };
        let current: usize = match playing {
            Some(i) => i,
            None => fallback,
        };
        let next: usize = if forward {
            if current >= len - 1 {
                len - 1
            } else {
                current + 1
            }
        } else if current == 0 {
            0
        } else if current - 1 >= len {
            len - 1
        } else {
            current - 1
        };
        Some((d.id.clone(), d.episodes[next].id.clone(), next))
    }

    /// Play the next or the previous episode.
    pub fn change_episode(&mut self, forward: bool) -> (r: Vec<Command>)
        ensures
            (final(self)@, run::commands(r@)) == old(self)@.switched(forward),
    {
        let (anime, episode, next) = match self.neighbour_episode(forward) {
            Some(found) => found,
            None => return run::nothing(),
        };
        // Expand the target episode's season and move the cursor onto it, so the
        // episode list reflects what's now playing (and n/p keep working).
        self.app.select_episode(next);
        let mut out = self.session.end_playback(&mut self.app, "switching episode");
        let ghost ended = self.app@;
        self.app.view = View::Player;
        self.app.loading = true;
        assert(self.app@ =~= ended.waiting_in_player());
        run::emit_all(&mut out, self.dispatch(Effect::Play(anime, episode)));
        out
    }

    /// Let the video fill the terminal, or give room to the chrome again.
    pub fn toggle_fullscreen(&mut self, now: u64) -> (r: Vec<Command>)
        ensures
            (final(self)@, run::commands(r@)) == old(self)@.fullscreen_toggled(now),
    {
        self.app.fullscreen = !self.app.fullscreen;
        // Force an immediate chrome redraw before mpv respawns so the black
        // letterbox fill (or restored UI) is painted before the new kitty
        // frames arrive, not up to 900 ms later.
        self.last_tui_draw =
        if now >= 2000 {
            now - 2000
        } else {
            now
        };
        assert(self.app@ =~= AppModel { fullscreen: !old(self)@.app.fullscreen, ..old(self)@.app });
        self.session.on_resize(&self.app, &self.settings)
    }

    /// A key while a time to seek to is typed.
    fn on_seek_input_key(&mut self, code: KeyCode) -> (r: Vec<Command>)
        ensures
            (final(self)@, run::commands(r@)) == old(self)@.seek_key(code),
    {
        let input = match &self.app.seek_input {
            Some(s) => s.clone(),
            None => {
                return run::nothing();
            },
        };
        match code {
            KeyCode::Esc => {
                self.app.seek_input = None;
                run::nothing()
            },
            KeyCode::Enter => {
                self.app.seek_input = None;
                match sources::parse_time_input(input.as_str()) {
                    Some(time) => run::just(
                        Command::SeekTo { embedded: self.session.player, time },
                    ),
                    None => run::nothing(),
                }
            },
            KeyCode::Char(c) => {
                if ('0' <= c && c <= '9') || c == ':' {
                    let mut input = input;
                    input.push(c);
                    self.app.seek_input = Some(input);
                }
                run::nothing()
            },
            KeyCode::Backspace => {
                let mut input = input;
                let _ = input.pop();
                self.app.seek_input = Some(input);
                run::nothing()
            },
            _ => run::nothing(),
        }
    }

    /// Player-view controls go straight to mpv over IPC. All of them work for BOTH the
    /// embedded and external (window) backends.
    pub fn on_player_key(&mut self, code: KeyCode, now: u64) -> (r: Vec<Command>)
        ensures
            (final(self)@, run::commands(r@)) == old(self)@.player_key(code, now),
    {
        // Seek-to-time input mode intercepts all keys.
        if self.app.seek_input.is_some() {
            return self.on_seek_input_key(code);
        }
        match code {
            KeyCode::Char('q') | KeyCode::Esc => self.session.end_playback(
                &mut self.app,
                "stopped",
            ),
            KeyCode::Char('n') => self.change_episode(true),
            KeyCode::Char('p') => self.change_episode(false),
            KeyCode::Char('f') => self.toggle_fullscreen(now),
            KeyCode::Char('g') => {
                self.app.seek_input = Some(String::new());
                run::nothing()
            },
            // Hand off to a standalone mpv window (no terminal image cache → no
            // multi-GB RSS), resuming at the current position.
            KeyCode::Char('o') => self.session.open_external(&mut self.app),
            // Skip an opening.
            KeyCode::Char('i') => self.control(
                Control::SeekRelative,
                self.settings.skip_intro_secs as i128,
            ),
            KeyCode::Char(' ') => self.control(Control::TogglePause, 0),
            KeyCode::Left | KeyCode::Char('h') => self.control(Control::SeekRelative, -10),
            KeyCode::Right | KeyCode::Char('l') => self.control(Control::SeekRelative, 10),
            KeyCode::Char(',') => self.control(Control::SeekRelative, -5),
            KeyCode::Char('.') => self.control(Control::SeekRelative, 5),
            KeyCode::Up | KeyCode::Char('+') | KeyCode::Char('=') => self.control(
                Control::AddVolume,
                5,
            ),
            KeyCode::Down | KeyCode::Char('-') => self.control(Control::AddVolume, -5),
            KeyCode::Char('m') => self.control(Control::ToggleMute, 0),
            KeyCode::Char('s') => self.control(Control::CycleSubtitle, 0),
            KeyCode::Char('a') => self.control(Control::CycleAudio, 0),
            _ => run::nothing(),
        }
    }

    /// A key while the quick-filter is typed (client-side, live).
    fn on_filter_key(&mut self, code: KeyCode)
        ensures
            final(self)@ == old(self)@.filter_key(code),
    {
        match code {
            KeyCode::Char(c) => self.app.push_filter_char(c),
            KeyCode::Backspace => self.app.pop_filter_char(),
            KeyCode::Enter => {
                // Commit: keep the filter applied, leave capture.
                self.app.filtering = false;
                self.app.input_mode = false;
            },
            KeyCode::Esc => {
                // Cancel: clear the filter, leave capture.
                self.app.clear_filter();
                self.app.filtering = false;
                self.app.input_mode = false;
            },
            _ => {},
        }
    }

    /// A key while text is captured: for the quick-filter or for the search.
    pub fn on_search_key(&mut self, code: KeyCode) -> (r: Vec<Command>)
        ensures
            (final(self)@, run::commands(r@)) == old(self)@.search_key(code),
    {
        if self.app.filtering {
            self.on_filter_key(code);
            return run::nothing();
        }
        match code {
            KeyCode::Char(c) => {
                self.app.search_input.push(c);
                run::nothing()
            },
            KeyCode::Backspace => {
                let _ = self.app.search_input.pop();
                run::nothing()
            },
            KeyCode::Esc => {
                self.app.input_mode = false;
                run::nothing()
            },
            KeyCode::Enter => {
                self.app.input_mode = false;
                let query = text::str_trimmed(self.app.search_input.as_str());
                if query.as_str().unicode_len() > 0 {
                    self.app.loading = true;
                    self.dispatch(Effect::Search(query))
                } else {
                    run::nothing()
                }
            },
            _ => run::nothing(),
        }
    }

    /// Takes an event at the terminal in, at the time `now` in milliseconds.
    pub fn on_terminal_event(&mut self, event: Event, now: u64) -> (r: Vec<Command>)
        ensures
            (final(self)@, run::commands(r@)) == old(self)@.happened(event, now),
    {
        match event {
            Event::Press(code, mods) => {
                if self.app.input_mode {
                    self.on_search_key(code)
                } else if self.app.view == View::Player {
                    self.on_player_key(code, now)
                } else {
                    match input::default_binding(code, mods) {
                        Some(action) => {
                            let effect = self.app.on_action(action);
                            self.dispatch(effect)
                        },
                        None => run::nothing(),
                    }
                }
            },
            Event::Resize => {
                self.covers.poster_dirty = true;  // reposition the poster at the new size
                self.session.on_resize(&self.app, &self.settings)
            },
            Event::Other => run::nothing(),
        }
    }
}

} // verus!
