//! What holds of the event loop over several steps.

use crate::app::run::keys;
use crate::app::run::session::SessionModel;
use crate::app::run::warm;
use crate::app::run::{CommandModel, Local, Msg, RunnerModel, Settings};
use crate::app::sources;
use crate::app::sources::{PreparedModel, PreparedSource};
use crate::app::{AppModel, EffectModel, StatusLevel, View};
use crate::errors::Fault;
use crate::input::KeyCode;
use crate::models::{AnimeDetails, AnimeSummary, CatalogPage};
use crate::player::embedded::{Control, ProgressUpdate};
use crate::player::mpv;
use crate::seconds::Seconds;
use crate::text;
use crate::ui;
use vstd::prelude::*;
use vstd::view::View as _;

verus! {

/// A playback step: the session, the screen, and what is asked for.
pub type Step = (SessionModel, AppModel, Seq<CommandModel>);

/// The step after a step that began a candidate which then failed to start.
pub open spec fn after_failure(step: Step, settings: Settings, saved: Seconds, f: Fault) -> Step {
    match step.2.last() {
        CommandModel::Begin { anime, episode, source } => {
            let begun = step.0.begun(step.1, settings, anime, episode, source, saved);
            begun.0.started(begun.1, Some(f))
        },
        _ => step,
    }
}

/// The step after `n` candidates failed to start one after another.
pub open spec fn after_failures(
    step: Step,
    settings: Settings,
    saved: Seconds,
    f: Fault,
    n: nat,
) -> Step
    decreases n,
{
    if n == 0 {
        step
    } else {
        after_failure(
            after_failures(step, settings, saved, f, (n - 1) as nat),
            settings,
            saved,
            f,
        )
    }
}

/// Dead hosts yield to working ones: when candidates fail to start one after another,
/// every candidate of the queue is tried, each once and in order. When the last one has
/// failed too, nothing plays, the failure is shown, and the player screen is left.
pub proof fn law_every_candidate_is_tried(
    s: SessionModel,
    app: AppModel,
    settings: Settings,
    anime: Seq<char>,
    episode: Seq<char>,
    queue: Seq<PreparedModel>,
    saved: Seconds,
    f: Fault,
    n: nat,
)
    requires
        queue.len() <= usize::MAX,
        n <= queue.len(),
    ensures
        ({
            let first = s.queue_started(app, anime, episode, queue);
            let step = after_failures(first, settings, saved, f, n);
            if n < queue.len() {
                &&& step.2 == seq![CommandModel::Begin { anime, episode, source: queue[n as int] }]
                &&& step.0.playback_queue == queue
                &&& step.0.playback_attempt == n + 1
                &&& step.0.playing == Some((anime, episode))
            } else {
                &&& step.2.len() == 0
                &&& step.0.playing is None
                &&& step.1.view != View::Player
                &&& !step.1.loading
                &&& step.1.status == Some("all sources failed to load"@)
                &&& step.1.status_level == StatusLevel::Error
            }
        }),
    decreases n,
{
    let first = s.queue_started(app, anime, episode, queue);
    if n > 0 {
        law_every_candidate_is_tried(
            s,
            app,
            settings,
            anime,
            episode,
            queue,
            saved,
            f,
            (n - 1) as nat,
        );
        let before = after_failures(first, settings, saved, f, (n - 1) as nat);
        assert(before.2.last() == CommandModel::Begin {
            anime,
            episode,
            source: queue[n - 1],
        });
    }
}

/// Whether a command starts a player.
pub open spec fn starts(c: CommandModel) -> bool {
    c is StartEmbedded || c is RunExternal
}

/// Two players never run at once: a running embedded player is stopped before another
/// one is started, and only one is started.
pub proof fn law_one_player(
    s: SessionModel,
    app: AppModel,
    settings: Settings,
    anime: Seq<char>,
    episode: Seq<char>,
    source: PreparedModel,
    saved: Seconds,
)
    ensures
        ({
            let asked = s.begun(app, settings, anime, episode, source, saved).2;
            &&& starts(asked.last())
            &&& if s.player {
                asked.len() == 2 && asked[0] is StopPlayer
            } else {
                asked.len() == 1
            }
        }),
        ({
            let asked = s.resized(app, settings).1;
            asked.len() > 0 ==> s.player && asked[0] is StopPlayer && starts(asked.last())
                && !starts(asked[1]) && asked.len() == 3
        }),
        ({
            let asked = s.handed_off(app).2;
            asked.len() > 0 && s.player ==> asked[asked.len() - 2] is StopPlayer && starts(
                asked.last(),
            )
        }),
{
}

/// However playback ends, the last known position is saved first, nothing plays
/// afterwards, the player screen is left, and the screen is wiped.
pub proof fn law_end_of_playback(s: SessionModel, app: AppModel, status: Seq<char>)
    ensures
        ({
            let (after, screen, asked) = s.ended(app, status);
            &&& match (s.playing, app.playback) {
                (Some((anime, episode)), Some(pb)) => asked[0] == (CommandModel::SaveProgress {
                    anime,
                    episode,
                    position: pb.position,
                    duration: pb.duration,
                }),
                _ => true,
            }
            &&& after.playing is None
            &&& !after.player
            &&& after.needs_clear
            &&& screen.playback is None
            &&& screen.seek_input is None
            &&& !screen.fullscreen
            &&& screen.view != View::Player
            &&& screen.status == Some(status)
        }),
{
}

/// A failed resolve leaves the player screen and shows the error; nothing is asked for.
pub proof fn law_failed_resolve(
    s: SessionModel,
    app: AppModel,
    settings: Settings,
    anime: Seq<char>,
    episode: Seq<char>,
    f: Fault,
    choose: bool,
)
    ensures
        ({
            let (after, screen, asked) = s.resolved(
                app,
                settings,
                anime,
                episode,
                Err(f),
                choose,
            );
            &&& after == s
            &&& screen.view != View::Player
            &&& !screen.loading
            &&& screen.status_level == StatusLevel::Error
            &&& asked.len() == 0
        }),
{
}

/// Direct play starts with the preferred source and keeps every other one to fall back
/// on: the queue is a rearrangement of what was resolved.
pub proof fn law_direct_play(
    s: SessionModel,
    app: AppModel,
    settings: Settings,
    anime: Seq<char>,
    episode: Seq<char>,
    list: Seq<PreparedModel>,
)
    requires
        list.len() > 0,
    ensures
        ({
            let (after, screen, asked) = s.resolved(
                app,
                settings,
                anime,
                episode,
                Ok(list),
                false,
            );
            let at = sources::default_index(list, settings.default_source@);
            &&& 0 <= at < list.len()
            &&& asked == seq![CommandModel::Begin { anime, episode, source: list[at] }]
            &&& after.playback_queue.to_multiset() == list.to_multiset()
            &&& screen.view == View::Player
        }),
{
    let words = sources::words(
        text::split(settings.default_source@, |c: char| sources::word_end(c)),
    );
    sources::law_preferred(list, words);
    sources::law_chosen_first(list, sources::default_index(list, settings.default_source@));
}

/// A page is asked for at most once: while it is on its way, no other is asked for.
pub proof fn law_one_page_at_a_time(r: RunnerModel, rows: u16, later: u16)
    ensures
        r.page_due(rows) ==> r.paged(rows).1.len() == 1 && r.paged(rows).0.paged(later).1.len()
            == 0,
{
}

/// The selected row of a browse list is on screen once the scroll offset has followed.
pub proof fn law_selection_in_view(r: RunnerModel, rows: u16)
    requires
        keys::thumbnailed(r.app.view),
        r.app.results.len() <= usize::MAX,
        r.app.selected_result matches Some(i) && i < r.app.results.len(),
    ensures
        ({
            let offset = r.scrolled(rows).app.list_offset;
            let selected = r.app.selected_result->Some_0;
            offset <= selected < offset + ui::visible_rows(rows)
        }),
{
    sources::law_kept_in_view(
        r.app.list_offset,
        r.app.selected_result->Some_0,
        ui::visible_rows(rows),
        r.app.results.len() as usize,
    );
}

/// Switching to the next episode and back comes back to the same episode, unless the
/// end of the list was in the way.
pub proof fn law_neighbour(current: int, len: int)
    requires
        0 <= current < len,
    ensures
        0 <= keys::neighbour(current, true, len) < len,
        0 <= keys::neighbour(current, false, len) < len,
        current + 1 < len ==> keys::neighbour(
            keys::neighbour(current, true, len),
            false,
            len,
        ) == current,
        current > 0 ==> keys::neighbour(keys::neighbour(current, false, len), true, len)
            == current,
{
}

/// How an input.conf writes what a key of the player screen asks for.
pub open spec fn conf_words(asked: Seq<CommandModel>) -> Seq<char> {
    match asked[0] {
        CommandModel::Control { control, amount, .. } => match control {
            Control::TogglePause => "cycle pause"@,
            Control::SeekRelative => mpv::seek_words(amount as int),
            Control::AddVolume => mpv::volume_words(amount as int),
            Control::ToggleMute => "cycle mute"@,
            Control::CycleSubtitle => "cycle sub"@,
            Control::CycleAudio => "cycle aid"@,
            _ => Seq::empty(),
        },
        _ => Seq::empty(),
    }
}

impl RunnerModel {
    /// The line of an input.conf that gives a key of the window what the player screen
    /// gives it.
    pub open spec fn conf_line(self, name: Seq<char>, code: KeyCode) -> Seq<char> {
        mpv::binding(name, conf_words(self.player_key(code, 0).1))
    }
}

/// The external window responds to the same keys as the player screen: each line of the
/// generated input.conf up to the last three says what the key of that name does there.
#[verifier::spinoff_prover]
#[verifier::rlimit(40)]
pub proof fn law_window_keys(r: RunnerModel)
    requires
        r.app.seek_input is None,
    ensures
        mpv::input_conf(r.settings.skip_intro_secs)
            == "# anime-tui: keep in sync with Runner::on_player_key\n"@
            + r.conf_line("SPACE"@, KeyCode::Char(' '))
            + r.conf_line("h"@, KeyCode::Char('h'))
            + r.conf_line("LEFT"@, KeyCode::Left)
            + r.conf_line("l"@, KeyCode::Char('l'))
            + r.conf_line("RIGHT"@, KeyCode::Right)
            + r.conf_line(","@, KeyCode::Char(','))
            + r.conf_line("."@, KeyCode::Char('.'))
            + r.conf_line("i"@, KeyCode::Char('i'))
            + r.conf_line("UP"@, KeyCode::Up)
            + r.conf_line("="@, KeyCode::Char('='))
            + r.conf_line("+"@, KeyCode::Char('+'))
            + r.conf_line("DOWN"@, KeyCode::Down)
            + r.conf_line("-"@, KeyCode::Char('-'))
            + r.conf_line("m"@, KeyCode::Char('m'))
            + r.conf_line("s"@, KeyCode::Char('s'))
            + r.conf_line("a"@, KeyCode::Char('a'))
            + mpv::binding("f"@, "cycle fullscreen"@)
            + mpv::binding("q"@, "quit"@)
            + mpv::binding("ESC"@, "quit"@),
{
}

/// A progress sample is taken as it is: the readout shows its position, its length, its
/// pause and its frame rate. When the position is saved, the command names the episode
/// that plays, with the position and the length of the sample, and that position is the
/// one remembered as last saved; when it is not, nothing is asked for and what was last
/// saved stays.
pub proof fn law_progress_sample(
    s: SessionModel,
    app: AppModel,
    u: ProgressUpdate,
    save_due: bool,
    other: Seq<char>,
)
    ensures
        ({
            let (after, screen, asked) = s.progressed(app, u, save_due);
            &&& screen.playback matches Some(pb) && pb.position == u.position && pb.duration
                == u.duration && pb.paused == u.paused && pb.fps == u.fps
            &&& asked.len() <= 1
            &&& asked.len() == 1 <==> save_due && s.playing is Some
            &&& asked.len() == 1 ==> (asked[0] matches CommandModel::SaveProgress {
                anime,
                episode,
                position,
                duration,
            } && s.playing == Some((anime, episode)) && position == u.position && duration
                == u.duration && after.last_saved_pos == position)
            &&& asked.len() == 0 ==> after.last_saved_pos == s.last_saved_pos
            &&& after.playing == s.playing && after.player == s.player && after.playback_queue
                == s.playback_queue && after.playback_attempt == s.playback_attempt
            &&& s.playing matches Some((anime, episode)) ==> {
                &&& (app.details matches Some(d) && d.id@ == anime) && u.position.above(
                    crate::seconds::ONE,
                ) ==> screen.resume_positions.contains_pair(episode, u.position)
                &&& other != episode ==> screen.resume_positions.contains_key(other)
                    == app.resume_positions.contains_key(other) && screen.resume_positions[other]
                    == app.resume_positions[other]
            }
        }),
{
}

/// What was watched is what is resumed: whichever way playback stops after a sample, the
/// position that is saved for the episode that plays is that of the sample, and a window
/// that takes the stream over starts there.
pub proof fn law_watched_is_saved(
    s: SessionModel,
    app: AppModel,
    settings: Settings,
    u: ProgressUpdate,
    save_due: bool,
    status: Seq<char>,
    fault: Option<Fault>,
    anime: Seq<char>,
    episode: Seq<char>,
)
    requires
        s.playing == Some((anime, episode)),
    ensures
        ({
            let (after, screen, _) = s.progressed(app, u, save_due);
            let saved = CommandModel::SaveProgress {
                anime,
                episode,
                position: u.position,
                duration: u.duration,
            };
            &&& after.ended(screen, status).2[0] == saved
            &&& u.position.above(crate::seconds::ONE) ==> after.external_ended(
                screen,
                anime,
                episode,
                fault,
            ).2[0] == saved
            &&& s.current_source matches Some(source) ==> {
                let (window, _, asked) = after.handed_off(screen);
                &&& asked[0] == saved
                &&& asked.last() matches CommandModel::RunExternal {
                    anime: a,
                    episode: e,
                    source: taken,
                    start,
                    ..
                }
                &&& (a, e) == (anime, episode)
                &&& taken == source
                &&& start == u.position
                &&& !window.player
            }
            &&& (s.current_source matches Some(source) && s.player) ==> {
                let (_, asked) = after.resized(screen, settings);
                &&& asked.last() matches CommandModel::StartEmbedded {
                    source: taken,
                    start,
                    again,
                    ..
                }
                &&& Some(taken) == s.current_source
                &&& start == u.position
                &&& again
            }
        }),
{
}

/// An episode that is played starts at its saved position, and one that is replayed at
/// the beginning; what starts is the source that was asked for.
pub proof fn law_resume(
    r: RunnerModel,
    anime: Seq<char>,
    episode: Seq<char>,
    source: PreparedModel,
    saved: Seconds,
)
    ensures
        ({
            let play = r.dispatched(EffectModel::Play(anime, episode)).0;
            let choose = r.dispatched(EffectModel::PlayChoose(anime, episode)).0;
            let replay = r.dispatched(EffectModel::Replay(anime, episode)).0;
            let begin = |q: RunnerModel|
                q.session.begun(q.app, q.settings, anime, episode, source, saved);
            &&& starts_at(begin(play).2.last(), anime, episode, source, saved)
            &&& starts_at(begin(choose).2.last(), anime, episode, source, saved)
            &&& starts_at(begin(replay).2.last(), anime, episode, source, Seconds { bits: 0 })
            &&& begin(play).0.last_saved_pos == saved
            &&& begin(replay).0.last_saved_pos == Seconds { bits: 0 }
            &&& begin(play).0.playing == Some((anime, episode))
            &&& begin(play).0.current_source == Some(source)
        }),
{
}

/// A command starts a player on a source of an episode, at a position.
pub open spec fn starts_at(
    c: CommandModel,
    anime: Seq<char>,
    episode: Seq<char>,
    source: PreparedModel,
    at: Seconds,
) -> bool {
    match c {
        CommandModel::StartEmbedded { source: taken, start, again, .. } => taken == source && start
            == at && !again,
        CommandModel::RunExternal { anime: a, episode: e, source: taken, start, .. } => a == anime
            && e == episode && taken == source && start == at,
        _ => false,
    }
}

/// What asks for the sources of an episode: they are fetched, or taken from what was
/// fetched ahead for that very episode.
pub open spec fn asks_for(
    asked: Seq<CommandModel>,
    cache: Map<Seq<char>, Vec<PreparedSource>>,
    anime: Seq<char>,
    episode: Seq<char>,
    choose: bool,
) -> bool {
    asked.len() == 1 && match asked[0] {
        CommandModel::Resolve { anime: a, episode: e, choose: c } => a == anime && e == episode
            && c == choose && !cache.contains_key(episode),
        CommandModel::Resolved { anime: a, episode: e, sources: list, choose: c } => a == anime
            && e == episode && c == choose && cache.contains_key(episode) && list
            == sources::prepared_models(cache[episode]@),
        _ => false,
    }
}

/// Playing, replaying and choosing a source all ask for the sources of that episode; only
/// the last shows the picker.
pub proof fn law_play_asks_for_sources(r: RunnerModel, anime: Seq<char>, episode: Seq<char>)
    ensures
        ({
            let cache = r.warm.source_cache;
            &&& asks_for(
                r.dispatched(EffectModel::Play(anime, episode)).1,
                cache,
                anime,
                episode,
                false,
            )
            &&& asks_for(
                r.dispatched(EffectModel::Replay(anime, episode)).1,
                cache,
                anime,
                episode,
                false,
            )
            &&& asks_for(
                r.dispatched(EffectModel::PlayChoose(anime, episode)).1,
                cache,
                anime,
                episode,
                true,
            )
        }),
{
}

/// A search asks for the first page of its query in the order that is shown; when that
/// page is there, scrolling to the end asks for the page behind it of the same query, in
/// the same order.
pub proof fn law_search_pages(
    r: RunnerModel,
    query: Seq<char>,
    page: CatalogPage,
    rows: u16,
)
    ensures
        ({
            let (searching, asked) = r.dispatched(EffectModel::Search(query));
            let (shown, _) = searching.received(Msg::Results(Ok(page)));
            let (_, more) = shown.paged(rows);
            &&& asked == seq![
                CommandModel::SearchPage {
                    query,
                    page: 1,
                    sort: r.app.sort.query(),
                    more: false,
                },
            ]
            &&& searching.app.query == query
            &&& more.len() <= 1
            &&& more.len() == 1 ==> page.page < shown.app.total_pages && more[0]
                == (CommandModel::SearchPage {
                query,
                page: (page.page + 1) as u32,
                sort: r.app.sort.query(),
                more: true,
            })
            &&& shown.app.page == page.page
            &&& page.total_pages > 0 ==> shown.app.total_pages == page.total_pages
            &&& shown.app.total == page.total as usize
            &&& shown.app.all_results == page.items@
        }),
{
}

/// A page is asked for when the selection comes within a screen of the end of an
/// unfiltered catalogue that goes on, and not before.
pub proof fn law_page_is_due(r: RunnerModel, rows: u16)
    ensures
        ({
            let left = r.app.results.len() - r.app.selected_result.unwrap_or(0);
            let catalogue = r.app.view == View::Home || r.app.view == View::Search;
            r.paged(rows).1.len() == 1 <==> catalogue && r.app.filter.len() == 0
                && !r.app.loading_more && r.app.page < r.app.total_pages && left
                <= ui::visible_rows(rows)
        }),
{
}

/// Effects lead to the commands of the same name, for the same title.
pub proof fn law_effects(r: RunnerModel, id: Seq<char>, title: Seq<char>)
    ensures
        r.dispatched(EffectModel::Nothing) == (r, Seq::<CommandModel>::empty()),
        r.dispatched(EffectModel::LoadFavourites).1 == seq![CommandModel::LoadFavourites],
        r.dispatched(EffectModel::LoadHistory).1 == seq![CommandModel::LoadHistory],
        r.dispatched(EffectModel::ToggleFavourite(id, title)).1 == seq![
            CommandModel::ToggleFavourite(id, title),
        ],
        r.dispatched(EffectModel::LoadDetails(id)).1.last() == CommandModel::LoadDetails(id),
{
}

/// Typing a character and taking it away again changes nothing, in the search box, in
/// the quick-filter and in the box for a time.
pub proof fn law_typing_is_undone(r: RunnerModel, c: char)
    ensures
        !r.app.filtering ==> r.search_key(KeyCode::Char(c)).0.search_key(KeyCode::Backspace).0 == r,
        !r.app.filtering ==> r.search_key(KeyCode::Char(c)).0.app.search_input
            == r.app.search_input.push(c),
        r.filter_key(KeyCode::Char(c)).app.filter == r.app.filter.push(c),
        r.filter_key(KeyCode::Char(c)).filter_key(KeyCode::Backspace).app.filter == r.app.filter,
        (r.app.seek_input is Some && ('0' <= c <= '9' || c == ':')) ==> r.seek_key(
            KeyCode::Char(c),
        ).0.seek_key(KeyCode::Backspace).0 == r,
{
    let typed = r.search_key(KeyCode::Char(c)).0;
    assert(r.app.search_input.push(c).drop_last() =~= r.app.search_input);
    assert(r.app.filter.push(c).drop_last() =~= r.app.filter);
    if !r.app.filtering {
        assert(typed.search_key(KeyCode::Backspace).0 =~= r);
    }
    if let Some(input) = r.app.seek_input {
        assert(input.push(c).drop_last() =~= input);
        if '0' <= c <= '9' || c == ':' {
            assert(r.seek_key(KeyCode::Char(c)).0.seek_key(KeyCode::Backspace).0 =~= r);
        }
    }
}

/// Confirming a search that is not blank searches for what was typed, without the white
/// space around it; a blank one searches for nothing. Escape searches for nothing.
pub proof fn law_search_box(r: RunnerModel)
    requires
        !r.app.filtering,
    ensures
        ({
            let query = text::trim(r.app.search_input);
            let (after, asked) = r.search_key(KeyCode::Enter);
            &&& !after.app.input_mode
            &&& query.len() == 0 ==> asked.len() == 0
            &&& query.len() > 0 ==> asked.len() == 1 && (asked[0] matches CommandModel::SearchPage {
                query: q,
                page,
                more,
                ..
            } && q == query && page == 1 && !more) && after.app.loading
        }),
        r.search_key(KeyCode::Esc).1.len() == 0,
        !r.search_key(KeyCode::Esc).0.app.input_mode,
{
}

/// Leaving the quick-filter with Enter keeps it, and with Escape shows everything again.
pub proof fn law_filter_box(r: RunnerModel)
    ensures
        r.filter_key(KeyCode::Enter).app.filter == r.app.filter,
        r.filter_key(KeyCode::Enter).app.results == r.app.results,
        !r.filter_key(KeyCode::Enter).app.filtering,
        !r.filter_key(KeyCode::Enter).app.input_mode,
        r.filter_key(KeyCode::Esc).app.filter.len() == 0,
        !r.filter_key(KeyCode::Esc).app.filtering,
        !r.filter_key(KeyCode::Esc).app.input_mode,
        r.filter_key(KeyCode::Esc).app.all_results == r.app.all_results,
{
}

/// A time that was typed is sought to as it reads, in the player that runs, and the box
/// closes; Escape closes it without a seek.
pub proof fn law_seek_box(r: RunnerModel, input: Seq<char>)
    requires
        r.app.seek_input == Some(input),
    ensures
        ({
            let (after, asked) = r.seek_key(KeyCode::Enter);
            &&& after.app.seek_input is None
            &&& match sources::typed_time(input) {
                Some((h, m, s)) => asked.len() == 1 && (asked[0] matches CommandModel::SeekTo {
                    embedded,
                    hours,
                    minutes,
                    seconds,
                } && embedded == r.session.player && hours == h as u64 && minutes == m as u64
                    && seconds == s),
                None => asked.len() == 0,
            }
        }),
        r.seek_key(KeyCode::Esc).0.app.seek_input is None,
        r.seek_key(KeyCode::Esc).1.len() == 0,
{
}

/// How far a key of the player screen seeks, or by how much it changes the volume.
pub open spec fn amount_of(r: RunnerModel, code: KeyCode, control: Control) -> Option<i128> {
    match r.player_key(code, 0).1.last() {
        CommandModel::Control { embedded, control: c, amount } if c == control && embedded
            == r.session.player => Some(amount),
        _ => None,
    }
}

/// The keys of the player screen come in pairs that undo each other: right seeks as far
/// forward as left seeks back, and up makes the sound as much louder as down makes it
/// softer. The letters do what the arrows do, the small steps are half of the large
/// ones, and `i` jumps over an opening. They go to the player that runs.
pub proof fn law_player_keys(r: RunnerModel)
    requires
        r.app.seek_input is None,
    ensures
        ({
            let seek = |k: KeyCode| amount_of(r, k, Control::SeekRelative);
            let volume = |k: KeyCode| amount_of(r, k, Control::AddVolume);
            &&& seek(KeyCode::Right) == Some(10i128)
            &&& seek(KeyCode::Left) matches Some(back) && back + 10 == 0
            &&& seek(KeyCode::Char('l')) == seek(KeyCode::Right)
            &&& seek(KeyCode::Char('h')) == seek(KeyCode::Left)
            &&& seek(KeyCode::Char('.')) matches Some(small) && 2 * small == 10
            &&& seek(KeyCode::Char(',')) matches Some(small) && 2 * small == -10
            &&& seek(KeyCode::Char('i')) == Some(r.settings.skip_intro_secs as i128)
            &&& volume(KeyCode::Up) == Some(5i128)
            &&& volume(KeyCode::Down) matches Some(softer) && softer + 5 == 0
            &&& volume(KeyCode::Char('+')) == volume(KeyCode::Up)
            &&& volume(KeyCode::Char('=')) == volume(KeyCode::Up)
            &&& volume(KeyCode::Char('-')) == volume(KeyCode::Down)
            &&& amount_of(r, KeyCode::Char(' '), Control::TogglePause) is Some
            &&& amount_of(r, KeyCode::Char('m'), Control::ToggleMute) is Some
            &&& amount_of(r, KeyCode::Char('s'), Control::CycleSubtitle) is Some
            &&& amount_of(r, KeyCode::Char('a'), Control::CycleAudio) is Some
        }),
{
}

/// Stopping ends playback, and going full screen twice comes back.
pub proof fn law_player_screen(r: RunnerModel, now: u64)
    requires
        r.app.seek_input is None,
    ensures
        r.player_key(KeyCode::Char('q'), now) == r.player_key(KeyCode::Esc, now),
        r.player_key(KeyCode::Char('q'), now).0.session.playing is None,
        r.player_key(KeyCode::Char('q'), now).0.app.view != View::Player,
        r.player_key(KeyCode::Char('f'), now).0.app.fullscreen == !r.app.fullscreen,
        r.player_key(KeyCode::Char('g'), now).0.app.seek_input == Some(Seq::<char>::empty()),
{
}

/// Switching plays the episode next to the current one, in the order of the list; the
/// one that played is ended first.
pub proof fn law_switched(r: RunnerModel, forward: bool, d: AnimeDetails, current: int)
    requires
        r.app.details == Some(d),
        0 <= current < d.episodes@.len() <= usize::MAX,
        r.current_episode() == current,
    ensures
        ({
            let (after, asked) = r.switched(forward);
            let wanted = if forward {
                current + 1
            } else {
                current - 1
            };
            &&& 0 <= wanted < d.episodes@.len() ==> match asked.last() {
                CommandModel::Resolve { anime, episode, choose } => anime == d.id@ && episode
                    == d.episodes@[wanted].id@ && !choose,
                CommandModel::Resolved { anime, episode, choose, .. } => anime == d.id@ && episode
                    == d.episodes@[wanted].id@ && !choose,
                _ => false,
            }
            &&& after.session.playing is None
            &&& after.app.view == View::Player
            &&& after.app.loading
            &&& !after.session.from_start
        }),
{
    let next = keys::neighbour(current, forward, d.episodes@.len() as int);
    let (session, app, ending) = r.session.ended(
        r.app.with_episode(next as usize),
        "switching episode"@,
    );
    let (after, more) = RunnerModel {
        session,
        app: app.waiting_in_player(),
        ..r
    }.dispatched(EffectModel::Play(d.id@, d.episodes@[next].id@));
    assert((ending + more).last() == more.last());
}

/// The episode that plays counts as the current one.
pub proof fn law_current_episode(r: RunnerModel, d: AnimeDetails, i: int)
    requires
        r.app.details == Some(d),
        0 <= i < d.episodes@.len(),
        r.session.playing matches Some((_, e)) && e == d.episodes@[i].id@,
        forall|k: int| 0 <= k < i ==> (#[trigger] d.episodes@[k]).id@ != d.episodes@[i].id@,
    ensures
        r.current_episode() == i,
{
    warm::lemma_episode_with(d.episodes@, d.episodes@[i].id@, 0, i);
}

/// What was fetched ahead is what is shown: a message replaces the list by what it
/// brought, and a failure shows as an error and keeps the list.
pub proof fn law_messages(
    r: RunnerModel,
    list: Vec<AnimeSummary>,
    e: crate::errors::Error,
    d: AnimeDetails,
    local: Local,
)
    ensures
        r.received(Msg::Favourites(Ok(list))).0.app.all_results == list@,
        r.received(Msg::History(Ok(list))).0.app.all_results == list@,
        r.received(Msg::Favourites(Err(e))).0.app.status_level == StatusLevel::Error,
        r.received(Msg::Favourites(Err(e))).0.app.all_results == r.app.all_results,
        !r.received(Msg::Favourites(Err(e))).0.app.loading,
        r.received(Msg::Results(Err(e))).0.app.status_level == StatusLevel::Error,
        r.received(Msg::History(Err(e))).0.app.status_level == StatusLevel::Error,
        !r.received(Msg::MoreResults(Err(e))).0.app.loading_more,
        ({
            let (after, asked) = r.received(Msg::Details(Ok(d), local));
            &&& after.app.details == Some(d)
            &&& after.app.is_favourite == local.favourite
            &&& after.app.resume_positions == crate::app::run::by_episode(local.resume_positions@)
            &&& !after.app.loading
            &&& asked[0] matches CommandModel::CacheAnime { anime, title, poster_url }
            &&& anime == d.id@
            &&& title == d.title@
            &&& poster_url == text::opt_text(d.poster_url)
        }),
{
}

/// A resume position that the database knows for an episode is the one shown for it.
pub proof fn law_resume_positions(list: Seq<(String, Seconds)>, i: int)
    requires
        0 <= i < list.len(),
        forall|k: int| i < k < list.len() ==> (#[trigger] list[k]).0@ != list[i].0@,
    ensures
        crate::app::run::by_episode(list).contains_pair(list[i].0@, list[i].1),
    decreases list.len(),
{
    if i < list.len() - 1 {
        assert(list[list.len() - 1].0@ != list[i].0@);
        assert forall|k: int| i < k < list.drop_last().len() implies (
        #[trigger] list.drop_last()[k]).0@ != list.drop_last()[i].0@ by {
            assert(list[k].0@ != list[i].0@);
        }
        law_resume_positions(list.drop_last(), i);
    }
}

/// A window that ended before it showed anything, with a failure, gives way to the next
/// candidate; any other end leaves the player screen and says how it ended. What was
/// watched past the first second is saved either way, and the markers are read again.
pub proof fn law_window_ended(
    s: SessionModel,
    app: AppModel,
    anime: Seq<char>,
    episode: Seq<char>,
    fault: Option<Fault>,
)
    requires
        s.playing == Some((anime, episode)),
        s.playback_queue.len() <= usize::MAX,
    ensures
        ({
            let (after, screen, asked) = s.external_ended(app, anime, episode, fault);
            let early = app.position().below(crate::seconds::TWO);
            let more = s.playback_attempt < s.playback_queue.len();
            &&& screen.playback is None
            &&& fault is Some && early && more ==> asked.last() == (CommandModel::Begin {
                anime,
                episode,
                source: s.playback_queue[s.playback_attempt as int],
            }) && after.playing == s.playing && after.playback_attempt == s.playback_attempt + 1
            &&& !(fault is Some && early && more) ==> {
                &&& after.playing is None
                &&& screen.view != View::Player
                &&& !screen.loading
                &&& screen.status_level == StatusLevel::Error <==> fault is Some
                &&& fault is None ==> screen.status == Some("playback finished"@)
                &&& fault matches Some(f) ==> screen.status == Some(
                    "playback error: "@ + crate::errors::sentence(f),
                )
            }
            &&& app.playback matches Some(pb) ==> pb.position.above(crate::seconds::ONE) ==> asked[0]
                == (CommandModel::SaveProgress {
                anime,
                episode,
                position: pb.position,
                duration: pb.duration,
            })
            &&& app.details matches Some(d) ==> asked.contains(CommandModel::ReloadResume(d.id@))
        }),
{
    let (after, screen, asked) = s.external_ended(app, anime, episode, fault);
    let first = SessionModel::closing(app, anime, episode);
    if let Some(d) = app.details {
        assert(asked[first.len() as int] == CommandModel::ReloadResume(d.id@));
    }
}

/// A window of another episode that ends leaves what plays now alone.
pub proof fn law_other_window_ended(
    s: SessionModel,
    app: AppModel,
    anime: Seq<char>,
    episode: Seq<char>,
    fault: Option<Fault>,
)
    requires
        s.playing != Some((anime, episode)),
    ensures
        s.external_ended(app, anime, episode, fault).0 == s,
{
}

/// Several sources to choose from show the picker, with a label for each; a choice plays
/// that source first, and the others follow to fall back on.
pub proof fn law_picker(
    s: SessionModel,
    app: AppModel,
    settings: Settings,
    anime: Seq<char>,
    episode: Seq<char>,
    list: Seq<PreparedModel>,
    i: usize,
)
    requires
        1 < list.len() <= usize::MAX,
        i < list.len(),
    ensures
        ({
            let (after, screen, asked) = s.resolved(app, settings, anime, episode, Ok(list), true);
            let (shown, chosen) = after.source_selected(screen, i);
            &&& asked.len() == 0
            &&& screen.view == View::Sources
            &&& !screen.loading
            &&& screen.source_labels.len() == list.len()
            &&& screen.selected_source == Some(0usize)
            &&& after.playing == Some((anime, episode))
            &&& chosen.len() == 1
            &&& chosen[0] matches CommandModel::PlayQueue { anime: a, episode: e, queue }
            &&& (a, e) == (anime, episode)
            &&& queue[0] == list[i as int]
            &&& queue.to_multiset() == list.to_multiset()
            &&& shown.view == View::Player
        }),
        s.resolved(app, settings, anime, episode, Ok(Seq::empty()), true).1.status_level
            == StatusLevel::Error,
{
    sources::law_chosen_first(list, i as int);
}

/// A tick ends playback when the player has finished, and only then, and turns the
/// spinner only while something loads.
pub proof fn law_tick(r: RunnerModel, finished: bool, now: u64)
    ensures
        ({
            let (after, asked) = r.ticked(finished, now);
            &&& r.session.player && finished ==> after.session.playing is None
                && !after.session.player && after.app.view != View::Player
            &&& !(r.session.player && finished) ==> after.session == r.session
            &&& !(r.app.loading || r.app.loading_more) ==> after.app.spinner_frame
                == r.app.spinner_frame
            &&& (r.app.loading || r.app.loading_more) && r.app.spinner_frame < usize::MAX
                ==> after.app.spinner_frame == r.app.spinner_frame + 1
        }),
{
}

/// A key goes to the box that is open, else to the player when its screen is shown, and
/// else does what the keymap says.
pub proof fn law_keys_go(r: RunnerModel, code: KeyCode, mods: crate::input::KeyModifiers, now: u64)
    ensures
        ({
            let done = r.happened(keys::Event::Press(code, mods), now);
            &&& r.app.input_mode ==> done == r.search_key(code)
            &&& !r.app.input_mode && r.app.view == View::Player ==> done == r.player_key(code, now)
            &&& !r.app.input_mode && r.app.view != View::Player ==> match crate::input::bound(
                code,
                mods == crate::input::KeyModifiers::CONTROL,
            ) {
                Some(action) => done == r.with_app(r.app.acted(action).0).dispatched(
                    r.app.acted(action).1,
                ),
                None => done == (r, Seq::<CommandModel>::empty()),
            }
        }),
        r.happened(keys::Event::Other, now) == (r, Seq::<CommandModel>::empty()),
        r.happened(keys::Event::Resize, now).0.covers.poster_dirty,
{
}

/// The window is given more to keep than an embedded player is by default.
pub proof fn law_window_buffer()
    ensures
        crate::app::run::session::window_tuning().max_buffer_mib == 4 * 64,
        crate::app::run::session::window_tuning().readahead_secs == 3 * 10,
{
}

/// However playback is ended, the embedded player is stopped if it runs, and else the
/// window is asked to quit; the markers of the loaded title are read again.
pub proof fn law_ending_stops(s: SessionModel, app: AppModel, status: Seq<char>)
    ensures
        ({
            let asked = s.ended(app, status).2;
            &&& asked.last() == (if s.player {
                CommandModel::StopPlayer
            } else {
                CommandModel::QuitExternal
            })
            &&& app.details matches Some(d) ==> asked[asked.len() - 2] == CommandModel::ReloadResume(
                d.id@,
            )
        }),
{
}

/// One source plays directly, though it was asked to choose.
pub proof fn law_single_source(
    s: SessionModel,
    app: AppModel,
    settings: Settings,
    anime: Seq<char>,
    episode: Seq<char>,
    source: PreparedModel,
    choose: bool,
)
    ensures
        s.resolved(app, settings, anime, episode, Ok(seq![source]), choose).2 == seq![
            CommandModel::Begin { anime, episode, source },
        ],
{
    let list = seq![source];
    let words = sources::words(
        text::split(settings.default_source@, |c: char| sources::word_end(c)),
    );
    sources::law_preferred(list, words);
    sources::law_chosen_first(list, 0);
}

/// A later candidate that is tried is named by its label.
pub proof fn law_trying_names_the_source(s: SessionModel, app: AppModel)
    requires
        s.playing is Some,
        0 < s.playback_attempt < s.playback_queue.len(),
    ensures
        s.playback_queue[s.playback_attempt as int].label matches Some(l) ==> s.advanced(app).1.status
            == Some("trying source "@ + l + "…"@),
        s.advanced(app).1.status_level == StatusLevel::Info,
{
}

/// Embedded playback that started is running; one that failed to gives way to the next
/// candidate, and one that could not go on after a resize ends.
pub proof fn law_started(s: SessionModel, app: AppModel, f: Fault)
    ensures
        s.started(app, None).0 == (SessionModel { player: true, ..s }),
        s.restarted(app, None).0 == (SessionModel { player: true, ..s }),
        s.restarted(app, Some(f)).0.playing is None,
        s.restarted(app, Some(f)).1.view != View::Player,
        s.playing matches Some((anime, episode)) ==> s.playback_attempt < s.playback_queue.len()
            ==> s.started(app, Some(f)).2 == seq![
            CommandModel::Begin {
                anime,
                episode,
                source: s.playback_queue[s.playback_attempt as int],
            },
        ],
{
}

/// While the embedded player runs the screen is drawn when nine tenths of a second have
/// passed, and else always.
pub proof fn law_draw_due(r: &crate::app::run::Runner, now: u64, due: bool)
    requires
        call_ensures(crate::app::run::Runner::draw_due, (r, now), due),
    ensures
        !r@.session.player ==> due,
        r@.session.player ==> (due <==> now - r@.last_tui_draw >= 900),
{
}

/// A picture that came in is for the title whose details are on screen.
pub proof fn law_poster_subject(r: RunnerModel)
    ensures
        r.app.view == View::Details ==> (r.app.details matches Some(d) ==> r.poster_subject()
            == Some(d.id@)),
        r.app.view != View::Details || r.app.details is None ==> r.poster_subject() is None,
{
}

/// Toggling fullscreen flips it, and the screen is drawn right after; toggling twice
/// leads back.
pub proof fn law_fullscreen(r: RunnerModel, now: u64, later: u64)
    requires
        now >= 2000,
    ensures
        r.fullscreen_toggled(now).0.app == (AppModel { fullscreen: !r.app.fullscreen, ..r.app }),
        now - r.fullscreen_toggled(now).0.last_tui_draw >= 900,
        r.fullscreen_toggled(now).0.fullscreen_toggled(later).0.app == r.app,
{
}

/// Playback that begins counts as loaded, at zero of zero and running, until the player
/// says more.
pub proof fn law_playback_begins(
    s: SessionModel,
    app: AppModel,
    settings: Settings,
    anime: Seq<char>,
    episode: Seq<char>,
    source: PreparedModel,
    saved: Seconds,
)
    ensures
        ({
            let (t, a, _) = s.begun(app, settings, anime, episode, source, saved);
            &&& !a.loading
            &&& a.playback matches Some(pb) && pb.position.bits == 0 && pb.duration.bits == 0
                && !pb.paused && pb.fps is None
            &&& t.playing == Some((anime, episode)) && t.current_source == Some(source)
            &&& !t.player
        }),
{
}

/// Handing playback to a window leaves the player for the episodes, clears what it drew,
/// and starts the same source in the window where it was.
pub proof fn law_handed_off(s: SessionModel, app: AppModel)
    requires
        s.current_source is Some,
        s.playing is Some,
    ensures
        ({
            let (t, a, asked) = s.handed_off(app);
            &&& !t.player && t.needs_clear && t.playing == s.playing
            &&& a.view == View::Episodes && !a.fullscreen && a.playback is None
                && a.seek_input is None
            &&& asked.last() matches CommandModel::RunExternal {
                anime,
                episode,
                source,
                start,
                ..
            } && Some((anime, episode)) == s.playing && Some(source) == s.current_source && start
                == app.position()
            &&& s.player ==> asked.contains(CommandModel::StopPlayer)
        }),
{
    if s.player {
        let asked = s.handed_off(app).2;
        assert(asked[asked.len() - 2] == CommandModel::StopPlayer);
    }
}

/// An episode without sources, or whose sources could not be had, leaves the player with
/// an error.
pub proof fn law_nothing_to_play(
    s: SessionModel,
    app: AppModel,
    settings: Settings,
    anime: Seq<char>,
    episode: Seq<char>,
    f: Fault,
    choose: bool,
)
    ensures
        ({
            let (t, a, asked) = s.resolved(
                app,
                settings,
                anime,
                episode,
                Ok(Seq::<PreparedModel>::empty()),
                choose,
            );
            &&& t == s && asked.len() == 0
            &&& a.view != View::Player && !a.loading && a.status_level == StatusLevel::Error
        }),
        ({
            let (t, a, asked) = s.resolved(app, settings, anime, episode, Err(f), choose);
            &&& t == s && asked.len() == 0
            &&& a.view != View::Player && !a.loading && a.status == Some(
                "error: "@ + crate::errors::sentence(f),
            )
        }),
{
}

/// Fresh results come with a line that names the provider and the way videos are played.
pub proof fn law_results_line(r: RunnerModel, page: CatalogPage)
    ensures
        r.received(Msg::Results(Ok(page))).0.app.status == Some(
            "provider: "@ + r.settings.provider_name@ + " · backend: "@
                + r.settings.backend.named(),
        ),
        r.received(Msg::Results(Ok(page))).0.app.status_level == StatusLevel::Info,
{
}

} // verus!
