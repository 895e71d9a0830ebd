use anime_tui::app::run::covers::Screen;
use anime_tui::app::run::keys::Event;
use anime_tui::app::run::{
    input_conf_file, poster_dir, work_dir, Command, Local, Msg, Runner,
};
use anime_tui::app::sources::PreparedSource;
use anime_tui::app::{Effect, PlaybackState, StatusLevel, View};
use anime_tui::config::Config;
use anime_tui::errors::Error;
use anime_tui::input::{KeyCode, KeyModifiers};
use anime_tui::models::{
    AnimeDetails, AnimeId, AnimeSummary, CatalogPage, Episode, EpisodeId,
};
use anime_tui::player::embedded::{Control, ProgressUpdate};
use anime_tui::player::Backend;
use anime_tui::seconds::Seconds;

fn at(secs: f64) -> Seconds {
    Seconds { bits: secs.to_bits() }
}

fn runner(embedded: bool) -> Runner {
    let mut config = Config::default();
    config.embedded_player = embedded;
    Runner::new(&config, "mock", true, "/tmp/work", Ok(()), true).unwrap()
}

fn source(label: &str) -> PreparedSource {
    PreparedSource {
        url: format!("https://host/{label}"),
        headers: vec![],
        label: Some(label.to_string()),
    }
}

fn summary(id: &str) -> AnimeSummary {
    AnimeSummary {
        id: AnimeId(id.to_string()),
        title: format!("Title {id}"),
        year: None,
        poster_url: Some(format!("https://img/{id}.jpg")),
    }
}

fn page(n: usize, page: u32, total_pages: u32) -> CatalogPage {
    CatalogPage {
        items: (0..n).map(|i| summary(&format!("{page}-{i}"))).collect(),
        total: 100,
        page,
        total_pages,
    }
}

fn details(episodes: usize) -> AnimeDetails {
    AnimeDetails {
        id: AnimeId("a".to_string()),
        title: "A".to_string(),
        description: None,
        poster_url: Some("https://img/large.jpg".to_string()),
        genres: vec![],
        status: None,
        episodes: (1..=episodes)
            .map(|i| Episode {
                id: EpisodeId(format!("e{i}")),
                number: format!("{i}"),
                title: None,
                season_id: None,
            })
            .collect(),
    }
}

fn nothing_local() -> Local {
    Local { resume_positions: vec![], favourite: false, last_watched: None }
}

fn resolved(r: &mut Runner, sources: Vec<PreparedSource>, choose: bool) -> Vec<Command> {
    r.on_message(Msg::Resolved {
        anime: AnimeId("a".to_string()),
        episode: EpisodeId("e1".to_string()),
        result: Ok(sources),
        choose,
    })
}

fn press(r: &mut Runner, code: KeyCode) -> Vec<Command> {
    r.on_terminal_event(Event::Press(code, KeyModifiers::NONE), 10_000)
}

/// Performs the `Begin` of a list of commands, with nothing saved.
fn begin(r: &mut Runner, commands: Vec<Command>, saved: f64) -> Vec<Command> {
    for c in commands {
        if let Command::Begin { anime, episode, source } = c {
            return r.begin_playback(anime, episode, source, at(saved));
        }
    }
    panic!("nothing begins");
}

#[test]
fn a_runner_takes_its_settings_from_the_config() {
    let r = runner(true);
    assert_eq!(r.settings.backend, Backend::EmbeddedKitty);
    assert_eq!(r.settings.skip_intro_secs, 85);
    assert_eq!(r.settings.input_conf_path.as_deref(), Some("/tmp/work/mpv-input.conf"));
    assert_eq!(r.settings.poster_cache.root(), "/tmp/work/posters");
    assert_eq!(runner(false).settings.backend, Backend::ExternalMpv);
    let failed = Runner::new(&Config::default(), "m", true, "/x", Err("denied".to_string()), false);
    assert!(matches!(failed, Err(Error::Io(ref m)) if m == "denied"));
    let mut config = Config::default();
    assert_eq!(work_dir(&config, None, "/tmp"), "/tmp");
    assert_eq!(work_dir(&config, Some("/cache"), "/tmp"), "/cache");
    config.cache_dir = Some("/own".to_string());
    assert_eq!(work_dir(&config, Some("/cache"), "/tmp"), "/own");
    assert_eq!(poster_dir("/c"), "/c/posters");
    let (path, text) = input_conf_file(&config, "/c");
    assert_eq!(path, "/c/mpv-input.conf");
    assert!(text.contains("i seek 85"));
}

#[test]
fn the_catalogue_is_asked_for_at_startup() {
    let mut r = runner(false);
    let c = r.start();
    assert!(r.app.loading);
    assert!(matches!(&c[..], [Command::SearchPage { query, page: 1, sort: "relevance", more: false }] if query.is_empty()));
    r.on_message(Msg::Results(Ok(page(3, 1, 2))));
    assert!(!r.app.loading);
    assert_eq!(r.app.status.as_deref(), Some("provider: mock · backend: ExternalMpv"));
}

#[test]
fn a_failed_search_shows_the_error() {
    let mut r = runner(false);
    r.start();
    r.on_message(Msg::Results(Err(Error::Timeout)));
    assert!(!r.app.loading);
    assert_eq!(r.app.status.as_deref(), Some("error: request timed out"));
    assert_eq!(r.app.status_level, StatusLevel::Error);
}

#[test]
fn pages_are_loaded_as_the_selection_nears_the_end() {
    let mut r = runner(false);
    r.on_message(Msg::Results(Ok(page(10, 1, 3))));
    assert!(r.maybe_load_more(24).is_empty());
    r.app.results_state.select(Some(6));
    let c = r.maybe_load_more(24);
    assert!(matches!(&c[..], [Command::SearchPage { page: 2, more: true, .. }]));
    // One at a time.
    assert!(r.maybe_load_more(24).is_empty());
    r.on_message(Msg::MoreResults(Ok(page(10, 2, 3))));
    assert_eq!(r.app.results.len(), 20);
    r.app.results_state.select(Some(19));
    assert_eq!(r.maybe_load_more(24).len(), 1);
    r.on_message(Msg::MoreResults(Err(Error::Timeout)));
    assert_eq!(r.app.status.as_deref(), Some("load more failed: request timed out"));
    assert_eq!(r.app.results.len(), 20);
    // Not while a filter narrows the list.
    r.app.filter = "x".to_string();
    assert!(r.maybe_load_more(24).is_empty());
}

#[test]
fn the_offset_follows_the_selection() {
    let mut r = runner(false);
    r.on_message(Msg::Results(Ok(page(20, 1, 1))));
    r.app.results_state.select(Some(9));
    r.update_list_offset(24);
    assert_eq!(r.app.list_offset, 6);
    r.app.results_state.select(Some(2));
    r.update_list_offset(24);
    assert_eq!(r.app.list_offset, 2);
    r.app.view = View::Details;
    r.app.results_state.select(Some(19));
    r.update_list_offset(24);
    assert_eq!(r.app.list_offset, 2);
}

#[test]
fn opening_a_title_fetches_its_cover_and_details() {
    let mut r = runner(false);
    r.on_message(Msg::Results(Ok(page(2, 1, 1))));
    let c = press(&mut r, KeyCode::Enter);
    assert_eq!(r.app.view, View::Details);
    match &c[..] {
        [Command::DropPoster, Command::FetchPoster { anime, path, url }, Command::LoadDetails(id)] => {
            assert_eq!(anime.0, "1-0");
            assert_eq!(id.0, "1-0");
            assert_eq!(path, "/tmp/work/posters/1-0.poster");
            assert_eq!(url, "https://img/1-0.jpg");
        }
        other => panic!("{other:?}"),
    }
}

#[test]
fn details_bring_markers_and_the_resume_queue() {
    let mut r = runner(false);
    let local = Local {
        resume_positions: vec![("e2".to_string(), at(30.0))],
        favourite: true,
        last_watched: Some("e2".to_string()),
    };
    let c = r.on_message(Msg::Details(Ok(details(3)), local));
    assert!(matches!(&c[..], [Command::CacheAnime { .. }, Command::FetchPoster { .. }]));
    assert!(r.app.is_favourite);
    let queue: Vec<&str> = r.warm.prefetch_queue.iter().map(|p| p.1 .0.as_str()).collect();
    assert_eq!(queue, vec!["e2", "e3"]);
    // The same cover is not fetched twice.
    let c = r.on_message(Msg::Details(Ok(details(1)), nothing_local()));
    assert_eq!(c.len(), 1);
    let queue: Vec<&str> = r.warm.prefetch_queue.iter().map(|p| p.1 .0.as_str()).collect();
    assert_eq!(queue, vec!["e1"]);
}

#[test]
fn sources_are_fetched_ahead_one_at_a_time() {
    let mut r = runner(false);
    r.on_message(Msg::Details(Ok(details(3)), nothing_local()));
    let c = r.on_tick(false, 1000);
    assert!(matches!(&c[..], [Command::Prefetch { episode, .. }] if episode.0 == "e1"));
    assert!(r.on_tick(false, 1250).is_empty());
    r.on_message(Msg::Prefetched {
        episode: EpisodeId("e1".to_string()),
        sources: vec![source("x")],
    });
    let c = r.on_tick(false, 1500);
    assert!(matches!(&c[..], [Command::Prefetch { episode, .. }] if episode.0 == "e2"));
    r.on_message(Msg::Prefetched { episode: EpisodeId("e2".to_string()), sources: vec![] });
    // Hovering: only after a rest.
    r.app.view = View::Episodes;
    r.app.episodes_state.select(Some(2));
    assert!(r.on_tick(false, 2000).is_empty());
    assert!(r.on_tick(false, 2399).is_empty());
    let c = r.on_tick(false, 2400);
    assert!(matches!(&c[..], [Command::Prefetch { episode, .. }] if episode.0 == "e3"));
    // What was fetched plays at once.
    let c = r.dispatch(Effect::Play(AnimeId("a".to_string()), EpisodeId("e1".to_string())));
    assert!(matches!(&c[..], [Command::Resolved { sources, choose: false, .. }] if sources.len() == 1));
    let c = r.dispatch(Effect::Play(AnimeId("a".to_string()), EpisodeId("e2".to_string())));
    assert!(matches!(&c[..], [Command::Resolve { choose: false, .. }]));
}

#[test]
fn direct_play_prefers_the_default_source() {
    let mut r = runner(false);
    let c = resolved(
        &mut r,
        vec![source("vidmoly (VOSTFR)"), source("sibnet"), source("vidmoly (VF)")],
        false,
    );
    assert_eq!(r.app.view, View::Player);
    assert!(matches!(&c[..], [Command::Begin { source, .. }] if source.label.as_deref() == Some("vidmoly (VF)")));
    let order: Vec<String> =
        r.session.playback_queue.iter().map(|s| s.label.clone().unwrap()).collect();
    assert_eq!(order, vec!["vidmoly (VF)", "vidmoly (VOSTFR)", "sibnet"]);
    let c = begin(&mut r, c, 12.5);
    match &c[..] {
        [Command::RunExternal { start, tuning, .. }] => {
            assert_eq!(*start, at(12.5));
            assert_eq!(tuning.max_buffer_mib, 256);
        }
        other => panic!("{other:?}"),
    }
    assert_eq!(r.app.status.as_deref(), Some("playing (external mpv)"));
    assert_eq!(r.session.last_saved_pos, at(12.5));
}

#[test]
fn every_candidate_is_tried_in_order() {
    let mut r = runner(true);
    let mut c = resolved(&mut r, vec![source("a"), source("b"), source("c")], false);
    for expected in ["a", "b", "c"] {
        assert!(matches!(&c[..], [Command::Begin { source, .. }] if source.label.as_deref() == Some(expected)));
        let start = begin(&mut r, c, 0.0);
        assert!(matches!(&start[..], [Command::StartEmbedded { again: false, .. }]));
        c = r.on_player_started(Err(Error::Player("no".to_string())), false);
        if expected != "c" {
            assert!(r.app.status.as_deref().unwrap().starts_with("trying source "));
        }
    }
    assert!(c.is_empty());
    assert_eq!(r.app.status.as_deref(), Some("all sources failed to load"));
    assert_eq!(r.app.view, View::Episodes);
    assert!(r.session.playing.is_none());
}

#[test]
fn an_early_failure_of_the_window_falls_back() {
    let mut r = runner(false);
    let c = resolved(&mut r, vec![source("a"), source("b")], false);
    begin(&mut r, c, 0.0);
    let ended = |end| Msg::ExternalEnded {
        anime: AnimeId("a".to_string()),
        episode: EpisodeId("e1".to_string()),
        end,
    };
    let c = r.on_message(ended(Err(Error::Player("dead".to_string()))));
    assert!(matches!(&c[..], [Command::Begin { source, .. }] if source.label.as_deref() == Some("b")));
    begin(&mut r, c, 0.0);
    // Real progress: the end is final, and the position is saved.
    r.on_progress(
        ProgressUpdate { position: at(30.0), duration: at(60.0), paused: false, fps: None },
        false,
    );
    let c = r.on_message(ended(Err(Error::Player("dead".to_string()))));
    assert!(matches!(&c[..], [Command::SaveProgress { position, .. }] if *position == at(30.0)));
    assert_eq!(r.app.status.as_deref(), Some("playback error: player error: dead"));
    assert!(r.session.playing.is_none());
    assert_eq!(r.app.view, View::Episodes);
}

#[test]
fn the_picker_plays_the_chosen_source_first() {
    let mut r = runner(false);
    let c = resolved(&mut r, vec![source("a"), source("b")], true);
    assert!(c.is_empty());
    assert_eq!(r.app.view, View::Sources);
    assert_eq!(r.app.source_labels, vec!["a", "b"]);
    press(&mut r, KeyCode::Down);
    let c = press(&mut r, KeyCode::Enter);
    match c.into_iter().next().unwrap() {
        Command::PlayQueue { anime, episode, queue } => {
            assert_eq!(queue[0].label.as_deref(), Some("b"));
            let c = r.on_message(Msg::PlayQueue { anime, episode, queue });
            assert!(matches!(&c[..], [Command::Begin { .. }]));
        }
        other => panic!("{other:?}"),
    }
    // A single source needs no picker.
    assert_eq!(resolved(&mut r, vec![source("a")], true).len(), 1);
}

#[test]
fn no_source_is_a_failure() {
    let mut r = runner(false);
    r.app.view = View::Player;
    assert!(resolved(&mut r, vec![], false).is_empty());
    assert_eq!(r.app.view, View::Episodes);
    assert_eq!(
        r.app.status.as_deref(),
        Some("error: could not resolve a playable source: no sources returned")
    );
}

#[test]
fn a_replay_ignores_the_saved_position() {
    let mut r = runner(false);
    r.dispatch(Effect::Replay(AnimeId("a".to_string()), EpisodeId("e1".to_string())));
    let c = resolved(&mut r, vec![source("a")], false);
    let c = begin(&mut r, c, 600.0);
    assert!(matches!(&c[..], [Command::RunExternal { start, .. }] if *start == at(0.0)));
}

#[test]
fn stopping_saves_and_comes_back_to_the_list() {
    let mut r = runner(true);
    r.on_message(Msg::Details(Ok(details(3)), nothing_local()));
    let c = resolved(&mut r, vec![source("a")], false);
    begin(&mut r, c, 0.0);
    assert!(r.on_player_started(Ok(()), false).is_empty());
    assert_eq!(r.app.status.as_deref(), Some("playing (embedded)"));
    r.on_progress(
        ProgressUpdate { position: at(9.0), duration: at(60.0), paused: false, fps: None },
        false,
    );
    let c = press(&mut r, KeyCode::Char('q'));
    assert!(matches!(
        &c[..],
        [Command::SaveProgress { .. }, Command::ReloadResume(_), Command::StopPlayer]
    ));
    assert_eq!(r.app.view, View::Episodes);
    assert!(!r.session.player);
    let c = r.wipe();
    assert!(matches!(&c[..], [Command::Write(_), Command::ClearScreen]));
    assert!(r.wipe().is_empty());
}

#[test]
fn progress_is_saved_when_due() {
    let mut r = runner(true);
    r.on_message(Msg::Details(Ok(details(2)), nothing_local()));
    let c = resolved(&mut r, vec![source("a")], false);
    begin(&mut r, c, 0.0);
    let u = ProgressUpdate { position: at(20.0), duration: at(60.0), paused: true, fps: None };
    assert!(r.on_progress(u, false).is_empty());
    let c = r.on_progress(u, true);
    assert!(matches!(&c[..], [Command::SaveProgress { .. }]));
    assert_eq!(r.session.last_saved_pos, at(20.0));
    assert_eq!(
        r.app.playback,
        Some(PlaybackState { position: at(20.0), duration: at(60.0), paused: true, fps: None })
    );
}

#[test]
fn a_resize_respawns_the_embedded_player() {
    let mut r = runner(true);
    let c = resolved(&mut r, vec![source("a")], false);
    begin(&mut r, c, 0.0);
    r.on_player_started(Ok(()), false);
    r.on_progress(
        ProgressUpdate { position: at(33.0), duration: at(60.0), paused: false, fps: None },
        false,
    );
    let c = r.on_terminal_event(Event::Resize, 0);
    match &c[..] {
        [Command::StopPlayer, Command::Write(_), Command::StartEmbedded { start, again: true, .. }] => {
            assert_eq!(*start, at(33.0))
        }
        other => panic!("{other:?}"),
    }
    let c = r.on_player_started(Err(Error::Player("x".to_string())), true);
    assert!(c.iter().any(|c| matches!(c, Command::SaveProgress { .. })));
    assert_eq!(r.app.status.as_deref(), Some("resize restart failed: player error: x"));
    // Without an embedded player there is nothing to respawn.
    assert!(r.on_terminal_event(Event::Resize, 0).is_empty());
}

#[test]
fn the_next_episode_is_played_with_n() {
    let mut r = runner(false);
    r.on_message(Msg::Details(Ok(details(3)), nothing_local()));
    let c = resolved(&mut r, vec![source("a")], false);
    begin(&mut r, c, 0.0);
    let c = press(&mut r, KeyCode::Char('n'));
    assert!(matches!(c.last(), Some(Command::Resolve { episode, .. }) if episode.0 == "e2"));
    assert_eq!(r.app.view, View::Player);
    assert!(r.app.loading);
    let c = press(&mut r, KeyCode::Char('p'));
    assert!(matches!(c.last(), Some(Command::Resolve { episode, .. }) if episode.0 == "e1"));
    let c = press(&mut r, KeyCode::Char('p'));
    assert!(matches!(c.last(), Some(Command::Resolve { episode, .. }) if episode.0 == "e1"));
}

#[test]
fn player_keys_control_the_player() {
    let mut r = runner(false);
    r.app.view = View::Player;
    let mut amount = |code: KeyCode| match &press(&mut r, code)[..] {
        [Command::Control { embedded: false, control, amount }] => (*control, *amount),
        other => panic!("{other:?}"),
    };
    assert_eq!(amount(KeyCode::Char(' ')), (Control::TogglePause, 0));
    assert_eq!(amount(KeyCode::Left), (Control::SeekRelative, -10));
    assert_eq!(amount(KeyCode::Char('l')), (Control::SeekRelative, 10));
    assert_eq!(amount(KeyCode::Char(',')), (Control::SeekRelative, -5));
    assert_eq!(amount(KeyCode::Char('.')), (Control::SeekRelative, 5));
    assert_eq!(amount(KeyCode::Char('i')), (Control::SeekRelative, 85));
    assert_eq!(amount(KeyCode::Up), (Control::AddVolume, 5));
    assert_eq!(amount(KeyCode::Char('-')), (Control::AddVolume, -5));
    assert_eq!(amount(KeyCode::Char('m')), (Control::ToggleMute, 0));
    assert_eq!(amount(KeyCode::Char('s')), (Control::CycleSubtitle, 0));
    assert_eq!(amount(KeyCode::Char('a')), (Control::CycleAudio, 0));
}

#[test]
fn a_time_is_typed_and_sought() {
    let mut r = runner(false);
    r.app.view = View::Player;
    press(&mut r, KeyCode::Char('g'));
    for c in "1x:3".chars() {
        press(&mut r, KeyCode::Char(c));
    }
    assert_eq!(r.app.seek_input.as_deref(), Some("1:3"));
    press(&mut r, KeyCode::Backspace);
    press(&mut r, KeyCode::Char('5'));
    let c = press(&mut r, KeyCode::Enter);
    match &c[..] {
        [Command::SeekTo { embedded: false, time }] => {
            assert_eq!((time.hours, time.minutes, time.seconds.as_str()), (0, 1, "5"))
        }
        other => panic!("{other:?}"),
    }
    assert!(r.app.seek_input.is_none());
    press(&mut r, KeyCode::Char('g'));
    press(&mut r, KeyCode::Esc);
    assert!(r.app.seek_input.is_none());
    assert_eq!(r.app.view, View::Player);
}

#[test]
fn the_stream_is_handed_off_to_a_window() {
    let mut r = runner(true);
    let c = resolved(&mut r, vec![source("a")], false);
    begin(&mut r, c, 0.0);
    r.on_player_started(Ok(()), false);
    r.on_progress(
        ProgressUpdate { position: at(7.0), duration: at(60.0), paused: false, fps: None },
        false,
    );
    let c = press(&mut r, KeyCode::Char('o'));
    match &c[..] {
        [Command::SaveProgress { .. }, Command::StopPlayer, Command::RunExternal { start, .. }] => {
            assert_eq!(*start, at(7.0))
        }
        other => panic!("{other:?}"),
    }
    assert_eq!(r.app.view, View::Episodes);
}

#[test]
fn chrome_is_redrawn_at_leisure_while_the_video_plays() {
    let mut r = runner(true);
    assert!(r.draw_due(5));
    r.drawn(5000);
    r.session.player = true;
    assert!(!r.draw_due(5899));
    assert!(r.draw_due(5900));
    r.toggle_fullscreen(5000);
    assert!(r.app.fullscreen);
    assert!(r.draw_due(5000));
}

#[test]
fn a_search_is_typed_and_run() {
    let mut r = runner(false);
    press(&mut r, KeyCode::Char('/'));
    for c in " ab".chars() {
        press(&mut r, KeyCode::Char(c));
    }
    press(&mut r, KeyCode::Backspace);
    let c = press(&mut r, KeyCode::Enter);
    assert!(matches!(&c[..], [Command::SearchPage { query, .. }] if query == "a"));
    assert!(r.app.loading);
    press(&mut r, KeyCode::Char('/'));
    press(&mut r, KeyCode::Char(' '));
    assert!(press(&mut r, KeyCode::Enter).is_empty());
    press(&mut r, KeyCode::Char('/'));
    press(&mut r, KeyCode::Esc);
    assert!(!r.app.input_mode);
}

#[test]
fn a_filter_is_typed_and_cancelled() {
    let mut r = runner(false);
    r.on_message(Msg::Results(Ok(page(12, 1, 1))));
    press(&mut r, KeyCode::Char('F'));
    for c in "1-11".chars() {
        press(&mut r, KeyCode::Char(c));
    }
    assert_eq!(r.app.results.len(), 1);
    press(&mut r, KeyCode::Backspace);
    assert_eq!(r.app.results.len(), 3);
    press(&mut r, KeyCode::Enter);
    assert_eq!(r.app.results.len(), 3);
    press(&mut r, KeyCode::Char('F'));
    press(&mut r, KeyCode::Esc);
    assert_eq!(r.app.results.len(), 12);
}

#[test]
fn favourites_follow_the_database() {
    let mut r = runner(false);
    r.on_favourite_toggled(Ok(true));
    assert!(r.app.is_favourite);
    r.on_favourite_toggled(Err(Error::Database("locked".to_string())));
    assert!(r.app.is_favourite);
    assert_eq!(r.app.status.as_deref(), Some("favourite error: database error: locked"));
    assert!(matches!(&r.dispatch(Effect::LoadFavourites)[..], [Command::LoadFavourites]));
    assert!(matches!(&r.dispatch(Effect::LoadHistory)[..], [Command::LoadHistory]));
    r.on_message(Msg::History(Ok(vec![summary("x")])));
    assert_eq!(r.app.results.len(), 1);
    r.on_message(Msg::Favourites(Err(Error::Database("gone".to_string()))));
    assert_eq!(r.app.status_level, StatusLevel::Error);
    r.set_resume_positions(vec![]);
    assert!(r.dispatch(Effect::LoadDownloads).is_empty());
    assert_eq!(
        r.app.status.as_deref(),
        Some("error: feature not implemented yet: downloads")
    );
}

#[test]
fn thumbnails_are_fetched_sent_and_placed() {
    let mut r = runner(false);
    r.on_message(Msg::Results(Ok(page(20, 1, 1))));
    let screen = Screen::new(Some((80, 24)), None);
    let c = r.place_thumbnails(screen);
    // No more than eight at once, those on screen first.
    let ids: Vec<String> = c
        .iter()
        .map(|c| match c {
            Command::FetchThumb { anime, .. } => anime.0.clone(),
            other => panic!("{other:?}"),
        })
        .collect();
    assert_eq!(ids, (0..8).map(|i| format!("1-{i}")).collect::<Vec<_>>());
    assert!(r.place_thumbnails(screen).is_empty());
    r.on_message(Msg::Thumb { anime: AnimeId("1-0".to_string()), png: Ok(vec![1, 2, 3]) });
    let c = r.place_thumbnails(screen);
    let texts: Vec<&String> = c
        .iter()
        .filter_map(|c| match c {
            Command::Write(s) => Some(s),
            _ => None,
        })
        .collect();
    assert_eq!(texts.len(), 2);
    assert!(texts[0].contains("a=t,i=100") && texts[0].contains("AQID"));
    assert!(texts[1].contains("a=p,i=100,p=1") && texts[1].contains("\x1b[3;2H"));
    // Scrolling only moves the placement.
    r.app.list_offset = 1;
    let c = r.place_thumbnails(screen);
    assert!(matches!(&c[..], [Command::Write(s)] if s.contains("a=d,d=i,i=100,p=1")));
    r.app.list_offset = 0;
    let c = r.place_thumbnails(screen);
    assert!(matches!(&c[..], [Command::Write(s)] if s.contains("a=p,i=100,p=1")));
    // Off the list the placement goes, and a new list frees the image.
    r.app.view = View::Details;
    assert_eq!(r.place_thumbnails(screen).len(), 1);
    let c = r.on_message(Msg::Results(Ok(page(1, 1, 1))));
    assert!(matches!(&c[..], [Command::Write(s)] if s.contains("d=I,i=100")));
    assert_eq!(r.covers.thumb_next_id, 100);
}

#[test]
fn small_or_plain_terminals_show_no_thumbnails() {
    let mut r = runner(false);
    r.on_message(Msg::Results(Ok(page(3, 1, 1))));
    assert!(r.place_thumbnails(Screen::new(Some((11, 24)), None)).is_empty());
    assert!(r.place_thumbnails(Screen::new(Some((80, 8)), None)).is_empty());
    r.settings.graphics = false;
    assert!(r.place_thumbnails(Screen::new(Some((80, 24)), None)).is_empty());
}

#[test]
fn the_poster_is_painted_and_removed() {
    let mut r = runner(false);
    r.on_message(Msg::Details(Ok(details(1)), nothing_local()));
    r.app.view = View::Details;
    let screen = Screen::new(Some((120, 40)), None);
    assert!(r.render_poster(screen).is_empty());
    let c = r.on_message(Msg::Poster { anime: AnimeId("a".to_string()), decoded: true });
    assert!(matches!(&c[..], [Command::KeepPoster]));
    let c = r.render_poster(screen);
    let rect = match &c[..] {
        [Command::PaintPoster { rect, width, height }] => {
            assert_eq!(*width, rect.cols as u32 * 8);
            assert_eq!(*height, rect.rows as u32 * 16);
            *rect
        }
        other => panic!("{other:?}"),
    };
    let c = r.covers.on_poster_painted(&[1, 2, 3], rect);
    assert!(matches!(&c[..], [Command::Write(a), Command::Write(b)] if a.contains("d=i,i=7") && b.contains("AQID")));
    assert!(r.render_poster(screen).is_empty());
    // Another size: painted again.
    assert_eq!(r.render_poster(Screen::new(Some((70, 24)), None)).len(), 1);
    r.app.view = View::Episodes;
    let c = r.render_poster(screen);
    assert!(matches!(&c[..], [Command::Write(s)] if s.contains("d=i,i=7")));
    assert!(r.render_poster(screen).is_empty());
    // A poster for another title is not kept.
    let c = r.on_message(Msg::Poster { anime: AnimeId("b".to_string()), decoded: true });
    assert!(c.is_empty());
}

#[test]
fn messages_age_and_a_finished_player_ends() {
    let mut r = runner(true);
    let c = resolved(&mut r, vec![source("a")], false);
    begin(&mut r, c, 0.0);
    r.on_player_started(Ok(()), false);
    let c = r.on_tick(true, 0);
    assert!(c.iter().any(|c| matches!(c, Command::StopPlayer)));
    assert_eq!(r.app.status.as_deref(), Some("finished"));
    for _ in 0..20 {
        r.on_tick(false, 0);
    }
    assert_eq!(r.app.status, None);
}
