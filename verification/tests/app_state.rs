use anime_tui::app::{App, Effect, EpisodeRow, SortMode, StatusLevel, View};
use anime_tui::input::Action;
use anime_tui::models::{
    AnimeDetails, AnimeId, AnimeSummary, CatalogPage, Episode, EpisodeId,
};

fn seed_results(app: &mut App) {
    app.set_results(vec![AnimeSummary {
        id: AnimeId("a1".into()),
        title: "T".into(),
        poster_url: None,
        year: None,
    }]);
}

fn seed_details(app: &mut App) {
    app.set_details(AnimeDetails {
        id: AnimeId("a1".into()),
        title: "T".into(),
        description: None,
        poster_url: None,
        genres: vec![],
        status: None,
        episodes: vec![Episode {
            id: EpisodeId("e1".into()),
            number: "1".into(),
            title: None,
            season_id: None,
        }],
    });
}

fn seed_multi_season(app: &mut App) {
    let ep = |id: &str, num: &str, season: u32| Episode {
        id: EpisodeId(id.into()),
        number: num.into(),
        title: None,
        season_id: Some(season),
    };
    app.set_details(AnimeDetails {
        id: AnimeId("a1".into()),
        title: "T".into(),
        description: None,
        poster_url: None,
        genres: vec![],
        status: None,
        // Already sorted by (season, number) as the provider guarantees.
        episodes: vec![
            ep("s1e1", "1", 10),
            ep("s1e2", "2", 10),
            ep("s2e1", "1", 20),
            ep("s2e2", "2", 20),
        ],
    });
}

#[test]
fn multi_season_starts_fully_folded() {
    let mut app = App::default();
    seed_multi_season(&mut app);
    let rows = app.episode_rows();
    // Only the two season headers are visible; both collapsed.
    assert_eq!(rows.len(), 2);
    assert!(matches!(rows[0], EpisodeRow::Season { rank: 1, expanded: false, episode_count: 2, .. }));
    assert!(matches!(rows[1], EpisodeRow::Season { rank: 2, expanded: false, episode_count: 2, .. }));
    // Cursor starts on the first season header (no episode selected).
    assert_eq!(app.episodes_state.selected(), Some(0));
    assert_eq!(app.selected_episode_index(), None);
}

#[test]
fn selecting_season_header_toggles_fold() {
    let mut app = App::default();
    seed_multi_season(&mut app);
    app.goto(View::Episodes);
    // Cursor starts on the first season header (row 0); expand it.
    assert_eq!(app.episodes_state.selected(), Some(0));
    assert_eq!(app.on_action(Action::Select), Effect::Nothing);
    let rows = app.episode_rows();
    assert!(matches!(rows[0], EpisodeRow::Season { rank: 1, expanded: true, .. }));
    assert!(matches!(rows[1], EpisodeRow::Episode { index: 0, .. }));
    assert!(matches!(rows[2], EpisodeRow::Episode { index: 1, .. }));
    // Selecting it again folds it back to just headers.
    assert_eq!(app.on_action(Action::Select), Effect::Nothing);
    assert_eq!(app.episode_rows().len(), 2);
}

#[test]
fn playing_episode_in_collapsed_season_expands_it() {
    let mut app = App::default();
    seed_multi_season(&mut app);
    // Episode index 2 lives in the initially-collapsed second season.
    app.select_episode(2);
    assert_eq!(app.selected_episode_index(), Some(2));
    assert!(app.expanded_seasons.contains(&20));
}

#[test]
fn select_result_requests_details() {
    let mut app = App::default();
    seed_results(&mut app);
    let eff = app.on_action(Action::Select);
    assert_eq!(app.view, View::Details);
    assert_eq!(eff, Effect::LoadDetails(AnimeId("a1".into())));
}

#[test]
fn select_without_results_is_noop() {
    let mut app = App::default();
    assert_eq!(app.on_action(Action::Select), Effect::Nothing);
    assert_eq!(app.view, View::Home);
}

#[test]
fn drill_to_play_then_back_unwinds() {
    let mut app = App::default();
    seed_results(&mut app);
    app.on_action(Action::Select); // -> Details
    seed_details(&mut app);
    assert_eq!(app.on_action(Action::Select), Effect::Nothing); // -> Episodes
    assert_eq!(app.view, View::Episodes);
    let eff = app.on_action(Action::Select); // -> Player
    assert_eq!(app.view, View::Player);
    assert_eq!(eff, Effect::Play(AnimeId("a1".into()), EpisodeId("e1".into())));
    app.on_action(Action::Back);
    assert_eq!(app.view, View::Episodes);
}

#[test]
fn source_selection_flow() {
    let mut app = App::default();
    app.set_sources(vec!["vidmoly (VF)".into(), "sibnet (VOSTFR)".into()]);
    assert_eq!(app.view, View::Sources);
    assert_eq!(app.source_state.selected(), Some(0));
    let eff = app.on_action(Action::Select);
    assert_eq!(eff, Effect::SelectSource(0));
    app.on_action(Action::Down);
    let eff = app.on_action(Action::Select);
    assert_eq!(eff, Effect::SelectSource(1));
}

#[test]
fn picker_download_key_targets_highlighted_source() {
    let mut app = App::default();
    app.set_sources(vec!["vidmoly (VF)".into(), "sibnet (VF)".into()]);
    assert_eq!(app.view, View::Sources);
    // Enter plays the highlighted source; `d` downloads it instead.
    assert_eq!(app.on_action(Action::Select), Effect::SelectSource(0));
    app.on_action(Action::Down);
    assert_eq!(app.on_action(Action::Download), Effect::DownloadSource(1));
}

#[test]
fn tab_cycles_home_favourites_history_downloaded() {
    let mut app = App::default();
    let eff = app.on_action(Action::Tab);
    assert_eq!(app.view, View::Favourites);
    assert_eq!(eff, Effect::LoadFavourites);
    let eff = app.on_action(Action::Tab);
    assert_eq!(app.view, View::History);
    assert_eq!(eff, Effect::LoadHistory);
    let eff = app.on_action(Action::Tab);
    assert_eq!(app.view, View::Downloaded);
    assert_eq!(eff, Effect::LoadDownloads);
    let eff = app.on_action(Action::Tab);
    assert_eq!(app.view, View::Home);
    assert!(matches!(eff, Effect::Search(_)));
}

#[test]
fn replay_and_download_actions_target_selected_episode() {
    let mut app = App::default();
    seed_details(&mut app);
    app.goto(View::Episodes); // single-season: row 0 is episode 0

    let eff = app.on_action(Action::Replay);
    assert_eq!(app.view, View::Player);
    assert_eq!(eff, Effect::Replay(AnimeId("a1".into()), EpisodeId("e1".into())));

    app.goto(View::Episodes);
    assert_eq!(
        app.on_action(Action::Download),
        Effect::Download(AnimeId("a1".into()), EpisodeId("e1".into()))
    );
    assert_eq!(
        app.on_action(Action::RemoveDownload),
        Effect::RemoveDownload(AnimeId("a1".into()), EpisodeId("e1".into()))
    );
}

#[test]
fn replay_outside_episodes_is_noop() {
    let mut app = App::default();
    assert_eq!(app.on_action(Action::Replay), Effect::Nothing);
    assert_eq!(app.view, View::Home);
}

#[test]
fn toggle_favourite_flips_flag_and_returns_effect() {
    let mut app = App::default();
    seed_results(&mut app);
    app.on_action(Action::Select); // -> Details
    seed_details(&mut app);
    let eff = app.on_action(Action::ToggleFavourite);
    assert!(app.is_favourite);
    assert_eq!(eff, Effect::ToggleFavourite(AnimeId("a1".into()), "T".into()));
    app.on_action(Action::ToggleFavourite);
    assert!(!app.is_favourite);
}

#[test]
fn search_enters_input_mode() {
    let mut app = App::default();
    app.on_action(Action::Search);
    assert_eq!(app.view, View::Search);
    assert!(app.input_mode);
}

#[test]
fn navigation_wraps() {
    let mut app = App::default();
    seed_results(&mut app);
    app.on_action(Action::Down);
    assert_eq!(app.results_state.selected(), Some(0));
    app.on_action(Action::Up);
    assert_eq!(app.results_state.selected(), Some(0));
}

#[test]
fn quit_sets_flag() {
    let mut app = App::default();
    app.on_action(Action::Quit);
    assert!(app.should_quit);
}

#[test]
fn status_auto_clears_after_ttl() {
    let mut app = App::default();
    app.set_status("hello");
    assert_eq!(app.status.as_deref(), Some("hello"));
    assert_eq!(app.status_level, StatusLevel::Info);
    // Tick out its whole lifetime; it should be gone and back to Info.
    for _ in 0..App::STATUS_TTL_TICKS {
        app.tick_status();
    }
    assert!(app.status.is_none());
    assert_eq!(app.status_level, StatusLevel::Info);
}

#[test]
fn set_error_marks_error_level() {
    let mut app = App::default();
    app.set_error("boom");
    assert_eq!(app.status.as_deref(), Some("boom"));
    assert_eq!(app.status_level, StatusLevel::Error);
    assert!(app.status_ticks > 0);
}

fn page(ids: &[&str], p: u32, total_pages: u32, total: u32) -> CatalogPage {
    CatalogPage {
        items: ids
            .iter()
            .map(|id| AnimeSummary {
                id: AnimeId((*id).into()),
                title: (*id).to_string(),
                poster_url: None,
                year: None,
            })
            .collect(),
        page: p,
        total_pages,
        total,
    }
}

#[test]
fn set_page_replace_then_append() {
    let mut app = App::default();
    app.set_page(page(&["a", "b"], 1, 2, 4), false);
    assert_eq!(app.results.len(), 2);
    assert_eq!(app.all_results.len(), 2);
    assert_eq!(app.total, 4);
    assert_eq!(app.total_pages, 2);
    assert_eq!(app.results_state.selected(), Some(0));

    // Appending the next page grows the accumulation, keeps selection.
    app.results_state.select(Some(1));
    app.set_page(page(&["c", "d"], 2, 2, 4), true);
    assert_eq!(app.all_results.len(), 4);
    assert_eq!(app.results.len(), 4);
    assert_eq!(app.page, 2);
    assert_eq!(app.results_state.selected(), Some(1)); // not reset on append
}

#[test]
fn filter_narrows_and_clamps_selection() {
    let mut app = App::default();
    app.set_page(page(&["Naruto", "Bleach", "Nana"], 1, 1, 3), false);
    app.results_state.select(Some(2)); // "Nana"
    app.filter = "na".into();
    app.recompute_results();
    // "Naruto" and "Nana" match (case-insensitive).
    assert_eq!(app.results.len(), 2);
    // Selection clamped into the shorter list.
    assert!(app.results_state.selected().unwrap() < 2);
    app.clear_filter();
    assert_eq!(app.results.len(), 3);
}

#[test]
fn cycle_sort_advances_and_requests_requery() {
    let mut app = App::default();
    app.goto(View::Home);
    app.query = "demon".into();
    assert_eq!(app.sort, SortMode::Relevance);
    let eff = app.on_action(Action::CycleSort);
    assert_eq!(app.sort, SortMode::TitleAsc);
    assert_eq!(eff, Effect::Search("demon".into()));
}

#[test]
fn filter_action_enters_capture_without_changing_view() {
    let mut app = App::default();
    app.goto(View::Home);
    app.on_action(Action::Filter);
    assert!(app.filtering);
    assert!(app.input_mode);
    assert_eq!(app.view, View::Home);
}

#[test]
fn sort_mode_param_and_cycle() {
    assert_eq!(SortMode::YearDesc.param(), "year_desc");
    assert_eq!(SortMode::TitleAsc.param(), "title_asc");
    // next() visits all seven and wraps.
    let mut s = SortMode::Relevance;
    let mut seen = 1;
    loop {
        s = s.next();
        if s == SortMode::Relevance {
            break;
        }
        seen += 1;
    }
    assert_eq!(seen, 7);
}
