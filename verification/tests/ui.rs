use anime_tui::app::run::covers::{current_video_rect, Screen};
use anime_tui::app::{App, SortMode, View};
use anime_tui::ui::{
    browse_body, cell_pixel_size, count_visible_rows, empty_message, footer_text, header_text,
    list_title, meta_area, player_text, poster_geometry, poster_rect, seek_prompt, video_rect,
    Rect, WindowSize, MIN_INFO_COLS, MIN_POSTER_COLS,
};

#[test]
fn video_rect_matches_player_layout() {
    // 80x24: header row 0, footer row 23, progress row 22, video rows 1..=21.
    let area = Rect::new(0, 0, 80, 24);
    let r = video_rect(area, false, None);
    assert_eq!(r.top, 1);
    assert_eq!(r.rows, 21);
    assert_eq!(r.cols, 80);
    // The video surface must not overlap the progress row (22) or footer (23).
    assert_eq!(r.top + r.rows, 22);
}

#[test]
fn poster_geometry_is_responsive() {
    // Too small → no poster.
    assert!(poster_geometry(Rect::new(0, 0, 40, 20), 1, 2).is_none());
    assert!(poster_geometry(Rect::new(0, 0, 120, 8), 1, 2).is_none());

    // Wide body → sizeable poster, capped to ~55% and leaving room for info.
    let big = poster_geometry(Rect::new(0, 0, 200, 50), 1, 2).unwrap();
    assert!(big.width >= MIN_POSTER_COLS);
    assert!(big.width <= 200 * 55 / 100);
    assert!(200 - big.width - 2 >= MIN_INFO_COLS); // info column stays readable
    assert!(big.height <= 50); // never overflows the body vertically

    // Growing the terminal grows the poster (responsive).
    let small = poster_geometry(Rect::new(0, 0, 80, 24), 1, 2).unwrap();
    assert!(big.width >= small.width);
}

#[test]
fn fullscreen_video_fills_the_terminal() {
    let window = Some(WindowSize { columns: 80, rows: 24, width: 800, height: 480 });
    let r = current_video_rect(Screen::new(None, window), true);
    assert_eq!((r.left, r.top, r.cols, r.rows), (0, 0, 80, 24));
    assert_eq!((r.pixel_width, r.pixel_height), (Some(800), Some(480)));
    let r = current_video_rect(Screen::new(Some((80, 24)), window), false);
    assert_eq!((r.top, r.rows), (1, 21));
    assert_eq!((r.pixel_width, r.pixel_height), (Some(800), Some(420)));
}

#[test]
fn tiny_terminals_have_some_surface_inside() {
    for rows in 0..4 {
        let r = video_rect(Rect::new(0, 0, 10, rows), false, None);
        assert!(r.top + r.rows <= rows);
        assert!(r.left + r.cols <= 10);
    }
}

#[test]
fn the_screen_falls_back_to_eighty_by_twenty_four() {
    let s = Screen::new(None, None);
    assert_eq!((s.cols, s.rows), (80, 24));
}

#[test]
fn the_browse_body_lies_between_header_and_footer() {
    let body = browse_body(Rect::new(0, 0, 100, 30));
    assert_eq!((body.x, body.y, body.width, body.height), (0, 1, 100, 28));
}

#[test]
fn at_least_one_row_is_visible() {
    assert_eq!(count_visible_rows(0), 1);
    assert_eq!(count_visible_rows(8), 1);
    assert_eq!(count_visible_rows(9), 1);
    assert_eq!(count_visible_rows(14), 2);
    assert_eq!(count_visible_rows(24), 4);
}

#[test]
fn cells_are_measured_from_the_window() {
    let ws = WindowSize { columns: 100, rows: 50, width: 1000, height: 1000 };
    assert_eq!(cell_pixel_size(Some(ws)), (10, 20));
    let r = poster_rect(Rect::new(0, 0, 100, 50), true, Some(ws));
    assert!(!r.is_empty());
    assert_eq!(r.pixel_width, Some(r.cols * 10));
    assert_eq!(r.pixel_height, Some(r.rows * 20));
    assert!(poster_rect(Rect::new(0, 0, 100, 50), false, Some(ws)).is_empty());
    assert!(poster_rect(Rect::new(0, 0, 100, 2), true, Some(ws)).is_empty());
}

#[test]
fn the_info_column_starts_right_of_the_poster() {
    let body = Rect::new(0, 1, 120, 40);
    let poster = poster_geometry(body, 1, 2);
    let meta = meta_area(body, poster);
    let p = poster.unwrap();
    assert!(meta.x >= p.x + p.width);
    assert_eq!(meta.x + meta.width, body.x + body.width);
    let all = meta_area(body, None);
    assert_eq!((all.x, all.width), (body.x, body.width));
}

#[test]
fn screens_have_titles_and_hints() {
    let app = App::default();
    assert_eq!(
        header_text(&app),
        " anime-tui   [ Home ]  Favourites   History  0/0 · relevance"
    );
    assert!(!footer_text(&app).is_empty());
    assert!(!list_title(View::Favourites).is_empty());
    assert!(!empty_message(View::History, false).is_empty());
    assert!(seek_prompt("1:3").contains("1:3"));
    assert!(!player_text(None, None).is_empty());
}

#[test]
fn a_rect_stays_in_range() {
    let r = Rect::new(65530, 0, 100, 10);
    assert_eq!((r.x, r.width), (65530, 5));
}

#[test]
fn the_header_counts_what_is_shown() {
    let mut app = App::default();
    app.total = 97;
    app.sort = SortMode::YearDesc;
    app.loading_more = true;
    assert!(header_text(&app).ends_with(" 0/97 · newest · loading more"));
    app.view = View::Favourites;
    assert_eq!(header_text(&app), " anime-tui     Home  [ Favourites ]  History ");
    app.view = View::History;
    assert_eq!(header_text(&app), " anime-tui     Home    Favourites  [ History ]");
    app.view = View::Player;
    assert_eq!(header_text(&app), " anime-tui — Player ");
    app.view = View::Downloaded;
    assert_eq!(header_text(&app), " anime-tui — Downloaded ");
}
