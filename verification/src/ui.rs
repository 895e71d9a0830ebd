//! What is drawn where: the layout of the screen and the texts on it. The one rule
//! that keeps embedded playback working: in [`View::Player`] we reserve a rectangle and
//! (for embedded output) draw nothing inside it, so mpv's Kitty output is not
//! overpainted by TUI redraws.

use crate::app;
use crate::app::rows;
use crate::app::{App, AppModel, EpisodeRow, PlaybackState, View};
use crate::models::{AnimeDetails, AnimeSummary, Episode};
use crate::number;
use crate::player::kitty::CellRect;
use crate::seconds;
use crate::seconds::Seconds;
use crate::text;
use ratatui::layout::{Constraint, Layout};
use vstd::prelude::*;
use vstd::view::View as _;

verus! {

/// A rectangle of terminal cells.
#[derive(Debug, Clone, Copy, PartialEq, Eq, Structural)]
pub struct Rect {
    pub x: u16,
    pub y: u16,
    pub width: u16,
    pub height: u16,
}

impl Rect {
    /// The rectangle ends within the range of cell coordinates.
    pub open spec fn valid(self) -> bool {
        self.x + self.width <= u16::MAX && self.y + self.height <= u16::MAX
    }

    /// The rectangle lies inside another one.
    pub open spec fn inside(self, outer: Rect) -> bool {
        &&& outer.x <= self.x
        &&& outer.y <= self.y
        &&& self.x + self.width <= outer.x + outer.width
        &&& self.y + self.height <= outer.y + outer.height
    }

    /// A rectangle, made smaller where it would leave the range of cell coordinates.
    pub fn new(x: u16, y: u16, width: u16, height: u16) -> (r: Rect)
        ensures
            r.valid(),
            r.x == x,
            r.y == y,
            r.width == (if x + width > u16::MAX {
                (u16::MAX - x) as u16
            } else {
                width
            }),
            r.height == (if y + height > u16::MAX {
                (u16::MAX - y) as u16
            } else {
                height
            }),
    {
        Rect {
            x,
            y,
            width: if width > u16::MAX - x {
                u16::MAX - x
            } else {
                width
            },
            height: if height > u16::MAX - y {
                u16::MAX - y
            } else {
                height
            },
        }
    }
}

/// How high a row of the layout is.
#[derive(Debug, Clone, Copy, PartialEq, Eq, Structural)]
pub enum RowSize {
    /// Exactly this high.
    Length(u16),
    /// This high at least, and as high as there is room.
    Min(u16),
}

/// The heights that rows need together.
pub open spec fn needed(sizes: Seq<RowSize>) -> int
    decreases sizes.len(),
{
    if sizes.len() == 0 {
        0
    } else {
        needed(sizes.drop_last()) + match sizes.last() {
            RowSize::Length(n) => n,
            RowSize::Min(n) => n,
        }
    }
}

/// How many rows take what room is left.
pub open spec fn growing(sizes: Seq<RowSize>) -> nat
    decreases sizes.len(),
{
    if sizes.len() == 0 {
        0
    } else {
        growing(sizes.drop_last()) + (if sizes.last() is Min {
            1nat
        } else {
            0nat
        })
    }
}

/// The height of a row when all of them fit and one takes what room is left.
pub open spec fn row_height(sizes: Seq<RowSize>, height: u16, i: int) -> int {
    match sizes[i] {
        RowSize::Length(n) => n as int,
        RowSize::Min(n) => n + height - needed(sizes),
    }
}

/// How far below the top a row begins.
pub open spec fn row_offset(sizes: Seq<RowSize>, height: u16, i: int) -> int
    decreases i,
{
    if i <= 0 {
        0
    } else {
        row_offset(sizes, height, i - 1) + row_height(sizes, height, i - 1)
    }
}

/// `ratatui::layout::Layout::vertical` and `Layout::split`. Every row is as wide as the
/// area and lies inside it. When all rows fit and exactly one of them grows, they stand
/// below one another without gaps, each as high as asked, and the growing one takes the
/// rest. What the solver gives up when they do not fit depends on the order of a hash
/// map and is left unstated.
#[verifier::external_body]
fn split_rows(area: Rect, sizes: &Vec<RowSize>) -> (r: Vec<Rect>)
    requires
        area.valid(),
        forall|i: int|
            0 <= i < sizes@.len() ==> match #[trigger] sizes@[i] {
                RowSize::Length(n) => n <= i16::MAX,
                RowSize::Min(n) => n <= i16::MAX,
            },
    ensures
        r@.len() == sizes@.len(),
        forall|i: int|
            0 <= i < r@.len() ==> (#[trigger] r@[i]).inside(area) && r@[i].x == area.x
                && r@[i].width == area.width,
        growing(sizes@) == 1 && needed(sizes@) <= area.height ==> forall|i: int|
            0 <= i < r@.len() ==> (#[trigger] r@[i]).y == area.y + row_offset(
                sizes@,
                area.height,
                i,
            ) && r@[i].height == row_height(sizes@, area.height, i),
{
    let sizes = sizes.iter().map(|s| match s {
        RowSize::Length(n) => Constraint::Length(*n),
        RowSize::Min(n) => Constraint::Min(*n),
    });
    let area = ratatui::layout::Rect::new(area.x, area.y, area.width, area.height);
    let rows = Layout::vertical(sizes).split(area);
    rows.iter().map(|r| Rect { x: r.x, y: r.y, width: r.width, height: r.height }).collect()
}

/// The rows of the screen: a header of one row, the body, and a footer of one row.
pub fn screen_rows(area: Rect) -> (r: (Rect, Rect, Rect))
    requires
        area.valid(),
    ensures
        r.0.inside(area) && r.1.inside(area) && r.2.inside(area),
        r.1.x == area.x && r.1.width == area.width,
        area.height >= 3 ==> {
            &&& r.0 == (Rect { height: 1, ..area })
            &&& r.1 == (Rect {
                y: (area.y + 1) as u16,
                height: (area.height - 2) as u16,
                ..area
            })
            &&& r.2 == (Rect { y: (area.y + area.height - 1) as u16, height: 1, ..area })
        },
{
    let mut sizes: Vec<RowSize> = Vec::new();
    sizes.push(RowSize::Length(1));  // header
    sizes.push(RowSize::Min(1));  // body
    sizes.push(RowSize::Length(1));  // footer
    let rows = split_rows(area, &sizes);
    proof {
        let s = sizes@;
        assert(s.drop_last() =~= seq![RowSize::Length(1), RowSize::Min(1)]);
        assert(s.drop_last().drop_last() =~= seq![RowSize::Length(1)]);
        assert(s.drop_last().drop_last().drop_last() =~= Seq::<RowSize>::empty());
        reveal_with_fuel(needed, 4);
        reveal_with_fuel(growing, 4);
        reveal_with_fuel(row_offset, 4);
        assert(rows@[0].inside(area) && rows@[1].inside(area) && rows@[2].inside(area));
    }
    (rows[0], rows[1], rows[2])
}

/// The rows of the player's body: the video surface and a progress bar of one row.
pub fn player_rows(body: Rect) -> (r: (Rect, Rect))
    requires
        body.valid(),
    ensures
        r.0.inside(body) && r.1.inside(body),
        r.0.x == body.x && r.0.width == body.width,
        body.height >= 2 ==> {
            &&& r.0 == (Rect { height: (body.height - 1) as u16, ..body })
            &&& r.1 == (Rect { y: (body.y + body.height - 1) as u16, height: 1, ..body })
        },
{
    let mut sizes: Vec<RowSize> = Vec::new();
    sizes.push(RowSize::Min(1));  // video surface
    sizes.push(RowSize::Length(1));  // progress bar
    let rows = split_rows(body, &sizes);
    proof {
        let s = sizes@;
        assert(s.drop_last() =~= seq![RowSize::Min(1)]);
        assert(s.drop_last().drop_last() =~= Seq::<RowSize>::empty());
        reveal_with_fuel(needed, 3);
        reveal_with_fuel(growing, 3);
        reveal_with_fuel(row_offset, 3);
        assert(rows@[0].inside(body) && rows@[1].inside(body));
    }
    (rows[0], rows[1])
}

/// The area of the browse list.
pub fn browse_body(area: Rect) -> (r: Rect)
    requires
        area.valid(),
    ensures
        r.inside(area),
        r.x == area.x && r.width == area.width,
        area.height >= 3 ==> r.y == area.y + 1 && r.height == area.height - 2,
{
    screen_rows(area).1
}

/// How high a row of the browse list is.
pub const ROW_H: u16 = 5;

/// How wide the cover of a browse row is.
pub const THUMB_COLS: u16 = 8;

/// How many rows of the browse list a terminal of that height shows: the body has a
/// border around it, and at least one row counts as shown.
pub open spec fn visible_rows(rows: u16) -> usize {
    let inner = if rows >= 4 {
        (rows - 4) / (ROW_H as int)
    } else {
        0
    };
    if inner < 1 {
        1
    } else {
        inner as usize
    }
}

/// How many rows of the browse list a terminal of that height shows.
pub fn count_visible_rows(rows: u16) -> (r: usize)
    ensures
        r == visible_rows(rows),
{
    let body = browse_body(Rect::new(0, 0, 1, rows));
    let inner: u16 = if body.height > 2 {
        body.height - 2
    } else {
        0
    };
    let n: u16 = inner / ROW_H;
    if n < 1 {
        1
    } else {
        n as usize
    }
}

/// The screen's name.
pub open spec fn view_name(v: View) -> Seq<char> {
    match v {
        View::Home => "Home"@,
        View::Search => "Search"@,
        View::Sources => "Sources"@,
        View::Details => "Details"@,
        View::Episodes => "Episodes"@,
        View::Favourites => "Favourites"@,
        View::History => "History"@,
        View::Downloaded => "Downloaded"@,
        View::Player => "Player"@,
    }
}

/// How much of the catalogue is shown, and in which order.
pub open spec fn catalogue_state(s: AppModel) -> Seq<char> {
    " "@ + number::digits(s.results.len()) + "/"@ + number::digits(s.total as nat) + " · "@
        + s.sort.shown() + (if s.loading_more {
        " · loading more"@
    } else {
        Seq::empty()
    })
}

/// The line at the top.
pub open spec fn header(s: AppModel) -> Seq<char> {
    match s.view {
        View::Home | View::Search => " anime-tui   [ Home ]  Favourites   History "@
            + catalogue_state(s),
        View::Favourites => " anime-tui     Home  [ Favourites ]  History "@,
        View::History => " anime-tui     Home    Favourites  [ History ]"@,
        _ => " anime-tui — "@ + view_name(s.view) + " "@,
    }
}

/// The line at the top: the main lists with the current one marked, or the name of the
/// screen. Of the catalogue it shows how many results are shown of how many, and their
/// order.
pub fn header_text(app: &App) -> (r: String)
    ensures
        r@ == header(app@),
{
    match app.view {
        View::Home | View::Search => {
            let mut s = " anime-tui   [ Home ]  Favourites   History ".to_string();
            let mut state = " ".to_string();
            state.append(number::decimal(app.results.len() as u64).as_str());
            state.append("/");
            state.append(number::decimal(app.total as u64).as_str());
            state.append(" · ");
            state.append(app.sort.label());
            if app.loading_more {
                state.append(" · loading more");
            }
            assert(state@ =~= catalogue_state(app@));
            s.append(state.as_str());
            s
        },
        View::Favourites => " anime-tui     Home  [ Favourites ]  History ".to_string(),
        View::History => " anime-tui     Home    Favourites  [ History ]".to_string(),
        _ => {
            let name = match app.view {
                View::Sources => "Sources",
                View::Details => "Details",
                View::Episodes => "Episodes",
                View::Downloaded => "Downloaded",
                _ => "Player",
            };
            let mut s = text::cat(" anime-tui — ", name);
            s.append(" ");
            s
        },
    }
}

/// The keys that a screen offers.
pub open spec fn hint(v: View) -> Seq<char> {
    match v {
        View::Home
        | View::Search => " / search · j/k move · Enter select · Tab switch tab · q quit"@,
        View::Favourites | View::History | View::Downloaded => {
            " j/k move · Enter select · Tab switch tab · Esc back · q quit"@
        },
        View::Details => " Enter episodes · f toggle favourite · Esc back · q quit"@,
        View::Episodes => " Enter play / fold season · j/k move · Esc back · q quit"@,
        View::Sources => " Enter select source · j/k move · Esc back"@,
        View::Player => {
            " Space pause · ,/. ±5s · h/l ±10s · i skip intro · g seek · o window · f fullscreen · n/p ep · q stop"@
        },
    }
}

/// The line at the bottom.
pub open spec fn footer(s: AppModel) -> Seq<char> {
    if s.loading {
        " loading... "@
    } else if s.input_mode {
        " search: "@ + s.search_input + "|"@
    } else {
        match s.status {
            Some(m) => " "@ + m + "  ·  "@ + text::trim(hint(s.view)),
            None => hint(s.view),
        }
    }
}

fn hint_text(view: View) -> (r: &'static str)
    ensures
        r@ == hint(view),
{
    match view {
        View::Home
        | View::Search => " / search · j/k move · Enter select · Tab switch tab · q quit",
        View::Favourites | View::History | View::Downloaded => {
            " j/k move · Enter select · Tab switch tab · Esc back · q quit"
        },
        View::Details => " Enter episodes · f toggle favourite · Esc back · q quit",
        View::Episodes => " Enter play / fold season · j/k move · Esc back · q quit",
        View::Sources => " Enter select source · j/k move · Esc back",
        View::Player => {
            " Space pause · ,/. ±5s · h/l ±10s · i skip intro · g seek · o window · f fullscreen · n/p ep · q stop"
        },
    }
}

/// The line at the bottom: what is going on, the search box, or the keys with the status
/// before them.
pub fn footer_text(app: &App) -> (r: String)
    ensures
        r@ == footer(app@),
{
    if app.loading {
        return " loading... ".to_string();
    }
    if app.input_mode {
        let mut s = text::cat(" search: ", app.search_input.as_str());
        s.append("|");
        return s;
    }
    let keys = hint_text(app.view);
    match &app.status {
        Some(m) => {
            let mut s = text::cat(" ", m.as_str());
            s.append("  ·  ");
            s.append(text::str_trimmed(keys).as_str());
            s
        },
        None => keys.to_string(),
    }
}

/// The title of a browse list's frame.
pub fn list_title(view: View) -> (r: &'static str)
    ensures
        r@ == (match view {
            View::Favourites => " Favourites "@,
            View::History => " History "@,
            _ => " Results "@,
        }),
{
    match view {
        View::Favourites => " Favourites ",
        View::History => " History ",
        _ => " Results ",
    }
}

/// What a browse list says while it is empty.
pub fn empty_message(view: View, input_mode: bool) -> (r: &'static str)
    ensures
        r@ == (match view {
            View::Favourites => "No favourites yet. Press `f` on a details page to add one."@,
            View::History => "No history yet. Watch an episode to record it here."@,
            _ => if input_mode {
                "Type a query and press Enter."@
            } else {
                "Press `/` to search, or Tab to browse Favourites / History."@
            },
        }),
{
    match view {
        View::Favourites => "No favourites yet. Press `f` on a details page to add one.",
        View::History => "No history yet. Watch an episode to record it here.",
        _ => if input_mode {
            "Type a query and press Enter."
        } else {
            "Press `/` to search, or Tab to browse Favourites / History."
        },
    }
}

/// The line of a title in a browse list.
pub open spec fn result_line(a: AnimeSummary) -> Seq<char> {
    match a.year {
        Some(y) => a.title@ + " ("@ + number::digits(y as nat) + ")"@,
        None => a.title@,
    }
}

/// The line of a title in a browse list: the title with its year.
pub fn result_text(a: &AnimeSummary) -> (r: String)
    ensures
        r@ == result_line(*a),
{
    match a.year {
        Some(y) => {
            let mut s = text::cat(a.title.as_str(), " (");
            s.append(number::decimal(y as u64).as_str());
            s.append(")");
            s
        },
        None => a.title.clone(),
    }
}

/// The lines of a browse list.
pub fn list_lines(app: &App) -> (r: Vec<String>)
    ensures
        text::texts(r@) == app@.results.map_values(|a: AnimeSummary| result_line(a)),
{
    let ghost all = app@.results.map_values(|a: AnimeSummary| result_line(a));
    let mut out: Vec<String> = Vec::new();
    let mut i: usize = 0;
    while i < app.results.len()
        invariant
            i <= app.results@.len(),
            all == app@.results.map_values(|a: AnimeSummary| result_line(a)),
            text::texts(out@) == all.take(i as int),
        decreases app.results@.len() - i,
    {
        text::put(&mut out, result_text(&app.results[i]));
        assert(all.take(i + 1) =~= all.take(i as int).push(all[i as int]));
        i = i + 1;
    }
    assert(all.take(all.len() as int) =~= all);
    out
}

/// The lines of the details screen.
pub open spec fn details_screen(d: AnimeDetails, favourite: bool) -> Seq<Seq<char>> {
    let top = seq![
        d.title@ + (if favourite {
            " [*]"@
        } else {
            " [ ]"@
        }),
        ""@,
    ];
    let genres = if d.genres@.len() == 0 {
        Seq::empty()
    } else {
        seq!["Genres: "@ + text::join(text::texts(d.genres@), ", "@)]
    };
    let status = match d.status {
        Some(s) => seq!["Status: "@ + s@],
        None => Seq::empty(),
    };
    let description = match d.description {
        Some(s) => seq![s@],
        None => Seq::empty(),
    };
    top + genres + status + seq!["Episodes: "@ + number::digits(d.episodes@.len()), ""@]
        + description + seq![
        ""@,
        "Enter = view episodes  f = toggle favourite  Esc = back"@,
    ]
}

/// Texts one after another with a separator between them.
fn joined(parts: &Vec<String>, sep: &str) -> (r: String)
    ensures
        r@ == text::join(text::texts(parts@), sep@),
{
    let ghost all = text::texts(parts@);
    let mut out = String::new();
    let mut i: usize = 0;
    while i < parts.len()
        invariant
            i <= parts@.len(),
            all == text::texts(parts@),
            out@ == text::join(all.take(i as int), sep@),
        decreases parts@.len() - i,
    {
        if i > 0 {
            out.append(sep);
        }
        out.append(parts[i].as_str());
        assert(all.take(i + 1).drop_last() =~= all.take(i as int));
        if i == 0 {
            assert(all.take(0) =~= Seq::<Seq<char>>::empty());
            assert(out@ =~= all[0]);
        }
        i = i + 1;
    }
    assert(all.take(all.len() as int) =~= all);
    out
}

/// The lines of the details screen.
pub fn details_lines(d: &AnimeDetails, favourite: bool) -> (r: Vec<String>)
    ensures
        text::texts(r@) == details_screen(*d, favourite),
{
    let mut lines: Vec<String> = Vec::new();
    let mark = if favourite {
        " [*]"
    } else {
        " [ ]"
    };
    text::put(&mut lines, text::cat(d.title.as_str(), mark));
    text::put_str(&mut lines, "");
    if d.genres.len() > 0 {
        text::put(&mut lines, text::cat("Genres: ", joined(&d.genres, ", ").as_str()));
    }
    if let Some(status) = &d.status {
        text::put(&mut lines, text::cat("Status: ", status.as_str()));
    }
    text::put(
        &mut lines,
        text::cat("Episodes: ", number::decimal(d.episodes.len() as u64).as_str()),
    );
    text::put_str(&mut lines, "");
    if let Some(desc) = &d.description {
        text::put_str(&mut lines, desc.as_str());
    }
    text::put_str(&mut lines, "");
    text::put_str(&mut lines, "Enter = view episodes  f = toggle favourite  Esc = back");
    assert(text::texts(lines@) =~= details_screen(*d, favourite));
    lines
}

/// Where playback of an episode goes on.
pub open spec fn resume_of(positions: Map<Seq<char>, Seconds>, e: Episode) -> Seconds {
    if positions.contains_key(e.id@) {
        positions[e.id@]
    } else {
        Seconds { bits: 0 }
    }
}

/// The episode was begun.
pub open spec fn begun(positions: Map<Seq<char>, Seconds>, e: Episode) -> bool {
    resume_of(positions, e).above(seconds::ONE)
}

/// How many episodes of a season were begun.
pub open spec fn begun_count(
    positions: Map<Seq<char>, Seconds>,
    eps: Seq<Episode>,
    id: u32,
) -> nat
    decreases eps.len(),
{
    if eps.len() == 0 {
        0
    } else {
        begun_count(positions, eps.drop_last(), id) + (if rows::season_of(eps.last()) == id
            && begun(positions, eps.last()) {
            1nat
        } else {
            0nat
        })
    }
}

/// The line of an episode: its number and title, and where it goes on.
pub open spec fn episode_line(
    positions: Map<Seq<char>, Seconds>,
    e: Episode,
    indented: bool,
) -> Seq<char> {
    let named = match e.title {
        Some(t) => if t@.len() == 0 {
            e.number@
        } else {
            e.number@ + " - "@ + t@
        },
        None => e.number@,
    };
    let resume = if begun(positions, e) {
        "  ["@ + app::clock(resume_of(positions, e).whole() as nat) + "]"@
    } else {
        Seq::empty()
    };
    (if indented {
        "  "@
    } else {
        ""@
    }) + "Ep "@ + named + resume
}

/// The line of a row of the Episodes view.
pub open spec fn row_line(
    positions: Map<Seq<char>, Seconds>,
    eps: Seq<Episode>,
    row: EpisodeRow,
) -> Seq<char> {
    match row {
        EpisodeRow::Season { id, rank, expanded, episode_count } => {
            let n = begun_count(positions, eps, id);
            (if expanded {
                "▼"@
            } else {
                "▶"@
            }) + " Season "@ + number::digits(rank as nat) + "  ("@ + number::digits(
                episode_count as nat,
            ) + " ep)"@ + (if n > 0 {
                "  ▶"@ + number::digits(n)
            } else {
                Seq::empty()
            })
        },
        EpisodeRow::Episode { index, indented } => episode_line(
            positions,
            eps[index as int],
            indented,
        ),
    }
}

/// The lines of the Episodes view.
pub open spec fn episodes_screen(s: AppModel) -> Seq<Seq<char>> {
    match s.details {
        Some(d) => s.rows().map_values(
            |row: EpisodeRow| row_line(s.resume_positions, d.episodes@, row),
        ),
        None => Seq::empty(),
    }
}

fn resume_position(app: &App, e: &Episode) -> (r: Seconds)
    ensures
        r == resume_of(app@.resume_positions, *e),
{
    match app.resume_positions.get(e.id.0.as_str()) {
        Some(p) => *p,
        None => Seconds { bits: 0 },
    }
}

/// How many episodes of a season were begun — so a folded season still shows that it
/// has resume positions inside.
fn count_begun(app: &App, eps: &Vec<Episode>, id: u32) -> (r: usize)
    ensures
        r == begun_count(app@.resume_positions, eps@, id),
{
    let mut n: usize = 0;
    let mut i: usize = 0;
    while i < eps.len()
        invariant
            i <= eps@.len(),
            n <= i,
            n == begun_count(app@.resume_positions, eps@.take(i as int), id),
        decreases eps@.len() - i,
    {
        assert(eps@.take(i + 1).drop_last() =~= eps@.take(i as int));
        if rows::season(&eps[i]) == id && resume_position(app, &eps[i]).above_one() {
            n = n + 1;
        }
        i = i + 1;
    }
    assert(eps@.take(eps@.len() as int) =~= eps@);
    n
}

fn episode_text(app: &App, e: &Episode, indented: bool) -> (r: String)
    ensures
        r@ == episode_line(app@.resume_positions, *e, indented),
{
    let resume = resume_position(app, e);
    let mut s = if indented {
        "  ".to_string()
    } else {
        "".to_string()
    };
    s.append("Ep ");
    let mut named = e.number.clone();
    if let Some(t) = &e.title {
        if t.as_str().unicode_len() > 0 {
            named.append(" - ");
            named.append(t.as_str());
        }
    }
    s.append(named.as_str());
    let mut tail = String::new();
    if resume.above_one() {
        tail.append("  [");
        tail.append(app::fmt_time(resume).as_str());
        tail.append("]");
        assert(tail@ =~= "  ["@ + app::clock(resume.whole() as nat) + "]"@);
    }
    s.append(tail.as_str());
    s
}

fn season_text(app: &App, eps: &Vec<Episode>, id: u32, rank: usize, expanded: bool, count: usize) -> (r:
    String)
    ensures
        r@ == row_line(
            app@.resume_positions,
            eps@,
            EpisodeRow::Season { id, rank, expanded, episode_count: count },
        ),
{
    let n: usize = count_begun(app, eps, id);
    let mut s = if expanded {
        "▼".to_string()
    } else {
        "▶".to_string()
    };
    s.append(" Season ");
    s.append(number::decimal(rank as u64).as_str());
    s.append("  (");
    s.append(number::decimal(count as u64).as_str());
    s.append(" ep)");
    let mut tail = String::new();
    if n > 0 {
        tail.append("  ▶");
        tail.append(number::decimal(n as u64).as_str());
        assert(tail@ =~= "  ▶"@ + number::digits(n as nat));
    }
    s.append(tail.as_str());
    s
}

/// The lines of the Episodes view, one for each of its rows.
pub fn episode_lines(app: &App) -> (r: Vec<String>)
    ensures
        text::texts(r@) == episodes_screen(app@),
{
    let mut out: Vec<String> = Vec::new();
    let eps = match &app.details {
        Some(d) => &d.episodes,
        None => {
            assert(text::texts(out@) =~= Seq::<Seq<char>>::empty());
            return out;
        },
    };
    let list = app.episode_rows();
    let ghost all = episodes_screen(app@);
    let len: usize = eps.len();
    let mut i: usize = 0;
    while i < list.len()
        invariant
            i <= list@.len(),
            len == eps@.len(),
            list@ == app@.rows(),
            app@.details matches Some(d) && d.episodes@ == eps@,
            all == episodes_screen(app@),
            all.len() == list@.len(),
            text::texts(out@) == all.take(i as int),
        decreases list@.len() - i,
    {
        let line = match list[i] {
            EpisodeRow::Season { id, rank, expanded, episode_count } => season_text(
                app,
                eps,
                id,
                rank,
                expanded,
                episode_count,
            ),
            EpisodeRow::Episode { index, indented } => {
                proof {
                    rows::law_rows_point_at_episodes(eps@, app@.expanded, i as int);
                }
                episode_text(app, &eps[index], indented)
            },
        };
        text::put(&mut out, line);
        assert(all.take(i + 1) =~= all.take(i as int).push(all[i as int]));
        i = i + 1;
    }
    assert(all.take(all.len() as int) =~= all);
    out
}

/// The label of the progress bar.
pub open spec fn player_label(pb: PlaybackState, fps: Option<Seq<char>>) -> Seq<char> {
    (if pb.paused {
        "||"@
    } else {
        ">"@
    }) + " "@ + app::clock(pb.position.whole() as nat) + " / "@ + app::clock(
        pb.duration.whole() as nat,
    ) + (match fps {
        Some(f) => " · "@ + f + " fps"@,
        None => Seq::empty(),
    })
}

/// The label of the progress bar: whether playback is paused, the position, the duration
/// and the frame rate. Before playback starts all of it is zero.
pub fn player_text(playback: Option<PlaybackState>, fps: Option<&str>) -> (r: String)
    ensures
        r@ == player_label(
            match playback {
                Some(pb) => pb,
                None => app::no_playback(),
            },
            match fps {
                Some(f) => Some(f@),
                None => None,
            },
        ),
{
    let pb = match playback {
        Some(pb) => pb,
        None => PlaybackState::idle(),
    };
    let mut s = if pb.paused {
        "||".to_string()
    } else {
        ">".to_string()
    };
    s.append(" ");
    s.append(app::fmt_time(pb.position).as_str());
    s.append(" / ");
    s.append(app::fmt_time(pb.duration).as_str());
    let mut tail = String::new();
    if let Some(f) = fps {
        tail.append(" · ");
        tail.append(f);
        tail.append(" fps");
        assert(tail@ =~= " · "@ + f@ + " fps"@);
    }
    s.append(tail.as_str());
    s
}

/// The prompt of the seek box.
pub fn seek_prompt(input: &str) -> (r: String)
    ensures
        r@ == " Seek to (MM:SS): "@ + input@ + "_"@,
{
    let mut s = text::cat(" Seek to (MM:SS): ", input);
    s.append("_");
    s
}

/// The size of the terminal, in cells and in pixels.
#[derive(Debug, Clone, Copy, PartialEq, Eq, Structural)]
pub struct WindowSize {
    pub columns: u16,
    pub rows: u16,
    pub width: u16,
    pub height: u16,
}

/// The terminal says how large it is.
pub open spec fn measured(ws: Option<WindowSize>) -> bool {
    ws matches Some(w) && w.width > 0 && w.columns > 0 && w.height > 0 && w.rows > 0
}

/// Pixels per cell; zero when they are unknown.
pub open spec fn cell_pixels(ws: Option<WindowSize>) -> (u16, u16) {
    match ws {
        Some(w) => if measured(ws) {
            (w.width / w.columns, w.height / w.rows)
        } else {
            (0, 0)
        },
        None => (0, 0),
    }
}

/// Pixels-per-cell `(width, height)` of the terminal, or `(0, 0)` if unknown.
pub fn cell_pixel_size(ws: Option<WindowSize>) -> (r: (u16, u16))
    ensures
        r == cell_pixels(ws),
{
    match ws {
        Some(w) => if w.width > 0 && w.columns > 0 && w.height > 0 && w.rows > 0 {
            (w.width / w.columns, w.height / w.rows)
        } else {
            (0, 0)
        },
        None => (0, 0),
    }
}

/// A product that stays at the largest number when it is too large.
pub open spec fn scaled(a: u16, b: u16) -> u16 {
    if a * b > u16::MAX {
        u16::MAX
    } else {
        (a * b) as u16
    }
}

fn scale(a: u16, b: u16) -> (r: u16)
    ensures
        r == scaled(a, b),
{
    assert(a * b <= 0xffff * 0xffff) by (nonlinear_arith)
        requires
            a <= 0xffff,
            b <= 0xffff,
    ;
    let p: u32 = a as u32 * b as u32;
    if p > 0xffff {
        u16::MAX
    } else {
        p as u16
    }
}

/// Minimum columns kept for the metadata so the details text stays readable.
pub const MIN_INFO_COLS: u16 = 32;

/// The smallest poster worth drawing.
pub const MIN_POSTER_COLS: u16 = 12;

pub open spec fn lesser(a: int, b: int) -> int {
    if a < b {
        a
    } else {
        b
    }
}

pub open spec fn greater(a: int, b: int) -> int {
    if a < b {
        b
    } else {
        a
    }
}

/// The width of the poster: that of a 2:3 poster as high as the body, but no more than
/// 55% of the body and so that the details keep their columns.
pub open spec fn poster_cols(body: Rect, cw: u32, ch: u32) -> int {
    let by_height = ((body.height * ch) * 2 / 3) / greater(cw as int, 1);
    let cap = lesser(
        body.width * 55 / 100,
        greater(0, body.width - (MIN_INFO_COLS + 2)),
    );
    greater(lesser(by_height, cap), MIN_POSTER_COLS as int)
}

/// The height of the poster: that of a 2:3 poster of the chosen width, within the body.
pub open spec fn poster_rows(body: Rect, cw: u32, ch: u32) -> int {
    greater(
        lesser(
            ((poster_cols(body, cw, ch) * cw) * 3 / 2) / greater(ch as int, 1),
            body.height as int,
        ),
        3,
    )
}

/// The poster in a body; none where there is no room for it.
pub open spec fn poster_in(body: Rect, cw: u32, ch: u32) -> Option<Rect> {
    if body.width < MIN_POSTER_COLS + MIN_INFO_COLS + 2 || body.height < 10 {
        None
    } else {
        Some(
            Rect {
                x: body.x,
                y: body.y,
                width: poster_cols(body, cw, ch) as u16,
                height: poster_rows(body, cw, ch) as u16,
            },
        )
    }
}

/// The poster lies in the body and leaves the details the columns they need.
pub proof fn law_poster_fits(body: Rect, cw: u32, ch: u32)
    ensures
        poster_in(body, cw, ch) matches Some(p) ==> {
            &&& p.inside(body)
            &&& MIN_POSTER_COLS <= p.width
            &&& p.width + 2 + MIN_INFO_COLS <= body.width
            &&& p.width * 100 <= body.width * 55
            &&& 3 <= p.height
        },
{
    if body.width >= MIN_POSTER_COLS + MIN_INFO_COLS + 2 && body.height >= 10 {
        lemma_poster_bounds(body, cw, ch);
    }
}

proof fn lemma_poster_bounds(body: Rect, cw: u32, ch: u32)
    requires
        body.width >= MIN_POSTER_COLS + MIN_INFO_COLS + 2,
        body.height >= 10,
    ensures
        12 <= poster_cols(body, cw, ch) <= body.width - 34,
        poster_cols(body, cw, ch) * 100 <= body.width * 55,
        3 <= poster_rows(body, cw, ch) <= body.height,
{
}

/// Pure sizing: the largest 2:3 poster rect fitting the left of `body`, given
/// pixels-per-cell `(cw, ch)`. Env-free so it's unit-testable.
///
/// Responsive: the poster is the LARGEST aspect-correct (~2:3) cover that fits the
/// left side — capped to ~55% width and to leaving [`MIN_INFO_COLS`] for the info —
/// so it grows to fill roughly the left half on big terminals and shrinks (or
/// disappears) on small ones.
pub fn poster_geometry(body: Rect, cw: u32, ch: u32) -> (r: Option<Rect>)
    ensures
        r == poster_in(body, cw, ch),
{
    if body.width < MIN_POSTER_COLS + MIN_INFO_COLS + 2 || body.height < 10 {
        return None;  // keep the details text readable on small terminals
    }
    let bw: u64 = body.width as u64;
    let bh: u64 = body.height as u64;
    let cw1: u64 = if cw < 1 {
        1
    } else {
        cw as u64
    };
    let ch1: u64 = if ch < 1 {
        1
    } else {
        ch as u64
    };
    proof {
        lemma_poster_bounds(body, cw, ch);
        assert(bh * ch <= 0xffff * 0xffff_ffff) by (nonlinear_arith)
            requires
                bh <= 0xffff,
                ch <= 0xffff_ffff,
        ;
    }
    // Width (cells) of a 2:3 poster that is exactly `body.height` tall.
    let by_height: u64 = ((bh * (ch as u64)) * 2 / 3) / cw1;
    // Width cap: at most ~55% of the body, and always leave MIN_INFO_COLS for info.
    let share: u64 = bw * 55 / 100;
    let spare: u64 = bw - (MIN_INFO_COLS as u64 + 2);
    let cap: u64 = if share < spare {
        share
    } else {
        spare
    };
    let fitting: u64 = if by_height < cap {
        by_height
    } else {
        cap
    };
    let cols: u64 = if fitting < MIN_POSTER_COLS as u64 {
        MIN_POSTER_COLS as u64
    } else {
        fitting
    };
    assert(cols == poster_cols(body, cw, ch));
    // Rows back-derived from the chosen width so it stays 2:3 and never overflows.
    assert(cols * cw <= 0xffff * 0xffff_ffff) by (nonlinear_arith)
        requires
            cols <= 0xffff,
            cw <= 0xffff_ffff,
    ;
    let tall: u64 = ((cols * (cw as u64)) * 3 / 2) / ch1;
    let within: u64 = if tall < bh {
        tall
    } else {
        bh
    };
    let rows: u64 = if within < 3 {
        3
    } else {
        within
    };
    assert(rows == poster_rows(body, cw, ch));
    Some(Rect { x: body.x, y: body.y, width: cols as u16, height: rows as u16 })
}

/// The poster in the details body: none without Kitty graphics. Cells are taken to be
/// twice as high as wide when the terminal does not say.
pub open spec fn details_poster(body: Rect, kitty: bool, ws: Option<WindowSize>) -> Option<Rect> {
    let (w, h) = cell_pixels(ws);
    if !kitty {
        None
    } else if w == 0 || h == 0 {
        poster_in(body, 1, 2)
    } else {
        poster_in(body, w as u32, h as u32)
    }
}

/// The poster rectangle (in cells) within the details `body` area, or `None` when
/// there's no Kitty support or the terminal is too small. Shared by the drawing of the
/// details (which reserves it) and [`poster_rect`] (which transmits into it) so the two
/// never disagree.
pub fn poster_in_body(body: Rect, kitty: bool, ws: Option<WindowSize>) -> (r: Option<Rect>)
    ensures
        r == details_poster(body, kitty, ws),
{
    if !kitty {
        return None;
    }
    let (w, h) = cell_pixel_size(ws);
    if w == 0 || h == 0 {
        poster_geometry(body, 1, 2)
    } else {
        poster_geometry(body, w as u32, h as u32)
    }
}

/// The details stand beside the poster, two cells from it, down the whole area; without a
/// poster they have all of it.
pub proof fn law_meta_area(area: Rect, poster: Option<Rect>, r: Rect)
    requires
        area.valid(),
        poster matches Some(p) ==> p.width + 2 <= area.width,
        call_ensures(meta_area, (area, poster), r),
    ensures
        poster is None ==> r == area,
        poster matches Some(p) ==> r.x == area.x + p.width + 2 && r.x + r.width == area.x
            + area.width && r.y == area.y && r.height == area.height,
{
}

/// Each list has a title and, while it is empty, a sentence of its own.
pub proof fn law_list_words(view: View, typing: bool, title: &'static str, empty: &'static str)
    requires
        call_ensures(list_title, (view,), title),
        call_ensures(empty_message, (view, typing), empty),
    ensures
        view == View::Favourites ==> title@ == " Favourites "@ && empty@
            == "No favourites yet. Press `f` on a details page to add one."@,
        view == View::History ==> title@ == " History "@ && empty@
            == "No history yet. Watch an episode to record it here."@,
        view == View::Home || view == View::Search ==> title@ == " Results "@,
        view == View::Home && typing ==> empty@ == "Type a query and press Enter."@,
        view == View::Home && !typing ==> empty@
            == "Press `/` to search, or Tab to browse Favourites / History."@,
{
}

/// The area left for the details text: to the right of the poster, with two columns
/// between, or all of it when there is no poster.
pub fn meta_area(area: Rect, poster: Option<Rect>) -> (r: Rect)
    requires
        area.valid(),
        poster matches Some(p) ==> p.width + 2 <= area.width,
    ensures
        r == (match poster {
            Some(p) => Rect {
                x: (area.x + p.width + 2) as u16,
                width: (area.width - (p.width + 2)) as u16,
                ..area
            },
            None => area,
        }),
        r.inside(area),
{
    match poster {
        Some(p) => Rect {
            x: area.x + p.width + 2,
            y: area.y,
            width: area.width - (p.width + 2),
            height: area.height,
        },
        None => area,
    }
}

/// A rectangle with its size in pixels, as far as that is known.
pub open spec fn in_pixels(r: Rect, size: Option<(u16, u16)>) -> CellRect {
    CellRect {
        left: r.x,
        top: r.y,
        cols: r.width,
        rows: r.height,
        pixel_width: match size {
            Some((w, _)) => Some(scaled(r.width, w)),
            None => None,
        },
        pixel_height: match size {
            Some((_, h)) => Some(scaled(r.height, h)),
            None => None,
        },
    }
}

fn with_pixels(r: Rect, size: Option<(u16, u16)>) -> (c: CellRect)
    ensures
        c == in_pixels(r, size),
{
    match size {
        Some((w, h)) => CellRect {
            left: r.x,
            top: r.y,
            cols: r.width,
            rows: r.height,
            pixel_width: Some(scale(r.width, w)),
            pixel_height: Some(scale(r.height, h)),
        },
        None => CellRect {
            left: r.x,
            top: r.y,
            cols: r.width,
            rows: r.height,
            pixel_width: None,
            pixel_height: None,
        },
    }
}

/// The rectangle of no cells.
pub open spec fn nowhere() -> CellRect {
    CellRect { left: 0, top: 0, cols: 0, rows: 0, pixel_width: None, pixel_height: None }
}

/// The rectangle that the poster is painted into, in a given body.
pub open spec fn poster_cells(body: Rect, kitty: bool, ws: Option<WindowSize>) -> CellRect {
    let (w, h) = cell_pixels(ws);
    match details_poster(body, kitty, ws) {
        Some(r) => in_pixels(
            r,
            if w > 0 && h > 0 {
                Some((w, h))
            } else {
                None
            },
        ),
        None => nowhere(),
    }
}

/// The body of a screen of at least three rows.
pub open spec fn body_of(area: Rect) -> Rect {
    Rect { y: (area.y + 1) as u16, height: (area.height - 2) as u16, ..area }
}

/// The poster cell rect the run loop transmits the image into. It matches the
/// column reserved for it on the details screen. Empty when no poster should show.
pub fn poster_rect(area: Rect, kitty: bool, ws: Option<WindowSize>) -> (r: CellRect)
    requires
        area.valid(),
    ensures
        r == (if area.height < 3 {
            nowhere()
        } else {
            poster_cells(body_of(area), kitty, ws)
        }),
{
    let body = browse_body(area);
    let (w, h) = cell_pixel_size(ws);
    match poster_in_body(body, kitty, ws) {
        Some(r) => with_pixels(
            r,
            if w > 0 && h > 0 {
                Some((w, h))
            } else {
                None
            },
        ),
        None => CellRect {
            left: 0,
            top: 0,
            cols: 0,
            rows: 0,
            pixel_width: None,
            pixel_height: None,
        },
    }
}

/// The video surface of a screen of at least four rows: below the header, above the
/// progress bar and the footer.
pub open spec fn video_area(area: Rect) -> Rect {
    Rect { y: (area.y + 1) as u16, height: (area.height - 3) as u16, ..area }
}

/// What mpv is told of a surface: its place, and its size in pixels when the terminal
/// is measured.
pub open spec fn video_cells(surface: Rect, ws: Option<WindowSize>) -> CellRect {
    in_pixels(
        surface,
        if measured(ws) {
            Some(cell_pixels(ws))
        } else {
            None
        },
    )
}

/// The cell rectangle handed to mpv for embedded playback. It matches the video surface
/// that the player screen leaves blank exactly.
///
/// When `fullscreen` is true the video occupies the entire terminal; no chrome is drawn
/// at all on that frame. A screen of fewer than four rows has no room for the chrome and
/// a surface: then the surface is some part of it.
///
/// The pixel dimensions match the real terminal size for the cell box: mpv's kitty VO
/// derives its render size from these, and any value smaller than the true size makes
/// mpv paint a shrunken image into the top-left corner rather than filling the box (it
/// does NOT upscale). To reduce memory, use the external player instead of a smaller
/// render.
pub fn video_rect(area: Rect, fullscreen: bool, ws: Option<WindowSize>) -> (r: CellRect)
    requires
        area.valid(),
    ensures
        fullscreen ==> r == video_cells(area, ws),
        !fullscreen && area.height >= 4 ==> r == video_cells(video_area(area), ws),
        !fullscreen && area.height < 4 ==> exists|surface: Rect|
            #[trigger] surface.inside(area) && r == video_cells(surface, ws),
{
    let v = if fullscreen {
        area
    } else {
        let outer = screen_rows(area);
        let inner = player_rows(outer.1);
        inner.0
    };
    let size = match ws {
        Some(w) => if w.width > 0 && w.columns > 0 && w.height > 0 && w.rows > 0 {
            Some(cell_pixel_size(ws))
        } else {
            None
        },
        None => None,
    };
    assert(v.inside(area));
    // Derive pixel dimensions from the window size so mpv knows the exact render
    // size without guessing font metrics.
    with_pixels(v, size)
}

/// As many rows of a browse list count as shown as fit between the header, the footer and
/// the frame, five lines each, but one at least.
pub proof fn law_visible_rows(rows: u16)
    ensures
        visible_rows(rows) >= 1,
        rows >= 9 ==> 5 * visible_rows(rows) + 4 <= rows < 5 * (visible_rows(rows) + 1) + 4,
        rows < 9 ==> visible_rows(rows) == 1,
{
}

/// The bottom line shows loading before all else, then what is typed, then the status
/// before the keys of the screen, and else the keys.
pub proof fn law_footer(s: AppModel)
    ensures
        s.loading ==> footer(s) == " loading... "@,
        !s.loading && s.input_mode ==> footer(s) == " search: "@ + s.search_input + "|"@,
        !s.loading && !s.input_mode && s.status is None ==> footer(s) == hint(s.view),
        !s.loading && !s.input_mode ==> (s.status matches Some(m) ==> footer(s) == " "@ + m
            + "  ·  "@ + text::trim(hint(s.view))),
{
}

/// The top line marks the list that is shown, and of the catalogue says how many titles
/// of how many are shown, in which order, and whether more are on their way.
pub proof fn law_header(s: AppModel)
    ensures
        s.view == View::Home || s.view == View::Search ==> header(s)
            == " anime-tui   [ Home ]  Favourites   History "@ + (" "@ + number::digits(
            s.results.len(),
        ) + "/"@ + number::digits(s.total as nat) + " · "@ + s.sort.shown() + (if s.loading_more {
            " · loading more"@
        } else {
            Seq::empty()
        })),
        s.view == View::Favourites ==> header(s) == " anime-tui     Home  [ Favourites ]  History "@,
        s.view == View::History ==> header(s) == " anime-tui     Home    Favourites  [ History ]"@,
        s.view == View::Details ==> header(s) == " anime-tui — "@ + "Details"@ + " "@,
        s.view == View::Episodes ==> header(s) == " anime-tui — "@ + "Episodes"@ + " "@,
        s.view == View::Sources ==> header(s) == " anime-tui — "@ + "Sources"@ + " "@,
        s.view == View::Player ==> header(s) == " anime-tui — "@ + "Player"@ + " "@,
        s.view == View::Downloaded ==> header(s) == " anime-tui — "@ + "Downloaded"@ + " "@,
{
}

/// The line of a title is the title, with its year in brackets when that is known.
pub proof fn law_result_line(a: AnimeSummary)
    ensures
        a.year is None ==> result_line(a) == a.title@,
        a.year matches Some(y) ==> result_line(a) == a.title@ + " ("@ + number::digits(y as nat)
            + ")"@,
{
}

/// The details begin with the title, marked when it is a favourite, and say what is known
/// of genres and status, how many episodes there are, and the description.
pub proof fn law_details_screen(d: AnimeDetails, favourite: bool)
    ensures
        ({
            let lines = details_screen(d, favourite);
            let mark = if favourite {
                " [*]"@
            } else {
                " [ ]"@
            };
            &&& lines[0] == d.title@ + mark
            &&& lines.contains("Episodes: "@ + number::digits(d.episodes@.len()))
            &&& d.genres@.len() > 0 ==> lines.contains(
                "Genres: "@ + text::join(text::texts(d.genres@), ", "@),
            )
            &&& d.status matches Some(s) ==> lines.contains("Status: "@ + s@)
            &&& d.description matches Some(s) ==> lines.contains(s@)
        }),
{
    let lines = details_screen(d, favourite);
    let g: int = if d.genres@.len() == 0 {
        0
    } else {
        1
    };
    let t: int = if d.status is Some {
        1
    } else {
        0
    };
    assert(lines[2 + g + t] == "Episodes: "@ + number::digits(d.episodes@.len()));
    if d.genres@.len() > 0 {
        assert(lines[2] == "Genres: "@ + text::join(text::texts(d.genres@), ", "@));
    }
    if d.status is Some {
        assert(lines[2 + g] == "Status: "@ + d.status->0@);
    }
    if d.description is Some {
        assert(lines[4 + g + t] == d.description->0@);
    }
}

/// An episode goes on where it was left, and at the beginning when it was not begun.
pub proof fn law_resume_of(positions: Map<Seq<char>, Seconds>, e: Episode, at: Seconds)
    ensures
        resume_of(positions.insert(e.id@, at), e) == at,
        resume_of(positions.remove(e.id@), e) == (Seconds { bits: 0 }),
        begun(positions.insert(e.id@, at), e) <==> at.above(seconds::ONE),
        !begun(positions.remove(e.id@), e),
{
}

/// The number of begun episodes of a season is the number of its episodes that were
/// begun.
pub proof fn law_begun_count(positions: Map<Seq<char>, Seconds>, eps: Seq<Episode>, id: u32)
    ensures
        begun_count(positions, eps, id) == eps.filter(
            |e: Episode| rows::season_of(e) == id && begun(positions, e),
        ).len(),
    decreases eps.len(),
{
    reveal(Seq::filter);
    if eps.len() > 0 {
        law_begun_count(positions, eps.drop_last(), id);
    }
}

/// The line of an episode has its number, its title if it has one, and in brackets where
/// it goes on once it was begun; below a season it is indented.
pub proof fn law_episode_line(positions: Map<Seq<char>, Seconds>, e: Episode, indented: bool)
    ensures
        ({
            let lead = if indented {
                "  "@
            } else {
                ""@
            };
            let named = if e.title matches Some(t) && t@.len() > 0 {
                e.number@ + " - "@ + e.title->0@
            } else {
                e.number@
            };
            &&& begun(positions, e) ==> episode_line(positions, e, indented) == lead + "Ep "@ + named
                + ("  ["@ + app::clock(positions[e.id@].whole() as nat) + "]"@)
            &&& !begun(positions, e) ==> episode_line(positions, e, indented) == lead + "Ep "@
                + named
        }),
{
    let line = episode_line(positions, e, indented);
    assert(line + Seq::<char>::empty() =~= line);
}

/// The line of a season says whether it is open, its number, how many episodes it has,
/// and how many of them were begun if any was.
pub proof fn law_season_line(
    positions: Map<Seq<char>, Seconds>,
    eps: Seq<Episode>,
    id: u32,
    rank: usize,
    expanded: bool,
    episode_count: usize,
)
    ensures
        ({
            let row = EpisodeRow::Season { id, rank, expanded, episode_count };
            let n = begun_count(positions, eps, id);
            let sign = if expanded {
                "▼"@
            } else {
                "▶"@
            };
            let head = sign + " Season "@ + number::digits(rank as nat) + "  ("@ + number::digits(
                episode_count as nat,
            ) + " ep)"@;
            &&& n == 0 ==> row_line(positions, eps, row) == head
            &&& n > 0 ==> row_line(positions, eps, row) == head + ("  ▶"@ + number::digits(n))
        }),
{
    let row = EpisodeRow::Season { id, rank, expanded, episode_count };
    let line = row_line(positions, eps, row);
    assert(line + Seq::<char>::empty() =~= line);
}

/// The lines of the Episodes view are those of its rows, in order.
pub proof fn law_episodes_screen(s: AppModel, i: int)
    requires
        s.details is Some,
        0 <= i < s.rows().len(),
    ensures
        episodes_screen(s).len() == s.rows().len(),
        episodes_screen(s)[i] == row_line(s.resume_positions, s.details->0.episodes@, s.rows()[i]),
{
}

/// The label of the progress bar shows the position before the length, and whether
/// playback is paused.
pub proof fn law_player_label(pb: PlaybackState, fps: Seq<char>)
    ensures
        ({
            let sign = if pb.paused {
                "||"@
            } else {
                ">"@
            };
            let times = sign + " "@ + app::clock(pb.position.whole() as nat) + " / "@ + app::clock(
                pb.duration.whole() as nat,
            );
            &&& player_label(pb, None) == times
            &&& player_label(pb, Some(fps)) == times + (" · "@ + fps + " fps"@)
        }),
{
    let line = player_label(pb, None);
    assert(line + Seq::<char>::empty() =~= line);
}

/// A cell has as many pixels as the window has for each of its columns and rows.
pub proof fn law_cell_pixels(w: WindowSize)
    ensures
        w.width > 0 && w.columns > 0 && w.height > 0 && w.rows > 0 ==> {
            let (cw, ch) = cell_pixels(Some(w));
            &&& cw * w.columns <= w.width < (cw + 1) * w.columns
            &&& ch * w.rows <= w.height < (ch + 1) * w.rows
        },
        w.width == 0 || w.columns == 0 || w.height == 0 || w.rows == 0 ==> cell_pixels(Some(w)) == (
            0u16,
            0u16,
        ),
        cell_pixels(None) == (0u16, 0u16),
{
    if w.width > 0 && w.columns > 0 && w.height > 0 && w.rows > 0 {
        lemma_quotient(w.width as int, w.columns as int);
        lemma_quotient(w.height as int, w.rows as int);
    }
}

proof fn lemma_quotient(a: int, b: int)
    requires
        0 <= a,
        0 < b,
    ensures
        (a / b) * b <= a < (a / b + 1) * b,
{
    assert((a / b) * b <= a < (a / b + 1) * b) by (nonlinear_arith)
        requires
            0 <= a,
            0 < b,
    ;
}

/// A rectangle keeps its place and its size in cells; its size in pixels is its cells
/// times the pixels of one, unless that is too large a number.
pub proof fn law_in_pixels(r: Rect, w: u16, h: u16)
    ensures
        ({
            let c = in_pixels(r, Some((w, h)));
            &&& c.left == r.x && c.top == r.y && c.cols == r.width && c.rows == r.height
            &&& r.width * w <= u16::MAX ==> c.pixel_width == Some((r.width * w) as u16)
            &&& r.height * h <= u16::MAX ==> c.pixel_height == Some((r.height * h) as u16)
            &&& in_pixels(r, None).pixel_width is None && in_pixels(r, None).pixel_height is None
            &&& in_pixels(r, None).left == r.x && in_pixels(r, None).rows == r.height
        }),
{
}

/// A poster that is wider than the least has no more than two thirds of the height of the
/// body as its width, in pixels, and one that is higher than the least no more than one
/// and a half times its width as its height.
pub proof fn law_poster_proportions(body: Rect, cw: u32, ch: u32)
    requires
        cw > 0,
        ch > 0,
    ensures
        poster_in(body, cw, ch) matches Some(p) ==> {
            &&& p.x == body.x && p.y == body.y
            &&& p.width > 12 ==> 3 * (p.width * cw) <= 2 * (body.height * ch)
            &&& p.height > 3 ==> 2 * (p.height * ch) <= 3 * (p.width * cw)
        },
        poster_in(body, cw, ch) is None <==> body.width < 46 || body.height < 10,
{
    if body.width >= 46 && body.height >= 10 {
        lemma_poster_bounds(body, cw, ch);
        let px = body.height * ch;
        lemma_quotient(px * 2 / 3, cw as int);
        let cols = poster_cols(body, cw, ch);
        let by_height = (px * 2 / 3) / (cw as int);
        if cols > 12 {
            assert(cols <= by_height);
            assert(cols * cw <= by_height * cw) by (nonlinear_arith)
                requires
                    cols <= by_height,
                    cw > 0,
            ;
        }
        let wide = cols * cw;
        assert(wide >= 0) by (nonlinear_arith)
            requires
                cols >= 0,
                cw > 0,
                wide == cols * cw,
        ;
        lemma_quotient(wide * 3 / 2, ch as int);
        let rows = poster_rows(body, cw, ch);
        let by_width = (wide * 3 / 2) / (ch as int);
        if rows > 3 {
            assert(rows <= by_width);
            assert(rows * ch <= by_width * ch) by (nonlinear_arith)
                requires
                    rows <= by_width,
                    ch > 0,
            ;
        }
    }
}

/// Outside fullscreen the video surface lies inside the screen and touches neither the
/// header nor the progress bar nor the footer.
pub proof fn law_video_leaves_the_chrome(area: Rect, ws: Option<WindowSize>)
    requires
        area.valid(),
        area.height >= 4,
    ensures
        video_area(area).inside(area),
        video_cells(video_area(area), ws).top == area.y + 1,
        video_cells(video_area(area), ws).top + video_cells(video_area(area), ws).rows == area.y
            + area.height - 2,
        video_cells(video_area(area), ws).cols == area.width,
{
}

/// Each screen is named after what it shows.
pub proof fn law_view_names()
    ensures
        view_name(View::Home) == "Home"@,
        view_name(View::Search) == "Search"@,
        view_name(View::Details) == "Details"@,
        view_name(View::Episodes) == "Episodes"@,
        view_name(View::Sources) == "Sources"@,
        view_name(View::Player) == "Player"@,
        view_name(View::Favourites) == "Favourites"@,
        view_name(View::History) == "History"@,
        view_name(View::Downloaded) == "Downloaded"@,
{
}

/// A poster is drawn only where the terminal draws pictures. Where it does not say how
/// large its cells are, they count as twice as high as they are wide.
#[verifier::spinoff_prover]
pub proof fn law_unmeasured_poster(body: Rect, ws: Option<WindowSize>)
    requires
        ws is None || (ws->0).width == 0 || (ws->0).height == 0 || (ws->0).columns == 0 || (
        ws->0).rows == 0,
    ensures
        details_poster(body, false, ws) is None,
        details_poster(body, true, ws) == details_poster(
            body,
            true,
            Some(WindowSize { columns: 1, rows: 1, width: 1, height: 2 }),
        ),
{
    let tall = WindowSize { columns: 1, rows: 1, width: 1, height: 2 };
    assert(tall.width / tall.columns == 1 && tall.height / tall.rows == 2);
    assert(cell_pixels(Some(tall)) == (1u16, 2u16));
    assert(cell_pixels(ws) == (0u16, 0u16));
}

/// The header is the first line of the screen, the footer the last, and the body all
/// between them; of the body of the player the last line is the progress, and the rest
/// the video.
pub proof fn law_screen_rows(area: Rect, r: (Rect, Rect, Rect), p: (Rect, Rect), b: Rect)
    requires
        area.valid(),
        area.height >= 4,
        call_ensures(screen_rows, (area,), r),
        call_ensures(player_rows, (r.1,), p),
        call_ensures(browse_body, (area,), b),
    ensures
        r.0.y == area.y && r.0.height == 1,
        r.1.y == area.y + 1 && r.1.y + r.1.height == r.2.y,
        r.2.height == 1 && r.2.y + r.2.height == area.y + area.height,
        r.0.x == area.x && r.1.x == area.x && r.2.x == area.x,
        r.0.width == area.width && r.1.width == area.width && r.2.width == area.width,
        p.0.y == r.1.y && p.0.y + p.0.height == p.1.y,
        p.1.height == 1 && p.1.y + 1 == r.2.y,
        b == r.1,
{
}

/// The keys that each screen names are those of what it can do.
pub proof fn law_hints()
    ensures
        hint(View::Home) == " / search · j/k move · Enter select · Tab switch tab · q quit"@,
        hint(View::Search) == hint(View::Home),
        hint(View::Favourites) == " j/k move · Enter select · Tab switch tab · Esc back · q quit"@,
        hint(View::History) == hint(View::Favourites),
        hint(View::Downloaded) == hint(View::Favourites),
        hint(View::Details) == " Enter episodes · f toggle favourite · Esc back · q quit"@,
        hint(View::Episodes) == " Enter play / fold season · j/k move · Esc back · q quit"@,
        hint(View::Sources) == " Enter select source · j/k move · Esc back"@,
        hint(View::Player)
            == " Space pause · ,/. ±5s · h/l ±10s · i skip intro · g seek · o window · f fullscreen · n/p ep · q stop"@,
{
}

} // verus!
