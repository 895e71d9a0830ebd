//! Covers on screen: the poster of the details page, and a thumbnail beside each row of
//! a browse list.

use crate::app::run;
use crate::app::run::{Command, CommandModel, Settings};
use crate::app::View;
use crate::cache;
use crate::codec;
use crate::models;
use crate::models::{AnimeId, AnimeSummary};
use crate::player::kitty;
use crate::player::kitty::{CellRect, DELETE_POSTER, POSTER_ID, THUMB_ID_BASE};
use crate::text;
use crate::ui;
use crate::ui::{Rect, WindowSize};
use vstd::hash_map::StringHashMap;
use vstd::hash_set::StringHashSet;
use vstd::prelude::*;
use vstd::view::View as _;

verus! {

/// Concurrent thumbnail fetches allowed (kept moderate to be polite but snappy).
pub const THUMB_FETCH_CAP: usize = 8;

/// The size of the terminal in cells, and in pixels as far as it is known.
#[derive(Debug, Clone, Copy)]
pub struct Screen {
    pub cols: u16,
    pub rows: u16,
    pub window: Option<WindowSize>,
}

impl Screen {
    /// The screen of a terminal; one whose size cannot be asked counts as 80 by 24.
    pub fn new(size: Option<(u16, u16)>, window: Option<WindowSize>) -> (r: Screen)
        ensures
            r.window == window,
            (r.cols, r.rows) == (match size {
                Some(s) => s,
                None => (80u16, 24u16),
            }),
    {
        let (cols, rows) = match size {
            Some(s) => s,
            None => (80, 24),
        };
        Screen { cols, rows, window }
    }

    /// The cells of the screen.
    pub open spec fn cells(self) -> Rect {
        Rect { x: 0, y: 0, width: self.cols, height: self.rows }
    }

    pub fn area(self) -> (r: Rect)
        ensures
            r == self.cells(),
            r.valid(),
    {
        Rect { x: 0, y: 0, width: self.cols, height: self.rows }
    }
}

/// Current reserved video rectangle, from the live terminal size + fullscreen flag.
pub fn current_video_rect(screen: Screen, fullscreen: bool) -> (r: CellRect)
    ensures
        fullscreen ==> r == ui::video_cells(screen.cells(), screen.window),
        !fullscreen && screen.rows >= 4 ==> r == ui::video_cells(
            ui::video_area(screen.cells()),
            screen.window,
        ),
        !fullscreen && screen.rows < 4 ==> exists|surface: Rect|
            #[trigger] surface.inside(screen.cells()) && r == ui::video_cells(
                surface,
                screen.window,
            ),
{
    ui::video_rect(screen.area(), fullscreen, screen.window)
}

/// The covers that are kept and shown.
pub struct Covers {
    /// The anime whose poster image is kept.
    pub current_poster: Option<AnimeId>,
    /// Set when the poster must be (re)painted into its reserved rect.
    pub poster_dirty: bool,
    /// Whether the poster image is currently placed on screen (for clean removal).
    pub poster_shown: bool,
    /// The rect the poster was last transmitted into, so a view switch (left↔right)
    /// or resize re-places it even when the image content is unchanged.
    pub last_poster_rect: Option<CellRect>,
    /// Anime id whose (details) poster fetch is in flight (at most one at a time).
    pub poster_inflight: Option<String>,
    /// The cover URL last fetched for the current details anime. Lets us start the
    /// poster from the browse summary URL immediately and skip the redundant
    /// higher-res `Msg::Details` fetch when it's the same image.
    pub last_poster_url: Option<String>,
    /// Ready-to-transmit small PNG thumbnails keyed by anime id (browse rows).
    pub thumb_cache: StringHashMap<Vec<u8>>,
    /// Thumbnail fetches currently in flight (bounded concurrency).
    pub thumb_inflight: StringHashSet,
    /// Covers transmitted to the terminal (once each): anime id → Kitty image id.
    pub thumb_img: Vec<(String, u32)>,
    /// Next image id to assign (counts up from `THUMB_ID_BASE`).
    pub thumb_next_id: u32,
    /// Current placement on each visible row slot: slot → image id (placement id is
    /// `slot + 1`). Scrolling only moves placements, never re-sends image data.
    pub placed_slots: Vec<(u16, u32)>,
}

/// The state of [`Covers`].
#[verifier::ext_equal]
pub ghost struct CoversModel {
    pub current_poster: Option<Seq<char>>,
    pub poster_dirty: bool,
    pub poster_shown: bool,
    pub last_poster_rect: Option<CellRect>,
    pub poster_inflight: Option<Seq<char>>,
    pub last_poster_url: Option<Seq<char>>,
    pub thumb_cache: Map<Seq<char>, Vec<u8>>,
    pub thumb_inflight: Set<Seq<char>>,
    pub thumb_img: Seq<(Seq<char>, u32)>,
    pub thumb_next_id: u32,
    pub placed_slots: Seq<(u16, u32)>,
}

/// The images of a list of covers, by the ids of their titles.
pub open spec fn images(v: Seq<(String, u32)>) -> Seq<(Seq<char>, u32)> {
    v.map_values(|p: (String, u32)| (p.0@, p.1))
}

impl vstd::view::View for Covers {
    type V = CoversModel;

    open spec fn view(&self) -> CoversModel {
        CoversModel {
            current_poster: match self.current_poster {
                Some(id) => Some(id@),
                None => None,
            },
            poster_dirty: self.poster_dirty,
            poster_shown: self.poster_shown,
            last_poster_rect: self.last_poster_rect,
            poster_inflight: text::opt_text(self.poster_inflight),
            last_poster_url: text::opt_text(self.last_poster_url),
            thumb_cache: self.thumb_cache@,
            thumb_inflight: self.thumb_inflight@,
            thumb_img: images(self.thumb_img@),
            thumb_next_id: self.thumb_next_id,
            placed_slots: self.placed_slots@,
        }
    }
}

/// The first result with an id, from position `i` on.
pub open spec fn result_with(results: Seq<AnimeSummary>, id: Seq<char>, i: int) -> Option<
    AnimeSummary,
>
    decreases results.len() - i,
{
    if i < 0 || i >= results.len() {
        None
    } else if results[i].id@ == id {
        Some(results[i])
    } else {
        result_with(results, id, i + 1)
    }
}

/// The cover URL of a result.
pub open spec fn cover_url(results: Seq<AnimeSummary>, id: Seq<char>) -> Option<Seq<char>> {
    match result_with(results, id, 0) {
        Some(a) => text::opt_text(a.poster_url),
        None => None,
    }
}

/// Where a cover of an anime is cached; `kind` tells posters from thumbnails.
pub open spec fn cover_path(settings: Settings, id: Seq<char>, kind: Seq<char>) -> Seq<char> {
    text::path_join(settings.poster_cache.dir(), cache::sanitized(id + kind))
}

/// What removes a placement from a row slot.
pub open spec fn removal(p: (u16, u32)) -> CommandModel {
    CommandModel::Write(kitty::placement_deletion(p.1, (p.0 + 1) as u32))
}

/// What frees the image of a cover.
pub open spec fn release(p: (Seq<char>, u32)) -> CommandModel {
    CommandModel::Write(kitty::image_release(p.1))
}

/// The size in pixels that a poster is painted at: the box's exact pixels, so the
/// terminal doesn't up/down-scale it, or a guess from its cells.
pub open spec fn poster_pixels(rect: CellRect) -> (u32, u32) {
    let w = match rect.pixel_width {
        Some(w) => w as int,
        None => rect.cols * 8,
    };
    let h = match rect.pixel_height {
        Some(h) => h as int,
        None => rect.rows * 16,
    };
    (
        if w < 1 {
            1
        } else {
            w as u32
        },
        if h < 1 {
            1
        } else {
            h as u32
        },
    )
}

impl CoversModel {
    /// The state at startup.
    pub open spec fn initial() -> CoversModel {
        CoversModel {
            current_poster: None,
            poster_dirty: false,
            poster_shown: false,
            last_poster_rect: None,
            poster_inflight: None,
            last_poster_url: None,
            thumb_cache: Map::empty(),
            thumb_inflight: Set::empty(),
            thumb_img: Seq::empty(),
            thumb_next_id: THUMB_ID_BASE,
            placed_slots: Seq::empty(),
        }
    }

    /// The thumbnails leave the screen; their image data stays.
    pub open spec fn cleared(self) -> (CoversModel, Seq<CommandModel>) {
        (
            CoversModel { placed_slots: Seq::empty(), ..self },
            self.placed_slots.map_values(|p: (u16, u32)| removal(p)),
        )
    }

    /// Every transmitted thumbnail is freed.
    pub open spec fn freed(self) -> (CoversModel, Seq<CommandModel>) {
        (
            CoversModel {
                placed_slots: Seq::empty(),
                thumb_img: Seq::empty(),
                thumb_next_id: if self.thumb_img.len() == 0 {
                    self.thumb_next_id
                } else {
                    THUMB_ID_BASE
                },
                ..self
            },
            self.thumb_img.map_values(|p: (Seq<char>, u32)| release(p)),
        )
    }

    /// The screen was wiped with every image on it.
    pub open spec fn wiped(self) -> CoversModel {
        CoversModel {
            poster_shown: false,
            placed_slots: Seq::empty(),
            thumb_img: Seq::empty(),
            thumb_next_id: THUMB_ID_BASE,
            ..self
        }
    }

    /// A poster is being fetched, on terminals with graphics.
    pub open spec fn poster_asked(self, settings: Settings, id: Seq<char>, url: Seq<char>) -> (
        CoversModel,
        Seq<CommandModel>,
    ) {
        if settings.graphics {
            (
                CoversModel { poster_inflight: Some(id), ..self },
                seq![
                    CommandModel::FetchPoster {
                        anime: id,
                        path: cover_path(settings, id, ".poster"@),
                        url,
                    },
                ],
            )
        } else {
            (self, Seq::empty())
        }
    }

    /// A title is opened from a browse list: the row thumbnails go, the previous poster
    /// is dropped, and the cover of the browse summary is fetched.
    pub open spec fn opened(self, settings: Settings, results: Seq<AnimeSummary>, id: Seq<char>) -> (
        CoversModel,
        Seq<CommandModel>,
    ) {
        let (bare, removals) = self.cleared();
        let url = cover_url(results, id);
        let fresh = CoversModel {
            current_poster: None,
            poster_dirty: false,
            last_poster_url: url,
            ..bare
        };
        let (next, asked) = match url {
            Some(u) => fresh.poster_asked(settings, id, u),
            None => (fresh, Seq::empty()),
        };
        (next, removals + seq![CommandModel::DropPoster] + asked)
    }

    /// The details of a title came in: their cover is fetched when it is another one.
    pub open spec fn upgraded(self, settings: Settings, id: Seq<char>, url: Option<Seq<char>>) -> (
        CoversModel,
        Seq<CommandModel>,
    ) {
        match url {
            Some(u) if self.last_poster_url != Some(u) => CoversModel {
                last_poster_url: Some(u),
                ..self
            }.poster_asked(settings, id, u),
            _ => (self, Seq::empty()),
        }
    }

    /// A poster came in: it is kept when it was decoded and is still the one to show.
    pub open spec fn poster_came(self, subject: Option<Seq<char>>, id: Seq<char>, decoded: bool) -> (
        CoversModel,
        Seq<CommandModel>,
    ) {
        let seen = CoversModel {
            poster_inflight: if self.poster_inflight == Some(id) {
                None
            } else {
                self.poster_inflight
            },
            ..self
        };
        if subject == Some(id) && decoded {
            (
                CoversModel { current_poster: Some(id), poster_dirty: true, ..seen },
                seq![CommandModel::KeepPoster],
            )
        } else {
            (seen, Seq::empty())
        }
    }

    /// A thumbnail came in.
    pub open spec fn thumb_came(self, id: Seq<char>, png: Option<Vec<u8>>) -> CoversModel {
        CoversModel {
            thumb_inflight: self.thumb_inflight.remove(id),
            thumb_cache: match png {
                Some(png) => self.thumb_cache.insert(id, png),
                None => self.thumb_cache,
            },
            ..self
        }
    }

    /// The poster is painted into its rectangle when its content changed, when it is
    /// not shown, or when the rectangle moved; without a poster or a rectangle for it,
    /// any placement is removed.
    pub open spec fn rendered(self, rect: CellRect) -> (CoversModel, Seq<CommandModel>) {
        if !rect.empty() && self.current_poster is Some {
            if self.poster_dirty || !self.poster_shown || self.last_poster_rect != Some(rect) {
                (
                    self,
                    seq![
                        CommandModel::PaintPoster {
                            rect,
                            width: poster_pixels(rect).0,
                            height: poster_pixels(rect).1,
                        },
                    ],
                )
            } else {
                (self, Seq::empty())
            }
        } else if self.poster_shown {
            (
                CoversModel { poster_shown: false, last_poster_rect: None, ..self },
                seq![CommandModel::Write(DELETE_POSTER@)],
            )
        } else {
            (self, Seq::empty())
        }
    }

    /// The poster is on screen.
    pub open spec fn painted(self, png: Seq<u8>, rect: CellRect) -> (
        CoversModel,
        Seq<CommandModel>,
    ) {
        (
            CoversModel {
                poster_dirty: false,
                poster_shown: true,
                last_poster_rect: Some(rect),
                ..self
            },
            seq![
                CommandModel::Write(DELETE_POSTER@),
                CommandModel::Write(kitty::display(codec::base64_text(png), rect, POSTER_ID)),
            ],
        )
    }
}

/// The cover of a title is the one that its row in the browse list has.
pub proof fn law_cover_url(results: Seq<AnimeSummary>, i: int)
    requires
        0 <= i < results.len(),
        forall|k: int| 0 <= k < i ==> (#[trigger] results[k]).id@ != results[i].id@,
    ensures
        cover_url(results, results[i].id@) == text::opt_text(results[i].poster_url),
{
    lemma_result_with(results, results[i].id@, 0, i);
}

proof fn lemma_result_with(results: Seq<AnimeSummary>, id: Seq<char>, from: int, i: int)
    requires
        0 <= from <= i < results.len(),
        results[i].id@ == id,
        forall|k: int| from <= k < i ==> (#[trigger] results[k]).id@ != id,
    ensures
        result_with(results, id, from) == Some(results[i]),
    decreases i - from,
{
    if from < i {
        lemma_result_with(results, id, from + 1, i);
    }
}

/// Opening a title drops the poster of another and fetches its own, from where its row
/// says; the details fetch another one only when they name another address. Nothing is
/// fetched on a terminal without graphics.
pub proof fn law_poster_is_fetched(
    c: CoversModel,
    settings: Settings,
    results: Seq<AnimeSummary>,
    id: Seq<char>,
    url: Seq<char>,
    better: Seq<char>,
)
    requires
        cover_url(results, id) == Some(url),
    ensures
        ({
            let (after, asked) = c.opened(settings, results, id);
            &&& after.current_poster is None
            &&& asked.contains(CommandModel::DropPoster)
            &&& settings.graphics ==> (asked.last() matches CommandModel::FetchPoster {
                anime,
                url: u,
                path,
            } && anime == id && u == url && path == text::path_join(
                settings.poster_cache.dir(),
                cache::sanitized(id + ".poster"@),
            )) && after.poster_inflight == Some(id)
            &&& !settings.graphics ==> !(asked.last() is FetchPoster)
            &&& after.upgraded(settings, id, Some(url)).1.len() == 0
            &&& after.upgraded(settings, id, None).1.len() == 0
            &&& better != url && settings.graphics ==> {
                let more = after.upgraded(settings, id, Some(better)).1;
                more.len() == 1 && (more[0] matches CommandModel::FetchPoster { anime, url: u, .. }
                    && anime == id && u == better)
            }
        }),
{
    let (after, asked) = c.opened(settings, results, id);
    let n = c.placed_slots.len() as int;
    assert(asked[n] == CommandModel::DropPoster);
}

/// A poster is kept exactly when it could be decoded and is of the title that is shown.
pub proof fn law_poster_came(
    c: CoversModel,
    subject: Option<Seq<char>>,
    id: Seq<char>,
    decoded: bool,
)
    ensures
        ({
            let (after, asked) = c.poster_came(subject, id, decoded);
            let kept = decoded && subject == Some(id);
            &&& kept ==> after.current_poster == Some(id) && after.poster_dirty && asked == seq![
                CommandModel::KeepPoster,
            ]
            &&& !kept ==> after.current_poster == c.current_poster && asked.len() == 0
            &&& c.poster_inflight == Some(id) ==> after.poster_inflight is None
            &&& c.poster_inflight != Some(id) ==> after.poster_inflight == c.poster_inflight
        }),
{
}

/// A poster that is painted is not painted again until it changes, leaves the screen or
/// moves; without a place for it, it is taken away once.
pub proof fn law_poster_painted_once(
    c: CoversModel,
    png: Seq<u8>,
    rect: CellRect,
    other: CellRect,
)
    requires
        c.current_poster is Some,
        !rect.empty(),
    ensures
        ({
            let (after, asked) = c.painted(png, rect);
            &&& after.rendered(rect) == (after, Seq::<CommandModel>::empty())
            &&& !other.empty() && other != rect ==> after.rendered(other).1.len() == 1
                && after.rendered(other).1[0] is PaintPoster
            &&& other.empty() ==> after.rendered(other).1 == seq![
                CommandModel::Write(DELETE_POSTER@),
            ] && after.rendered(other).0.rendered(other).1.len() == 0
            &&& asked.last() == CommandModel::Write(
                kitty::display(codec::base64_text(png), rect, POSTER_ID),
            )
        }),
        c.poster_dirty ==> (c.rendered(rect).1.len() == 1 && (c.rendered(rect).1[0] matches
            CommandModel::PaintPoster { rect: at, width, height } && at == rect && (width, height)
            == poster_pixels(rect))),
{
}

/// A poster is painted at the pixels of its rectangle, or else at eight by sixteen for
/// each cell, but at one pixel at least.
pub proof fn law_poster_pixels(rect: CellRect)
    ensures
        poster_pixels(rect).0 >= 1 && poster_pixels(rect).1 >= 1,
        rect.pixel_width matches Some(w) ==> w > 0 ==> poster_pixels(rect).0 == w,
        rect.pixel_height matches Some(h) ==> h > 0 ==> poster_pixels(rect).1 == h,
        rect.pixel_width is None && rect.cols > 0 ==> poster_pixels(rect).0 == 8 * rect.cols,
        rect.pixel_height is None && rect.rows > 0 ==> poster_pixels(rect).1 == 16 * rect.rows,
{
}

/// A thumbnail that came in is kept for its title alone; one that failed is not, and may
/// be fetched again.
pub proof fn law_thumb_came(
    c: CoversModel,
    id: Seq<char>,
    other: Seq<char>,
    png: Option<Vec<u8>>,
)
    ensures
        ({
            let after = c.thumb_came(id, png);
            &&& !after.thumb_inflight.contains(id)
            &&& png matches Some(p) ==> after.thumb_cache.contains_pair(id, p)
            &&& png is None ==> after.thumb_cache == c.thumb_cache
            &&& other != id ==> after.thumb_cache.contains_key(other) == c.thumb_cache.contains_key(
                other,
            ) && after.thumb_inflight.contains(other) == c.thumb_inflight.contains(other)
        }),
{
}

/// Leaving a list takes every placement away, and freeing its covers frees every image.
pub proof fn law_covers_go(c: CoversModel, i: int)
    ensures
        c.cleared().0.placed_slots.len() == 0,
        c.cleared().0.thumb_img == c.thumb_img,
        c.cleared().1.len() == c.placed_slots.len(),
        0 <= i < c.placed_slots.len() ==> c.cleared().1[i] == CommandModel::Write(
            kitty::placement_deletion(c.placed_slots[i].1, (c.placed_slots[i].0 + 1) as u32),
        ),
        c.freed().0.thumb_img.len() == 0,
        c.freed().0.placed_slots.len() == 0,
        c.freed().1.len() == c.thumb_img.len(),
        0 <= i < c.thumb_img.len() ==> c.freed().1[i] == CommandModel::Write(
            kitty::image_release(c.thumb_img[i].1),
        ),
        !c.wiped().poster_shown,
        c.wiped().thumb_img.len() == 0 && c.wiped().placed_slots.len() == 0,
{
}

/// The rectangle of the poster on a screen.
pub open spec fn poster_box(view: View, screen: Screen, graphics: bool) -> CellRect {
    if view == View::Details && screen.rows >= 3 {
        ui::poster_cells(ui::body_of(screen.cells()), graphics, screen.window)
    } else {
        ui::nowhere()
    }
}

/// Only the details screen has a poster.
pub proof fn law_poster_box(view: View, screen: Screen, graphics: bool)
    ensures
        view != View::Details || !graphics ==> poster_box(view, screen, graphics).empty(),
        view == View::Details && screen.rows >= 3 ==> poster_box(view, screen, graphics)
            == ui::poster_cells(ui::body_of(screen.cells()), graphics, screen.window),
{
}

impl Covers {
    /// No cover is kept or shown.
    pub fn new() -> (r: Covers)
        ensures
            r@ == CoversModel::initial(),
    {
        let r = Covers {
            current_poster: None,
            poster_dirty: false,
            poster_shown: false,
            last_poster_rect: None,
            poster_inflight: None,
            last_poster_url: None,
            thumb_cache: StringHashMap::new(),
            thumb_inflight: StringHashSet::new(),
            thumb_img: Vec::new(),
            thumb_next_id: THUMB_ID_BASE,
            placed_slots: Vec::new(),
        };
        assert(r@ =~= CoversModel::initial());
        r
    }

    /// Remove the row-thumbnail PLACEMENTS but keep the transmitted image data, so
    /// returning to the list re-shows them instantly.
    pub fn clear_thumbnails(&mut self) -> (r: Vec<Command>)
        ensures
            (final(self)@, run::commands(r@)) == old(self)@.cleared(),
    {
        let ghost all = self.placed_slots@;
        let mut out = run::nothing();
        let mut i: usize = 0;
        while i < self.placed_slots.len()
            invariant
                i <= self.placed_slots@.len(),
                *self == *old(self),
                all == self.placed_slots@,
                run::commands(out@) == all.take(i as int).map_values(|p: (u16, u32)| removal(p)),
            decreases self.placed_slots@.len() - i,
        {
            let (slot, img) = self.placed_slots[i];
            assert(all.take(i + 1).map_values(|p: (u16, u32)| removal(p)) =~= all.take(
                i as int,
            ).map_values(|p: (u16, u32)| removal(p)).push(removal(all[i as int])));
            run::emit(&mut out, Command::Write(kitty::delete_placement(img, slot as u32 + 1)));
            i = i + 1;
        }
        assert(all.take(all.len() as int) =~= all);
        self.placed_slots = Vec::new();
        out
    }

    /// Free every transmitted thumbnail image (data + placements) — called when the
    /// browse result set changes, so terminal image memory stays bounded to a page.
    pub fn free_thumb_images(&mut self) -> (r: Vec<Command>)
        ensures
            (final(self)@, run::commands(r@)) == old(self)@.freed(),
    {
        let ghost all = images(self.thumb_img@);
        let mut out = run::nothing();
        let mut i: usize = 0;
        while i < self.thumb_img.len()
            invariant
                i <= self.thumb_img@.len(),
                *self == *old(self),
                all == images(self.thumb_img@),
                run::commands(out@) == all.take(i as int).map_values(
                    |p: (Seq<char>, u32)| release(p),
                ),
            decreases self.thumb_img@.len() - i,
        {
            assert(all.take(i + 1).map_values(|p: (Seq<char>, u32)| release(p)) =~= all.take(
                i as int,
            ).map_values(|p: (Seq<char>, u32)| release(p)).push(release(all[i as int])));
            run::emit(&mut out, Command::Write(kitty::free_image(self.thumb_img[i].1)));
            i = i + 1;
        }
        assert(all.take(all.len() as int) =~= all);
        self.placed_slots = Vec::new();
        if !self.thumb_img.is_empty() {
            self.thumb_next_id = THUMB_ID_BASE;
        }
        self.thumb_img = Vec::new();
        assert(self@.thumb_img =~= Seq::empty());
        out
    }

    /// The screen was wiped with every image on it: forget them.
    pub fn forget_wiped(&mut self)
        ensures
            final(self)@ == old(self)@.wiped(),
    {
        self.poster_shown = false;
        self.placed_slots = Vec::new();
        self.thumb_img = Vec::new();
        self.thumb_next_id = THUMB_ID_BASE;
        assert(self@.thumb_img =~= Seq::empty());
    }

    /// Fetch/decode/cache an anime's details poster (Kitty terminals only).
    pub fn fetch_poster(&mut self, settings: &Settings, anime: AnimeId, url: String) -> (r: Vec<
        Command,
    >)
        ensures
            (final(self)@, run::commands(r@)) == old(self)@.poster_asked(*settings, anime@, url@),
    {
        if !settings.graphics {
            return run::nothing();  // no graphics support → text-only
        }
        self.poster_inflight = Some(anime.0.clone());
        let path = settings.poster_cache.path_for(
            text::cat(anime.0.as_str(), ".poster").as_str(),
        );
        run::just(Command::FetchPoster { anime, path, url })
    }

    /// Leaving the browse list for Details: remove the row thumbnails now
    /// (not on the next frame) so none linger over the details page, and
    /// drop the previous poster so a stale cover isn't shown.
    pub fn open_title(&mut self, settings: &Settings, results: &Vec<AnimeSummary>, id: &AnimeId) -> (r:
        Vec<Command>)
        ensures
            (final(self)@, run::commands(r@)) == old(self)@.opened(*settings, results@, id@),
    {
        let mut out = self.clear_thumbnails();
        run::emit(&mut out, Command::DropPoster);
        self.current_poster = None;
        self.poster_dirty = false;
        // Fast path: start fetching the cover from the browse summary's URL
        // immediately, in parallel with the details HTML round-trip, so the
        // poster isn't gated on that request. The details cover (higher-res)
        // upgrades it later if it's a different URL.
        let mut url: Option<String> = None;
        let mut i: usize = 0;
        while i < results.len() && !text::str_same(results[i].id.0.as_str(), id.0.as_str())
            invariant
                i <= results@.len(),
                result_with(results@, id@, i as int) == result_with(results@, id@, 0),
            decreases results@.len() - i,
        {
            i = i + 1;
        }
        if i < results.len() {
            url = models::clone_text(&results[i].poster_url);
        }
        self.last_poster_url = models::clone_text(&url);
        match url {
            Some(url) => {
                run::emit_all(&mut out, self.fetch_poster(settings, id.clone(), url));
            },
            None => {},
        }
        assert(run::commands(out@) =~= old(self)@.opened(*settings, results@, id@).1);
        out
    }

    /// The poster was already kicked off from the summary URL when the title was
    /// opened; upgrade to the details cover (higher-res extraLarge) only when it's a
    /// different URL — no reset, so the fast cover isn't blanked, and no redundant fetch
    /// when the URLs match.
    pub fn upgrade_poster(
        &mut self,
        settings: &Settings,
        anime: &AnimeId,
        url: &Option<String>,
    ) -> (r: Vec<Command>)
        ensures
            (final(self)@, run::commands(r@)) == old(self)@.upgraded(
                *settings,
                anime@,
                text::opt_text(*url),
            ),
    {
        let url = match url {
            Some(u) => u,
            None => return run::nothing(),
        };
        let known = match &self.last_poster_url {
            Some(last) => text::str_same(last.as_str(), url.as_str()),
            None => false,
        };
        if known {
            return run::nothing();
        }
        self.last_poster_url = Some(url.clone());
        self.fetch_poster(settings, anime.clone(), url.clone())
    }

    /// Takes a poster in. It is applied only if it's still the subject being shown.
    pub fn on_poster(&mut self, subject: Option<&AnimeId>, anime: AnimeId, decoded: bool) -> (r: Vec<
        Command,
    >)
        ensures
            (final(self)@, run::commands(r@)) == old(self)@.poster_came(
                match subject {
                    Some(id) => Some(id@),
                    None => None,
                },
                anime@,
                decoded,
            ),
    {
        let inflight = match &self.poster_inflight {
            Some(id) => text::str_same(id.as_str(), anime.0.as_str()),
            None => false,
        };
        if inflight {
            self.poster_inflight = None;
        }
        let wanted = match subject {
            Some(id) => text::str_same(id.0.as_str(), anime.0.as_str()),
            None => false,
        };
        if wanted && decoded {
            self.current_poster = Some(anime);
            self.poster_dirty = true;
            run::just(Command::KeepPoster)
        } else {
            run::nothing()
        }
    }

    /// Takes a thumbnail in: the next pass over the rows shows it immediately.
    pub fn on_thumb(&mut self, anime: AnimeId, png: Option<Vec<u8>>)
        ensures
            final(self)@ == old(self)@.thumb_came(anime@, png),
    {
        let _ = self.thumb_inflight.remove(anime.0.as_str());
        if let Some(png) = png {
            self.thumb_cache.insert(anime.0, png);
        }
    }

    /// Paint the details-page poster into its reserved (left) rect, resizing the
    /// decoded image to the exact box for crispness, or remove it when off the
    /// details page. To be called after the TUI draw so it isn't overpainted.
    pub fn render_poster(&mut self, view: View, screen: Screen, graphics: bool) -> (r: Vec<Command>)
        ensures
            (final(self)@, run::commands(r@)) == old(self)@.rendered(
                poster_box(view, screen, graphics),
            ),
    {
        let rect = if view == View::Details {
            ui::poster_rect(screen.area(), graphics, screen.window)
        } else {
            CellRect {
                left: 0,
                top: 0,
                cols: 0,
                rows: 0,
                pixel_width: None,
                pixel_height: None,
            }
        };
        if !rect.is_empty() && self.current_poster.is_some() {
            // Re-place on: content change, first show, or a moved/resized rect
            // (e.g. switching between the details left pane and browse right pane).
            let moved = match self.last_poster_rect {
                Some(last) => last != rect,
                None => true,
            };
            if self.poster_dirty || !self.poster_shown || moved {
                let pw: u32 = match rect.pixel_width {
                    Some(w) => w as u32,
                    None => rect.cols as u32 * 8,
                };
                let ph: u32 = match rect.pixel_height {
                    Some(h) => h as u32,
                    None => rect.rows as u32 * 16,
                };
                let width: u32 = if pw < 1 {
                    1
                } else {
                    pw
                };
                let height: u32 = if ph < 1 {
                    1
                } else {
                    ph
                };
                return run::just(Command::PaintPoster { rect, width, height });
            }
            return run::nothing();
        }
        // No poster to show in this view (or none loaded): remove any placement.

        if self.poster_shown {
            self.poster_shown = false;
            self.last_poster_rect = None;
            return run::just(Command::Write(DELETE_POSTER.to_string()));
        }
        run::nothing()
    }

    /// Puts the resized poster on screen.
    pub fn on_poster_painted(&mut self, png: &[u8], rect: CellRect) -> (r: Vec<Command>)
        requires
            codec::encodable(png@.len()),
            rect.addressable(),
        ensures
            (final(self)@, run::commands(r@)) == old(self)@.painted(png@, rect),
    {
        let mut out = run::just(Command::Write(DELETE_POSTER.to_string()));
        run::emit(&mut out, Command::Write(kitty::transmit_png(png, rect)));
        self.poster_dirty = false;
        self.poster_shown = true;
        self.last_poster_rect = Some(rect);
        assert(run::commands(out@) =~= old(self)@.painted(png@, rect).1);
        out
    }
}

/// Once the transmitted covers are freed their ids are given out again from the first;
/// with none of them the next id stays.
pub proof fn law_freed_ids(c: CoversModel)
    ensures
        c.thumb_img.len() > 0 ==> c.freed().0.thumb_next_id == 100,
        c.thumb_img.len() == 0 ==> c.freed().0.thumb_next_id == c.thumb_next_id,
        c.freed().0.thumb_img.len() == 0 && c.freed().0.placed_slots.len() == 0,
        c.freed().0.thumb_cache == c.thumb_cache,
{
}

} // verus!
