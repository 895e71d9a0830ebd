//! The thumbnails beside the rows of a browse list: which covers are fetched, which are
//! transmitted, and what is placed where.

use crate::app::run;
use crate::app::run::covers;
use crate::app::run::covers::{Covers, CoversModel, Screen, THUMB_FETCH_CAP};
use crate::app::run::{Command, CommandModel, Settings};
use crate::codec;
use crate::models;
use crate::models::{AnimeId, AnimeSummary};
use crate::player::kitty;
use crate::player::kitty::CellRect;
use crate::text;
use crate::ui;
use crate::ui::{ROW_H, THUMB_COLS};
use vstd::prelude::*;
use vstd::view::View as _;

verus! {

/// The screen has room for a row with its thumbnail: the list has a border around it,
/// below the header and above the footer.
pub open spec fn thumbs_fit(screen: Screen) -> bool {
    screen.cols >= THUMB_COLS + 4 && screen.rows >= ROW_H + 4
}

/// How many row slots the screen has.
pub open spec fn slot_count(screen: Screen) -> int {
    (screen.rows - 4) / (ROW_H as int)
}

/// How many results are on screen when the list of `len` results is scrolled to
/// `offset`.
pub open spec fn shown_count(len: nat, offset: usize, slots: int) -> int {
    if offset >= len {
        0
    } else if len - offset < slots {
        len - offset
    } else {
        slots
    }
}

/// The results in the order in which their covers are fetched: those on screen first,
/// then all of them.
pub open spec fn fetch_index(offset: usize, shown: int, k: int) -> int {
    if k < shown {
        offset + k
    } else {
        k - shown
    }
}

/// An anime is among the covers to fetch.
pub open spec fn among(list: Seq<(Seq<char>, Seq<char>)>, id: Seq<char>) -> bool {
    exists|i: int| 0 <= i < list.len() && (#[trigger] list[i]).0 == id
}

/// The first image of an anime, from position `i` on.
pub open spec fn image_at(imgs: Seq<(Seq<char>, u32)>, id: Seq<char>, i: int) -> Option<int>
    decreases imgs.len() - i,
{
    if i < 0 || i >= imgs.len() {
        None
    } else if imgs[i].0 == id {
        Some(i)
    } else {
        image_at(imgs, id, i + 1)
    }
}

/// The image id of an anime's cover, once it was transmitted.
pub open spec fn image_of(imgs: Seq<(Seq<char>, u32)>, id: Seq<char>) -> Option<u32> {
    match image_at(imgs, id, 0) {
        Some(i) => Some(imgs[i].1),
        None => None,
    }
}

/// The images with the cover of an anime transmitted under a new id.
pub open spec fn with_image(imgs: Seq<(Seq<char>, u32)>, id: Seq<char>, img: u32) -> Seq<
    (Seq<char>, u32),
> {
    match image_at(imgs, id, 0) {
        Some(i) => imgs.update(i, (id, img)),
        None => imgs.push((id, img)),
    }
}

/// The image id after another one.
pub open spec fn id_after(id: u32) -> u32 {
    if id == u32::MAX {
        0
    } else {
        (id + 1) as u32
    }
}

/// The image id `n` after another one.
pub open spec fn id_later(id: u32, n: int) -> u32
    decreases n,
{
    if n <= 0 {
        id
    } else {
        id_after(id_later(id, n - 1))
    }
}

/// The cells of a row slot's thumbnail.
pub open spec fn slot_cells(slot: u16) -> CellRect {
    CellRect {
        left: 1,
        top: (2 + slot * ROW_H) as u16,
        cols: THUMB_COLS,
        rows: ROW_H,
        pixel_width: None,
        pixel_height: None,
    }
}

/// What shows an image in a row slot.
pub open spec fn showing(p: (u16, u32)) -> CommandModel {
    CommandModel::Write(kitty::placement(p.1, (p.0 + 1) as u32, slot_cells(p.0)))
}

/// The covers to fetch, with the ids of their anime: of the results in their fetching
/// order from position `k` on, those that have a cover which is neither cached nor being
/// fetched, each once, until so many are being fetched as is allowed. `found` are those
/// found before.
pub open spec fn to_fetch(
    c: CoversModel,
    results: Seq<AnimeSummary>,
    offset: usize,
    shown: int,
    found: Seq<(Seq<char>, Seq<char>)>,
    k: int,
) -> Seq<(Seq<char>, Seq<char>)>
    decreases shown + results.len() - k,
{
    if k < 0 || k >= shown + results.len() || c.thumb_inflight.len() + found.len()
        >= THUMB_FETCH_CAP {
        found
    } else {
        let a = results[fetch_index(offset, shown, k)];
        let next = match a.poster_url {
            Some(url) if !c.thumb_cache.contains_key(a.id@) && !c.thumb_inflight.contains(a.id@)
                && !among(found, a.id@) => found.push((a.id@, url@)),
            _ => found,
        };
        to_fetch(c, results, offset, shown, next, k + 1)
    }
}

/// The anime being fetched with those of a list.
pub open spec fn with_ids(set: Set<Seq<char>>, list: Seq<(Seq<char>, Seq<char>)>) -> Set<Seq<char>>
    decreases list.len(),
{
    if list.len() == 0 {
        set
    } else {
        with_ids(set, list.drop_last()).insert(list.last().0)
    }
}

/// What fetches a cover.
pub open spec fn fetching(settings: Settings, p: (Seq<char>, Seq<char>)) -> CommandModel {
    CommandModel::FetchThumb {
        anime: p.0,
        path: covers::cover_path(settings, p.0, ".thumb"@),
        url: p.1,
    }
}

/// The anime of the first `n` rows on screen whose cover is cached and was not
/// transmitted yet.
pub open spec fn unsent(c: CoversModel, results: Seq<AnimeSummary>, offset: usize, n: int) -> Seq<
    Seq<char>,
>
    decreases n,
{
    if n <= 0 {
        Seq::empty()
    } else {
        let head = unsent(c, results, offset, n - 1);
        let id = results[offset + n - 1].id@;
        if c.thumb_cache.contains_key(id) && codec::encodable(c.thumb_cache[id]@.len())
            && image_of(c.thumb_img, id) is None {
            head.push(id)
        } else {
            head
        }
    }
}

/// The covers of a list are cached, and small enough to be transmitted.
pub open spec fn sendable(c: CoversModel, list: Seq<Seq<char>>) -> bool {
    forall|i: int|
        0 <= i < list.len() ==> c.thumb_cache.contains_key(#[trigger] list[i])
            && codec::encodable(c.thumb_cache[list[i]]@.len())
}

/// The images after the first `n` covers of a list were transmitted.
pub open spec fn images_after(c: CoversModel, list: Seq<Seq<char>>, n: int) -> Seq<
    (Seq<char>, u32),
>
    decreases n,
{
    if n <= 0 {
        c.thumb_img
    } else {
        with_image(images_after(c, list, n - 1), list[n - 1], id_later(c.thumb_next_id, n - 1))
    }
}

/// What transmits the cover at a position of a list.
pub open spec fn sending(c: CoversModel, list: Seq<Seq<char>>, i: int) -> CommandModel {
    CommandModel::Write(
        kitty::transmission(
            codec::base64_text(c.thumb_cache[list[i]]@),
            id_later(c.thumb_next_id, i),
        ),
    )
}

/// The placements wanted on the first `n` rows on screen: those whose cover was
/// transmitted.
pub open spec fn wanted(
    imgs: Seq<(Seq<char>, u32)>,
    results: Seq<AnimeSummary>,
    offset: usize,
    n: int,
) -> Seq<(u16, u32)>
    decreases n,
{
    if n <= 0 {
        Seq::empty()
    } else {
        let head = wanted(imgs, results, offset, n - 1);
        match image_of(imgs, results[offset + n - 1].id@) {
            Some(img) => head.push(((n - 1) as u16, img)),
            None => head,
        }
    }
}

/// The covers after the missing ones were asked for.
pub open spec fn asked(
    c: CoversModel,
    settings: Settings,
    results: Seq<AnimeSummary>,
    offset: usize,
    shown: int,
) -> (CoversModel, Seq<CommandModel>) {
    let list = to_fetch(c, results, offset, shown, Seq::empty(), 0);
    (
        CoversModel { thumb_inflight: with_ids(c.thumb_inflight, list), ..c },
        list.map_values(|p: (Seq<char>, Seq<char>)| fetching(settings, p)),
    )
}

/// The covers after those on screen were transmitted.
pub open spec fn sent(c: CoversModel, results: Seq<AnimeSummary>, offset: usize, shown: int) -> (
    CoversModel,
    Seq<CommandModel>,
) {
    let list = unsent(c, results, offset, shown);
    (
        CoversModel {
            thumb_img: images_after(c, list, list.len() as int),
            thumb_next_id: id_later(c.thumb_next_id, list.len() as int),
            ..c
        },
        Seq::new(list.len(), |i: int| sending(c, list, i)),
    )
}

/// The covers after the placements were brought in line with the wanted ones: stale ones
/// are removed, missing ones are made, and the others are left alone.
pub open spec fn aligned(c: CoversModel, want: Seq<(u16, u32)>) -> (
    CoversModel,
    Seq<CommandModel>,
) {
    (
        CoversModel { placed_slots: want, ..c },
        c.placed_slots.filter(|p: (u16, u32)| !want.contains(p)).map_values(
            |p: (u16, u32)| covers::removal(p),
        ) + want.filter(|p: (u16, u32)| !c.placed_slots.contains(p)).map_values(
            |p: (u16, u32)| showing(p),
        ),
    )
}

/// One pass over the rows of a browse list: missing covers are asked for, cached ones on
/// screen are transmitted once, and placements follow the rows. Off a browse list, or
/// without room, the placements are removed.
pub open spec fn placed(
    c: CoversModel,
    settings: Settings,
    browsing: bool,
    results: Seq<AnimeSummary>,
    offset: usize,
    screen: Screen,
) -> (CoversModel, Seq<CommandModel>) {
    if !browsing || !settings.graphics || !thumbs_fit(screen) {
        c.cleared()
    } else {
        let shown = shown_count(results.len(), offset, slot_count(screen));
        let (c1, fetches) = asked(c, settings, results, offset, shown);
        let (c2, sends) = sent(c1, results, offset, shown);
        let (c3, moves) = aligned(c2, wanted(c2.thumb_img, results, offset, shown));
        (c3, fetches + sends + moves)
    }
}

/// No more covers are fetched at once than is allowed, and each for an anime whose cover
/// is neither cached nor being fetched already.
pub proof fn law_fetch_cap(c: CoversModel, results: Seq<AnimeSummary>, offset: usize, shown: int)
    requires
        0 <= shown,
        c.thumb_inflight.len() <= THUMB_FETCH_CAP,
    ensures
        ({
            let list = to_fetch(c, results, offset, shown, Seq::empty(), 0);
            &&& c.thumb_inflight.len() + list.len() <= THUMB_FETCH_CAP
            &&& forall|i: int|
                0 <= i < list.len() ==> !c.thumb_cache.contains_key((#[trigger] list[i]).0)
                    && !c.thumb_inflight.contains(list[i].0)
            &&& forall|i: int, j: int|
                0 <= i < j < list.len() ==> (#[trigger] list[i]).0 != (#[trigger] list[j]).0
        }),
{
    lemma_to_fetch(c, results, offset, shown, Seq::empty(), 0);
}

/// What the covers found so far keep.
spec fn fresh(c: CoversModel, list: Seq<(Seq<char>, Seq<char>)>) -> bool {
    &&& c.thumb_inflight.len() + list.len() <= THUMB_FETCH_CAP
    &&& forall|i: int|
        0 <= i < list.len() ==> !c.thumb_cache.contains_key((#[trigger] list[i]).0)
            && !c.thumb_inflight.contains(list[i].0)
    &&& forall|i: int, j: int|
        0 <= i < j < list.len() ==> (#[trigger] list[i]).0 != (#[trigger] list[j]).0
}

proof fn lemma_to_fetch(
    c: CoversModel,
    results: Seq<AnimeSummary>,
    offset: usize,
    shown: int,
    found: Seq<(Seq<char>, Seq<char>)>,
    k: int,
)
    requires
        fresh(c, found),
    ensures
        fresh(c, to_fetch(c, results, offset, shown, found, k)),
    decreases shown + results.len() - k,
{
    if k < 0 || k >= shown + results.len() || c.thumb_inflight.len() + found.len()
        >= THUMB_FETCH_CAP {
    } else {
        let a = results[fetch_index(offset, shown, k)];
        let next = match a.poster_url {
            Some(url) if !c.thumb_cache.contains_key(a.id@) && !c.thumb_inflight.contains(a.id@)
                && !among(found, a.id@) => found.push((a.id@, url@)),
            _ => found,
        };
        lemma_to_fetch(c, results, offset, shown, next, k + 1);
    }
}

/// A second pass over the same rows, with nothing new fetched, sends and moves nothing.
pub proof fn law_idle_pass(
    c: CoversModel,
    results: Seq<AnimeSummary>,
    offset: usize,
    shown: int,
)
    requires
        unsent(c, results, offset, shown).len() == 0,
        c.placed_slots == wanted(c.thumb_img, results, offset, shown),
    ensures
        sent(c, results, offset, shown) == (c, Seq::<CommandModel>::empty()),
        aligned(c, wanted(c.thumb_img, results, offset, shown)) == (
            c,
            Seq::<CommandModel>::empty(),
        ),
{
    let (c2, sends) = sent(c, results, offset, shown);
    assert(c2 =~= c);
    assert(sends =~= Seq::<CommandModel>::empty());
    let want = wanted(c.thumb_img, results, offset, shown);
    lemma_filter_none(c.placed_slots, |p: (u16, u32)| !want.contains(p));
    lemma_filter_none(want, |p: (u16, u32)| !c.placed_slots.contains(p));
    let (c3, moves) = aligned(c, want);
    assert(c3 =~= c);
    assert(moves =~= Seq::<CommandModel>::empty());
}

/// Filtering by what no item meets leaves nothing.
proof fn lemma_filter_none(s: Seq<(u16, u32)>, p: spec_fn((u16, u32)) -> bool)
    requires
        forall|i: int| 0 <= i < s.len() ==> !p(#[trigger] s[i]),
    ensures
        s.filter(p).len() == 0,
    decreases s.len(),
{
    reveal(Seq::filter);
    if s.len() > 0 {
        assert forall|i: int| 0 <= i < s.drop_last().len() implies !p(
            #[trigger] s.drop_last()[i],
        ) by {
            assert(s.drop_last()[i] == s[i]);
        }
        lemma_filter_none(s.drop_last(), p);
        assert(!p(s[s.len() - 1]));
    }
}

/// Thumbnails never take the image id of the poster, as long as fewer than four thousand
/// million covers were transmitted since the ids were last reset.
pub proof fn law_ids_leave_the_poster(n: int)
    requires
        0 <= n <= u32::MAX - kitty::THUMB_ID_BASE,
    ensures
        id_later(kitty::THUMB_ID_BASE, n) == kitty::THUMB_ID_BASE + n,
        id_later(kitty::THUMB_ID_BASE, n) != kitty::POSTER_ID,
    decreases n,
{
    if n > 0 {
        law_ids_leave_the_poster(n - 1);
    }
}

/// The thumbnails stand below each other beside the rows, without overlapping, each as
/// wide and as high as its place.
pub proof fn law_slots(a: u16, b: u16)
    requires
        a < b < 13000,
    ensures
        slot_cells(a).left == slot_cells(b).left,
        slot_cells(a).top + slot_cells(a).rows <= slot_cells(b).top,
        slot_cells(0).top == 2,
        b == a + 1 ==> slot_cells(a).top + slot_cells(a).rows == slot_cells(b).top,
        slot_cells(a).rows == 5,
        slot_cells(a).cols == 8,
        slot_cells(a).left == 1,
{
}

/// The covers of the rows on screen are fetched before the others, and every result is
/// reached.
pub proof fn law_fetch_order(offset: usize, shown: int, k: int)
    requires
        0 <= shown,
    ensures
        0 <= k < shown ==> fetch_index(offset, shown, k) == offset + k,
        k >= 0 ==> fetch_index(offset, shown, shown + k) == k,
{
}

/// What is fetched is the cover of a result, under the id of that result.
pub proof fn law_fetched_covers(
    c: CoversModel,
    settings: Settings,
    results: Seq<AnimeSummary>,
    offset: usize,
    shown: int,
    i: int,
)
    requires
        0 <= shown,
        offset + shown <= results.len(),
        0 <= i < asked(c, settings, results, offset, shown).1.len(),
    ensures
        asked(c, settings, results, offset, shown).1[i] matches CommandModel::FetchThumb {
            anime,
            path,
            url,
        } && (exists|k: int|
            0 <= k < results.len() && (#[trigger] results[k]).id@ == anime && (results[k].poster_url
                matches Some(u) && u@ == url)) && path == text::path_join(
            settings.poster_cache.dir(),
            crate::cache::sanitized(anime + ".thumb"@),
        ),
{
    lemma_fetched(c, results, offset, shown, Seq::empty(), 0);
    let list = to_fetch(c, results, offset, shown, Seq::empty(), 0);
    assert(of_results(results, list));
    assert(asked(c, settings, results, offset, shown).1[i] == fetching(settings, list[i]));
}

/// Every pair of a list is the id and the cover of a result.
spec fn of_results(results: Seq<AnimeSummary>, list: Seq<(Seq<char>, Seq<char>)>) -> bool {
    forall|i: int|
        0 <= i < list.len() ==> exists|k: int|
            0 <= k < results.len() && (#[trigger] results[k]).id@ == (#[trigger] list[i]).0 && (
            results[k].poster_url matches Some(u) && u@ == list[i].1)
}

proof fn lemma_fetched(
    c: CoversModel,
    results: Seq<AnimeSummary>,
    offset: usize,
    shown: int,
    found: Seq<(Seq<char>, Seq<char>)>,
    k: int,
)
    requires
        0 <= shown,
        offset + shown <= results.len(),
        0 <= k,
        of_results(results, found),
    ensures
        of_results(results, to_fetch(c, results, offset, shown, found, k)),
    decreases shown + results.len() - k,
{
    if k >= shown + results.len() || c.thumb_inflight.len() + found.len() >= THUMB_FETCH_CAP {
    } else {
        let at = fetch_index(offset, shown, k);
        let a = results[at];
        let next = match a.poster_url {
            Some(url) if !c.thumb_cache.contains_key(a.id@) && !c.thumb_inflight.contains(a.id@)
                && !among(found, a.id@) => found.push((a.id@, url@)),
            _ => found,
        };
        assert(of_results(results, next)) by {
            assert forall|i: int| 0 <= i < next.len() implies exists|k: int|
                0 <= k < results.len() && (#[trigger] results[k]).id@ == (#[trigger] next[i]).0 && (
                results[k].poster_url matches Some(u) && u@ == next[i].1) by {
                if i < found.len() {
                    assert(next[i] == found[i]);
                } else {
                    assert(results[at].id@ == next[i].0);
                }
            }
        }
        lemma_fetched(c, results, offset, shown, next, k + 1);
    }
}

/// Each placement that is wanted shows, in its row, the image of the result in that row.
pub proof fn law_wanted(
    imgs: Seq<(Seq<char>, u32)>,
    results: Seq<AnimeSummary>,
    offset: usize,
    n: int,
    i: int,
)
    requires
        0 <= n <= u16::MAX,
        0 <= i < wanted(imgs, results, offset, n).len(),
    ensures
        ({
            let (slot, img) = wanted(imgs, results, offset, n)[i];
            slot < n && image_of(imgs, results[offset + slot].id@) == Some(img)
        }),
    decreases n,
{
    if n > 0 {
        let head = wanted(imgs, results, offset, n - 1);
        if i < head.len() {
            law_wanted(imgs, results, offset, n - 1, i);
        }
    }
}

/// A row whose cover was transmitted has its placement.
pub proof fn law_wanted_all(
    imgs: Seq<(Seq<char>, u32)>,
    results: Seq<AnimeSummary>,
    offset: usize,
    n: int,
    slot: u16,
    img: u32,
)
    requires
        0 <= n <= u16::MAX,
        slot < n,
        image_of(imgs, results[offset + slot].id@) == Some(img),
    ensures
        wanted(imgs, results, offset, n).contains((slot, img)),
    decreases n,
{
    let w = wanted(imgs, results, offset, n);
    let head = wanted(imgs, results, offset, n - 1);
    if slot == n - 1 {
        assert(w[head.len() as int] == (slot, img));
    } else {
        law_wanted_all(imgs, results, offset, n - 1, slot, img);
        let i = choose|i: int| 0 <= i < head.len() && head[i] == (slot, img);
        assert(w[i] == (slot, img));
    }
}

/// An image that was transmitted is found under its title, and those of other titles
/// stay.
pub proof fn law_images(imgs: Seq<(Seq<char>, u32)>, id: Seq<char>, other: Seq<char>, img: u32)
    ensures
        image_of(with_image(imgs, id, img), id) == Some(img),
        other != id ==> image_of(with_image(imgs, id, img), other) == image_of(imgs, other),
{
    lemma_image_at(imgs, id, 0);
    lemma_image_at(imgs, other, 0);
    let after = with_image(imgs, id, img);
    lemma_image_at(after, id, 0);
    lemma_image_at(after, other, 0);
    match image_at(imgs, id, 0) {
        Some(i) => {
            assert(after[i].0 == id);
        },
        None => {
            assert(after[imgs.len() as int].0 == id);
        },
    }
    if other != id {
        match image_at(imgs, other, 0) {
            Some(i) => {
                assert(after[i] == imgs[i]);
                let k = image_at(after, other, 0)->0;
                if k < i {
                    assert(after[k].0 == other);
                    assert(imgs[k].0 == other);
                }
            },
            None => {
                if let Some(k) = image_at(after, other, 0) {
                    assert(after[k].0 == other);
                    if k < imgs.len() {
                        assert(imgs[k].0 == other);
                    }
                }
            },
        }
    }
}

proof fn lemma_image_at(imgs: Seq<(Seq<char>, u32)>, id: Seq<char>, from: int)
    requires
        0 <= from <= imgs.len(),
    ensures
        match image_at(imgs, id, from) {
            Some(i) => from <= i < imgs.len() && imgs[i].0 == id && forall|k: int|
                from <= k < i ==> (#[trigger] imgs[k]).0 != id,
            None => forall|k: int| from <= k < imgs.len() ==> (#[trigger] imgs[k]).0 != id,
        },
    decreases imgs.len() - from,
{
    if from < imgs.len() && imgs[from].0 != id {
        lemma_image_at(imgs, id, from + 1);
    }
}

/// After a pass the placements are the wanted ones: what was placed and is not wanted is
/// taken away, what is wanted and was not placed is shown, and nothing else is written.
pub proof fn law_aligned(c: CoversModel, want: Seq<(u16, u32)>, i: int)
    requires
        0 <= i < aligned(c, want).1.len(),
    ensures
        aligned(c, want).0.placed_slots == want,
        ({
            let cmd = aligned(c, want).1[i];
            (exists|p: (u16, u32)|
                c.placed_slots.contains(p) && !want.contains(p) && cmd == #[trigger] covers::removal(
                    p,
                )) || (exists|p: (u16, u32)|
                want.contains(p) && !c.placed_slots.contains(p) && cmd == #[trigger] showing(p))
        }),
{
    let stale = |p: (u16, u32)| !want.contains(p);
    let fresh = |p: (u16, u32)| !c.placed_slots.contains(p);
    let a = c.placed_slots.filter(stale);
    let b = want.filter(fresh);
    if i < a.len() {
        c.placed_slots.lemma_filter_pred(stale, i);
        assert(a.contains(a[i]));
        c.placed_slots.lemma_filter_contains_rev(stale, a[i]);
        assert(aligned(c, want).1[i] == covers::removal(a[i]));
    } else {
        let k = i - a.len();
        want.lemma_filter_pred(fresh, k);
        assert(b.contains(b[k]));
        want.lemma_filter_contains_rev(fresh, b[k]);
        assert(aligned(c, want).1[i] == showing(b[k]));
    }
}

/// How many results are on screen: as many as there are rows for, from the first that is
/// scrolled to.
pub proof fn law_shown_count(len: nat, offset: usize, slots: int)
    requires
        slots >= 0,
    ensures
        offset + slots <= len ==> shown_count(len, offset, slots) == slots,
        offset <= len && len <= offset + slots ==> shown_count(len, offset, slots) == len - offset,
        offset > len ==> shown_count(len, offset, slots) == 0,
{
}

/// A row has its thumbnail where the screen has room for the frame, the row and the
/// thumbnail, and there are as many as fit.
pub proof fn law_room(screen: Screen)
    ensures
        thumbs_fit(screen) <==> screen.cols >= 12 && screen.rows >= 9,
        thumbs_fit(screen) ==> slot_count(screen) >= 1 && 5 * slot_count(screen) + 4 <= screen.rows
            && screen.rows < 5 * (slot_count(screen) + 1) + 4,
{
}

/// The covers that are transmitted are those of the rows on screen that are cached and
/// were not transmitted before.
pub proof fn law_unsent(
    c: CoversModel,
    results: Seq<AnimeSummary>,
    offset: usize,
    n: int,
    id: Seq<char>,
)
    requires
        0 <= n,
    ensures
        unsent(c, results, offset, n).contains(id) <==> (exists|k: int|
            0 <= k < n && (#[trigger] results[offset + k]).id@ == id) && c.thumb_cache.contains_key(id)
            && codec::encodable(c.thumb_cache[id]@.len()) && image_of(c.thumb_img, id) is None,
    decreases n,
{
    let all = unsent(c, results, offset, n);
    if n > 0 {
        law_unsent(c, results, offset, n - 1, id);
        let head = unsent(c, results, offset, n - 1);
        let last = results[offset + n - 1].id@;
        if head.contains(id) {
            let i = choose|i: int| 0 <= i < head.len() && head[i] == id;
            assert(all[i] == id);
            let k = choose|k: int| 0 <= k < n - 1 && (#[trigger] results[offset + k]).id@ == id;
            assert(results[offset + k].id@ == id);
        }
        if all.contains(id) && !head.contains(id) {
            let i = choose|i: int| 0 <= i < all.len() && all[i] == id;
            if i < head.len() {
                assert(head[i] == id);
            }
            assert(last == id);
            assert(results[offset + (n - 1)].id@ == id);
        }
        if (exists|k: int| 0 <= k < n && (#[trigger] results[offset + k]).id@ == id)
            && c.thumb_cache.contains_key(id) && codec::encodable(c.thumb_cache[id]@.len())
            && image_of(c.thumb_img, id) is None && !head.contains(id) {
            let k = choose|k: int| 0 <= k < n && (#[trigger] results[offset + k]).id@ == id;
            assert(k == n - 1);
            assert(all[head.len() as int] == id);
        }
    }
}

/// Each cover that is transmitted goes out under an id of its own, with the picture that
/// is cached for its title.
pub proof fn law_sent(
    c: CoversModel,
    results: Seq<AnimeSummary>,
    offset: usize,
    shown: int,
    i: int,
)
    requires
        0 <= i < unsent(c, results, offset, shown).len(),
        c.thumb_next_id + unsent(c, results, offset, shown).len() <= u32::MAX,
    ensures
        ({
            let list = unsent(c, results, offset, shown);
            let (after, asked) = sent(c, results, offset, shown);
            &&& asked.len() == list.len()
            &&& asked[i] == CommandModel::Write(
                kitty::transmission(
                    codec::base64_text(c.thumb_cache[list[i]]@),
                    (c.thumb_next_id + i) as u32,
                ),
            )
            &&& after.thumb_next_id == c.thumb_next_id + list.len()
        }),
{
    lemma_id_later(c.thumb_next_id, i);
    lemma_id_later(c.thumb_next_id, unsent(c, results, offset, shown).len() as int);
}

proof fn lemma_id_later(id: u32, n: int)
    requires
        0 <= n,
        id + n <= u32::MAX,
    ensures
        id_later(id, n) == id + n,
    decreases n,
{
    if n > 0 {
        lemma_id_later(id, n - 1);
    }
}

/// Whether an anime is among the covers to fetch.
fn is_among(list: &Vec<(String, String)>, id: &str) -> (r: bool)
    ensures
        r == among(models::pairs(list@), id@),
{
    let mut i: usize = 0;
    while i < list.len()
        invariant
            i <= list@.len(),
            forall|k: int| 0 <= k < i ==> (#[trigger] models::pairs(list@)[k]).0 != id@,
        decreases list@.len() - i,
    {
        if text::str_same(list[i].0.as_str(), id) {
            assert(models::pairs(list@)[i as int].0 == id@);
            return true;
        }
        i = i + 1;
    }
    false
}

/// The position of the image of an anime's cover.
fn find_image(imgs: &Vec<(String, u32)>, id: &str) -> (r: Option<usize>)
    ensures
        match r {
            Some(i) => image_at(covers::images(imgs@), id@, 0) == Some(i as int) && i
                < imgs@.len(),
            None => image_at(covers::images(imgs@), id@, 0) is None,
        },
{
    let ghost all = covers::images(imgs@);
    let mut i: usize = 0;
    while i < imgs.len()
        invariant
            i <= imgs@.len(),
            all == covers::images(imgs@),
            image_at(all, id@, i as int) == image_at(all, id@, 0),
        decreases imgs@.len() - i,
    {
        if text::str_same(imgs[i].0.as_str(), id) {
            return Some(i);
        }
        i = i + 1;
    }
    None
}

/// Whether a placement is in a list.
fn holds(list: &Vec<(u16, u32)>, p: (u16, u32)) -> (r: bool)
    ensures
        r == list@.contains(p),
{
    let mut i: usize = 0;
    while i < list.len()
        invariant
            i <= list@.len(),
            forall|k: int| 0 <= k < i ==> list@[k] != p,
        decreases list@.len() - i,
    {
        if list[i].0 == p.0 && list[i].1 == p.1 {
            assert(list@[i as int] == p);
            return true;
        }
        i = i + 1;
    }
    false
}

impl Covers {
    /// Missing covers to fetch — visible rows first, then the rest — so scrolling finds
    /// them cached (instant). Bounded concurrency.
    fn missing(&self, results: &Vec<AnimeSummary>, offset: usize, shown: usize) -> (r: Vec<
        (String, String),
    >)
        requires
            shown == 0 || offset + shown <= results@.len(),
        ensures
            models::pairs(r@) == to_fetch(
                self@,
                results@,
                offset,
                shown as int,
                Seq::empty(),
                0,
            ),
    {
        let ghost all = to_fetch(self@, results@, offset, shown as int, Seq::empty(), 0);
        let mut found: Vec<(String, String)> = Vec::new();
        assert(models::pairs(found@) =~= Seq::empty());
        let inflight: usize = self.thumb_inflight.len();
        if inflight >= THUMB_FETCH_CAP {
            return found;
        }
        let len: usize = results.len();
        let total: u128 = shown as u128 + len as u128;
        let mut k: u128 = 0;
        while k < total && found.len() < THUMB_FETCH_CAP - inflight
            invariant
                k <= total,
                total == shown + len,
                len == results@.len(),
                shown == 0 || offset + shown <= results@.len(),
                inflight == self@.thumb_inflight.len(),
                inflight < THUMB_FETCH_CAP,
                all == to_fetch(
                    self@,
                    results@,
                    offset,
                    shown as int,
                    models::pairs(found@),
                    k as int,
                ),
            decreases total - k,
        {
            let at: usize = if k < shown as u128 {
                offset + k as usize
            } else {
                (k - shown as u128) as usize
            };
            assert(at == fetch_index(offset, shown as int, k as int));
            let a = &results[at];
            let id = a.id.0.as_str();
            if let Some(url) = &a.poster_url {
                if !self.thumb_cache.contains_key(id) && !self.thumb_inflight.contains(id)
                    && !is_among(&found, id) {
                    let ghost before = found@;
                    let pair = (a.id.0.clone(), url.clone());
                    found.push(pair);
                    assert(models::pairs(found@) =~= models::pairs(before).push(
                        (a.id@, url@),
                    ));
                }
            }
            k = k + 1;
        }
        found
    }

    /// Fetch a small row thumbnail (already sized down). Bounded concurrency via
    /// `thumb_inflight`.
    fn fetch_thumb(&mut self, settings: &Settings, anime: AnimeId, url: String) -> (r: Command)
        ensures
            final(self)@ == (CoversModel {
                thumb_inflight: old(self)@.thumb_inflight.insert(anime@),
                ..old(self)@
            }),
            r@ == fetching(*settings, (anime@, url@)),
    {
        let _ = self.thumb_inflight.insert(anime.0.clone());
        let path = settings.poster_cache.path_for(text::cat(anime.0.as_str(), ".thumb").as_str());
        Command::FetchThumb { anime, path, url }
    }

    /// Ask for the missing covers.
    fn fetch_missing(
        &mut self,
        settings: &Settings,
        results: &Vec<AnimeSummary>,
        offset: usize,
        shown: usize,
    ) -> (r: Vec<Command>)
        requires
            shown == 0 || offset + shown <= results@.len(),
        ensures
            (final(self)@, run::commands(r@)) == asked(
                old(self)@,
                *settings,
                results@,
                offset,
                shown as int,
            ),
    {
        let list = self.missing(results, offset, shown);
        let ghost all = models::pairs(list@);
        let ghost f = |p: (Seq<char>, Seq<char>)| fetching(*settings, p);
        let mut out = run::nothing();
        let mut i: usize = 0;
        while i < list.len()
            invariant
                i <= list@.len(),
                all == models::pairs(list@),
                f == (|p: (Seq<char>, Seq<char>)| fetching(*settings, p)),
                self@ == (CoversModel {
                    thumb_inflight: with_ids(old(self)@.thumb_inflight, all.take(i as int)),
                    ..old(self)@
                }),
                run::commands(out@) == all.take(i as int).map_values(f),
            decreases list@.len() - i,
        {
            proof {
                assert(all.take(i + 1).drop_last() =~= all.take(i as int));
                assert(all.take(i + 1).map_values(f) =~= all.take(i as int).map_values(f).push(
                    f(all[i as int]),
                ));
            }
            let fetch = self.fetch_thumb(
                settings,
                AnimeId(list[i].0.clone()),
                list[i].1.clone(),
            );
            run::emit(&mut out, fetch);
            i = i + 1;
        }
        assert(all.take(all.len() as int) =~= all);
        out
    }

    /// The visible covers that are cached and were not sent yet.
    fn list_unsent(&self, results: &Vec<AnimeSummary>, offset: usize, shown: usize) -> (r: Vec<
        String,
    >)
        requires
            shown == 0 || offset + shown <= results@.len(),
        ensures
            text::texts(r@) == unsent(self@, results@, offset, shown as int),
            sendable(self@, text::texts(r@)),
    {
        let mut list: Vec<String> = Vec::new();
        let len: usize = results.len();
        let mut i: usize = 0;
        assert(text::texts(list@) =~= Seq::empty());
        while i < shown
            invariant
                i <= shown,
                len == results@.len(),
                shown == 0 || offset + shown <= results@.len(),
                text::texts(list@) == unsent(self@, results@, offset, i as int),
                sendable(self@, text::texts(list@)),
            decreases shown - i,
        {
            let id = &results[offset + i].id.0;
            let cached = match self.thumb_cache.get(id.as_str()) {
                Some(png) => codec::can_encode(png.len()),
                None => false,
            };
            if cached && find_image(&self.thumb_img, id.as_str()).is_none() {
                text::put(&mut list, id.clone());
            }
            i = i + 1;
        }
        list
    }

    /// Transmit (once) any visible cover we have cached but haven't sent yet.
    fn send_covers(&mut self, results: &Vec<AnimeSummary>, offset: usize, shown: usize) -> (r: Vec<
        Command,
    >)
        requires
            shown == 0 || offset + shown <= results@.len(),
        ensures
            (final(self)@, run::commands(r@)) == sent(old(self)@, results@, offset, shown as int),
    {
        let list = self.list_unsent(results, offset, shown);
        let ghost all = text::texts(list@);
        let ghost c = self@;
        let mut out = run::nothing();
        let mut i: usize = 0;
        assert(run::commands(out@) =~= Seq::new(0, |k: int| sending(c, all, k)));
        while i < list.len()
            invariant
                i <= list@.len(),
                all == text::texts(list@),
                c == old(self)@,
                sendable(c, all),
                self@ == (CoversModel {
                    thumb_img: images_after(c, all, i as int),
                    thumb_next_id: id_later(c.thumb_next_id, i as int),
                    ..c
                }),
                run::commands(out@) == Seq::new(i as nat, |k: int| sending(c, all, k)),
            decreases list@.len() - i,
        {
            let ghost imgs = self@.thumb_img;
            assert(all[i as int] == list@[i as int]@);
            let id: u32 = self.thumb_next_id;
            self.thumb_next_id = id.wrapping_add(1);
            if let Some(png) = self.thumb_cache.get(list[i].as_str()) {
                run::emit(&mut out, Command::Write(kitty::transmit_data(png.as_slice(), id)));
            }
            assert(run::commands(out@) =~= Seq::new((i + 1) as nat, |k: int| sending(c, all, k)));
            match find_image(&self.thumb_img, list[i].as_str()) {
                Some(at) => {
                    self.thumb_img.set(at, (list[i].clone(), id));
                    assert(self@.thumb_img =~= imgs.update(at as int, (all[i as int], id)));
                },
                None => {
                    self.thumb_img.push((list[i].clone(), id));
                    assert(self@.thumb_img =~= imgs.push((all[i as int], id)));
                },
            }
            i = i + 1;
        }
        out
    }

    /// Desired placement per slot: slot → image id, for visible transmitted covers.
    fn list_wanted(&self, results: &Vec<AnimeSummary>, offset: usize, shown: usize) -> (r: Vec<
        (u16, u32),
    >)
        requires
            shown == 0 || offset + shown <= results@.len(),
            shown <= u16::MAX,
        ensures
            r@ == wanted(self@.thumb_img, results@, offset, shown as int),
            forall|i: int| 0 <= i < r@.len() ==> (#[trigger] r@[i]).0 < shown,
    {
        let mut want: Vec<(u16, u32)> = Vec::new();
        let len: usize = results.len();
        let mut i: usize = 0;
        while i < shown
            invariant
                i <= shown,
                len == results@.len(),
                shown <= u16::MAX,
                shown == 0 || offset + shown <= results@.len(),
                want@ == wanted(self@.thumb_img, results@, offset, i as int),
                forall|k: int| 0 <= k < want@.len() ==> (#[trigger] want@[k]).0 < shown,
            decreases shown - i,
        {
            match find_image(&self.thumb_img, results[offset + i].id.0.as_str()) {
                Some(at) => {
                    want.push((i as u16, self.thumb_img[at].1));
                },
                None => {},
            }
            i = i + 1;
        }
        want
    }

    /// Diff placements (cheap — no image data): scrolling just moves these.
    fn align(&mut self, want: Vec<(u16, u32)>) -> (r: Vec<Command>)
        requires
            forall|i: int| 0 <= i < want@.len() ==> (#[trigger] want@[i]).0 * ROW_H + 3 <= u16::MAX,
        ensures
            (final(self)@, run::commands(r@)) == aligned(old(self)@, want@),
    {
        let ghost now = self.placed_slots@;
        let ghost stale = |p: (u16, u32)| !want@.contains(p);
        let ghost lacking = |p: (u16, u32)| !now.contains(p);
        let ghost remove = |p: (u16, u32)| covers::removal(p);
        let ghost show = |p: (u16, u32)| showing(p);
        let mut out = run::nothing();
        let mut i: usize = 0;
        while i < self.placed_slots.len()
            invariant
                i <= self.placed_slots@.len(),
                *self == *old(self),
                now == self.placed_slots@,
                stale == (|p: (u16, u32)| !want@.contains(p)),
                remove == (|p: (u16, u32)| covers::removal(p)),
                run::commands(out@) == now.take(i as int).filter(stale).map_values(remove),
            decreases self.placed_slots@.len() - i,
        {
            let p = self.placed_slots[i];
            proof {
                reveal(Seq::filter);
                assert(now.take(i + 1).drop_last() =~= now.take(i as int));
                assert(now.take(i as int).filter(stale).push(p).map_values(remove) =~= now.take(
                    i as int,
                ).filter(stale).map_values(remove).push(remove(p)));
            }
            if !holds(&want, p) {
                run::emit(&mut out, Command::Write(kitty::delete_placement(p.1, p.0 as u32 + 1)));
            }
            i = i + 1;
        }
        assert(now.take(now.len() as int) =~= now);
        let ghost removed = run::commands(out@);
        let mut i: usize = 0;
        proof {
            reveal(Seq::filter);
            assert(run::commands(out@) =~= removed + want@.take(0).filter(lacking).map_values(
                show,
            ));
        }
        while i < want.len()
            invariant
                i <= want@.len(),
                *self == *old(self),
                now == self.placed_slots@,
                forall|i: int| 0 <= i < want@.len() ==> (#[trigger] want@[i]).0 * ROW_H + 3 <= u16::MAX,
                lacking == (|p: (u16, u32)| !now.contains(p)),
                show == (|p: (u16, u32)| showing(p)),
                run::commands(out@) == removed + want@.take(i as int).filter(lacking).map_values(
                    show,
                ),
            decreases want@.len() - i,
        {
            let p = want[i];
            proof {
                reveal(Seq::filter);
                assert(want@.take(i + 1).drop_last() =~= want@.take(i as int));
                assert(want@.take(i as int).filter(lacking).push(p).map_values(show)
                    =~= want@.take(i as int).filter(lacking).map_values(show).push(show(p)));
            }
            // Already placed ones stay.
            if !holds(&self.placed_slots, p) {
                let rect = CellRect {
                    left: 1,
                    top: 2 + p.0 * ROW_H,
                    cols: THUMB_COLS,
                    rows: ROW_H,
                    pixel_width: None,
                    pixel_height: None,
                };
                let ghost before = run::commands(out@);
                run::emit(&mut out, Command::Write(kitty::place(p.1, p.0 as u32 + 1, rect)));
                assert(before.push(show(p)) =~= removed + want@.take(i + 1).filter(
                    lacking,
                ).map_values(show));
            }
            i = i + 1;
        }
        assert(want@.take(want@.len() as int) =~= want@);
        self.placed_slots = want;
        out
    }

    /// Place a cover thumbnail on each visible browse row (Kitty terminals) and
    /// eagerly warm the rest, or remove them when off a browse view. Incremental:
    /// only slots whose content changed are (re)transmitted, so a newly-fetched
    /// thumbnail pops in instantly and idle frames do no work. Runs after the draw.
    pub fn place_thumbnails(
        &mut self,
        settings: &Settings,
        browsing: bool,
        results: &Vec<AnimeSummary>,
        offset: usize,
        screen: Screen,
    ) -> (r: Vec<Command>)
        ensures
            (final(self)@, run::commands(r@)) == placed(
                old(self)@,
                *settings,
                browsing,
                results@,
                offset,
                screen,
            ),
    {
        if !browsing || !settings.graphics {
            return self.clear_thumbnails();
        }
        let body = ui::browse_body(screen.area());
        let inner: (u16, u16) = (body.width.saturating_sub(2), body.height.saturating_sub(2));
        if inner.0 < THUMB_COLS + 2 || inner.1 < ROW_H {
            return self.clear_thumbnails();
        }
        let slots: usize = (inner.1 / ROW_H) as usize;
        let shown: usize = if offset >= results.len() {
            0
        } else if results.len() - offset < slots {
            results.len() - offset
        } else {
            slots
        };
        let mut out = self.fetch_missing(settings, results, offset, shown);
        run::emit_all(&mut out, self.send_covers(results, offset, shown));
        let want = self.list_wanted(results, offset, shown);
        run::emit_all(&mut out, self.align(want));
        out
    }
}

/// A cover that was transmitted is found under the id that it went out under last.
pub proof fn law_sent_is_found(
    c: CoversModel,
    results: Seq<AnimeSummary>,
    offset: usize,
    shown: int,
    i: int,
)
    requires
        0 <= i < unsent(c, results, offset, shown).len(),
        forall|j: int|
            i < j < unsent(c, results, offset, shown).len() ==> #[trigger] unsent(
                c,
                results,
                offset,
                shown,
            )[j] != unsent(c, results, offset, shown)[i],
        c.thumb_next_id + unsent(c, results, offset, shown).len() <= u32::MAX,
    ensures
        image_of(
            sent(c, results, offset, shown).0.thumb_img,
            unsent(c, results, offset, shown)[i],
        ) == Some((c.thumb_next_id + i) as u32),
{
    let list = unsent(c, results, offset, shown);
    lemma_images_after(c, list, list.len() as int, i);
    lemma_id_later(c.thumb_next_id, i);
}

proof fn lemma_images_after(c: CoversModel, list: Seq<Seq<char>>, n: int, i: int)
    requires
        0 <= i < n <= list.len(),
        forall|j: int| i < j < n ==> #[trigger] list[j] != list[i],
    ensures
        image_of(images_after(c, list, n), list[i]) == Some(id_later(c.thumb_next_id, i)),
    decreases n,
{
    law_images(
        images_after(c, list, n - 1),
        list[n - 1],
        list[i],
        id_later(c.thumb_next_id, n - 1),
    );
    if i < n - 1 {
        lemma_images_after(c, list, n - 1, i);
    }
}

/// The covers in flight are those that were before and those that are asked for.
pub proof fn law_in_flight(set: Set<Seq<char>>, list: Seq<(Seq<char>, Seq<char>)>, id: Seq<char>)
    ensures
        with_ids(set, list).contains(id) <==> set.contains(id) || exists|i: int|
            0 <= i < list.len() && (#[trigger] list[i]).0 == id,
    decreases list.len(),
{
    if list.len() > 0 {
        let rest = list.drop_last();
        law_in_flight(set, rest, id);
        if exists|i: int| 0 <= i < rest.len() && (#[trigger] rest[i]).0 == id {
            let i = choose|i: int| 0 <= i < rest.len() && (#[trigger] rest[i]).0 == id;
            assert(list[i].0 == id);
        }
        if exists|i: int| 0 <= i < list.len() && (#[trigger] list[i]).0 == id {
            let i = choose|i: int| 0 <= i < list.len() && (#[trigger] list[i]).0 == id;
            if i < rest.len() {
                assert(rest[i].0 == id);
            }
        }
        assert(list[list.len() - 1] == list.last());
    }
}

/// Off the browse screens, without pictures, or without room for them, every placed cover
/// is taken down and none is fetched.
pub proof fn law_no_covers(
    c: CoversModel,
    settings: Settings,
    browsing: bool,
    results: Seq<AnimeSummary>,
    offset: usize,
    screen: Screen,
)
    requires
        !browsing || !settings.graphics || screen.cols < 12 || screen.rows < 9,
    ensures
        ({
            let (after, out) = placed(c, settings, browsing, results, offset, screen);
            &&& after.placed_slots.len() == 0
            &&& after == (CoversModel { placed_slots: after.placed_slots, ..c })
            &&& out.len() == c.placed_slots.len()
        }),
{
    law_room(screen);
}

} // verus!
