//! The Episodes view as a list of rows: season headers that fold and unfold, with
//! the episodes of the open seasons below them.

use crate::models::{AnimeDetails, Episode};
use std::collections::HashSet;
use vstd::prelude::*;

verus! {

broadcast use vstd::std_specs::hash::group_hash_axioms;

/// One visible line in the Episodes view: either a foldable season header or an
/// episode belonging to an expanded season. Episodes are indexed into
/// `details.episodes`. Single-season titles produce only `Episode` rows.
#[derive(Debug, Clone, Copy, PartialEq, Eq, Structural)]
pub enum EpisodeRow {
    Season { id: u32, rank: usize, expanded: bool, episode_count: usize },
    Episode { index: usize, indented: bool },
}

/// The season an episode is listed under; one without a season is listed under 0.
pub open spec fn season_of(e: Episode) -> u32 {
    match e.season_id {
        Some(id) => id,
        None => 0,
    }
}

/// The increasing list `ids` with `id` put in its place, unless it is there already.
pub open spec fn with_season(ids: Seq<u32>, id: u32) -> Seq<u32>
    decreases ids.len(),
{
    if ids.len() == 0 {
        seq![id]
    } else if ids.last() == id {
        ids
    } else if ids.last() < id {
        ids.push(id)
    } else {
        with_season(ids.drop_last(), id).push(ids.last())
    }
}

/// The seasons that occur among the episodes, in increasing order, each once.
pub open spec fn season_ids(eps: Seq<Episode>) -> Seq<u32>
    decreases eps.len(),
{
    if eps.len() == 0 {
        Seq::empty()
    } else {
        with_season(season_ids(eps.drop_last()), season_of(eps.last()))
    }
}

/// The list is increasing, so no id occurs in it twice.
pub open spec fn increasing(ids: Seq<u32>) -> bool {
    forall|i: int, j: int| 0 <= i < j < ids.len() ==> ids[i] < ids[j]
}

/// The positions of the episodes of one season, in order.
pub open spec fn members(eps: Seq<Episode>, id: u32) -> Seq<usize>
    decreases eps.len(),
{
    if eps.len() == 0 {
        Seq::empty()
    } else if season_of(eps.last()) == id {
        members(eps.drop_last(), id).push((eps.len() - 1) as usize)
    } else {
        members(eps.drop_last(), id)
    }
}

/// The rows of one season: its header and, when it is open, its episodes.
pub open spec fn block(eps: Seq<Episode>, ids: Seq<u32>, expanded: Set<u32>, k: int) -> Seq<
    EpisodeRow,
> {
    let m = members(eps, ids[k]);
    let header = seq![
        EpisodeRow::Season {
            id: ids[k],
            rank: (k + 1) as usize,
            expanded: expanded.contains(ids[k]),
            episode_count: m.len() as usize,
        },
    ];
    if expanded.contains(ids[k]) {
        header + m.map_values(|i: usize| EpisodeRow::Episode { index: i, indented: true })
    } else {
        header
    }
}

/// The rows of the first `k` seasons.
pub open spec fn blocks(eps: Seq<Episode>, ids: Seq<u32>, expanded: Set<u32>, k: int) -> Seq<
    EpisodeRow,
>
    decreases k,
{
    if k <= 0 {
        Seq::empty()
    } else {
        blocks(eps, ids, expanded, k - 1) + block(eps, ids, expanded, k - 1)
    }
}

/// The rows of a list of episodes: the bare episodes when there is one season, else
/// the rows of each season in turn.
pub open spec fn rows_of(eps: Seq<Episode>, expanded: Set<u32>) -> Seq<EpisodeRow> {
    let ids = season_ids(eps);
    if ids.len() <= 1 {
        Seq::new(eps.len(), |i: int| EpisodeRow::Episode { index: i as usize, indented: false })
    } else {
        blocks(eps, ids, expanded, ids.len() as int)
    }
}

/// The rows of the Episodes view; none while no title is loaded.
pub open spec fn rows(details: Option<AnimeDetails>, expanded: Set<u32>) -> Seq<EpisodeRow> {
    match details {
        Some(d) => rows_of(d.episodes@, expanded),
        None => Seq::empty(),
    }
}

/// The position of the first row that `p` picks.
pub open spec fn first_row(
    rows: Seq<EpisodeRow>,
    p: spec_fn(EpisodeRow) -> bool,
    from: int,
) -> Option<usize>
    decreases rows.len() - from,
{
    if from < 0 || from >= rows.len() {
        None
    } else if p(rows[from]) {
        Some(from as usize)
    } else {
        first_row(rows, p, from + 1)
    }
}

/// Putting an id into an increasing list keeps it increasing and adds only the id.
proof fn lemma_with_season(ids: Seq<u32>, id: u32)
    requires
        increasing(ids),
    ensures
        increasing(with_season(ids, id)),
        forall|x: u32|
            #[trigger] with_season(ids, id).contains(x) <==> (ids.contains(x) || x == id),
        ids.len() > 0 ==> with_season(ids, id).last() == (if ids.last() < id {
            id
        } else {
            ids.last()
        }),
        with_season(ids, id).len() > 0,
        with_season(ids, id).len() <= ids.len() + 1,
    decreases ids.len(),
{
    let r = with_season(ids, id);
    if ids.len() == 0 {
        assert(r[0] == id);
    } else if ids.last() == id {
        assert(ids[ids.len() - 1] == id);
    } else if ids.last() < id {
        assert(r[ids.len() as int] == id);
        assert forall|x: u32| r.contains(x) <==> (ids.contains(x) || x == id) by {
            if ids.contains(x) {
                let i = choose|i: int| 0 <= i < ids.len() && ids[i] == x;
                assert(r[i] == x);
            }
        }
    } else {
        let head = ids.drop_last();
        lemma_with_season(head, id);
        let h = with_season(head, id);
        assert(r == h.push(ids.last()));
        assert forall|i: int, j: int| 0 <= i < j < r.len() implies r[i] < r[j] by {
            if j == r.len() - 1 {
                assert(h.contains(r[i]));
                if head.contains(r[i]) {
                    let k = choose|k: int| 0 <= k < head.len() && head[k] == r[i];
                    assert(ids[k] < ids[ids.len() - 1]);
                }
            }
        }
        assert forall|x: u32| r.contains(x) <==> (ids.contains(x) || x == id) by {
            if ids.contains(x) {
                let i = choose|i: int| 0 <= i < ids.len() && ids[i] == x;
                if i < ids.len() - 1 {
                    assert(head[i] == x);
                    assert(h.contains(x));
                    let k = choose|k: int| 0 <= k < h.len() && h[k] == x;
                    assert(r[k] == x);
                } else {
                    assert(r[r.len() - 1] == x);
                }
            }
            if x == id {
                assert(h.contains(x));
                let k = choose|k: int| 0 <= k < h.len() && h[k] == x;
                assert(r[k] == x);
            }
            if r.contains(x) {
                let k = choose|k: int| 0 <= k < r.len() && r[k] == x;
                if k < h.len() {
                    assert(h[k] == x);
                    assert(h.contains(x));
                    if head.contains(x) {
                        let m = choose|m: int| 0 <= m < head.len() && head[m] == x;
                        assert(ids[m] == x);
                    }
                } else {
                    assert(ids[ids.len() - 1] == x);
                }
            }
        }
    }
}

/// The season list is increasing and holds exactly the seasons of the episodes.
pub proof fn law_season_ids(eps: Seq<Episode>)
    ensures
        increasing(season_ids(eps)),
        forall|x: u32|
            #[trigger] season_ids(eps).contains(x) <==> exists|i: int|
                0 <= i < eps.len() && season_of(eps[i]) == x,
        season_ids(eps).len() <= eps.len(),
        eps.len() > 0 ==> season_ids(eps).len() > 0,
    decreases eps.len(),
{
    if eps.len() > 0 {
        let head = eps.drop_last();
        law_season_ids(head);
        lemma_with_season(season_ids(head), season_of(eps.last()));
        assert forall|x: u32|
            season_ids(eps).contains(x) <==> exists|i: int|
                0 <= i < eps.len() && season_of(eps[i]) == x by {
            if season_ids(head).contains(x) {
                let i = choose|i: int| 0 <= i < head.len() && season_of(head[i]) == x;
                assert(season_of(eps[i]) == x);
            }
            if x == season_of(eps.last()) {
                assert(season_of(eps[eps.len() - 1]) == x);
            }
            if exists|i: int| 0 <= i < eps.len() && season_of(eps[i]) == x {
                let i = choose|i: int| 0 <= i < eps.len() && season_of(eps[i]) == x;
                if i < head.len() {
                    assert(season_of(head[i]) == x);
                }
            }
        }
    }
}

/// The rows of one season are its header, with its number in the order of the seasons and
/// how many episodes it has, and below it, when it is open, those episodes in their
/// order.
pub proof fn law_season_block(eps: Seq<Episode>, expanded: Set<u32>, k: int)
    requires
        eps.len() <= usize::MAX,
        0 <= k < season_ids(eps).len(),
    ensures
        ({
            let id = season_ids(eps)[k];
            let b = block(eps, season_ids(eps), expanded, k);
            let inside = eps.filter(|e: Episode| season_of(e) == id).len();
            &&& b[0] == (EpisodeRow::Season {
                id,
                rank: (k + 1) as usize,
                expanded: expanded.contains(id),
                episode_count: inside as usize,
            })
            &&& b.len() == (if expanded.contains(id) {
                inside + 1
            } else {
                1
            })
            &&& forall|i: int|
                1 <= i < b.len() ==> ((#[trigger] b[i]) matches EpisodeRow::Episode {
                    index,
                    indented,
                } && indented && index < eps.len() && season_of(eps[index as int]) == id)
            &&& forall|i: int, j: int|
                1 <= i < j < b.len() ==> (#[trigger] b[i])->index < (#[trigger] b[j])->index
        }),
{
    let id = season_ids(eps)[k];
    lemma_members(eps, id);
    lemma_member_count(eps, id);
}

proof fn lemma_member_count(eps: Seq<Episode>, id: u32)
    ensures
        members(eps, id).len() == eps.filter(|e: Episode| season_of(e) == id).len(),
    decreases eps.len(),
{
    reveal(Seq::filter);
    if eps.len() > 0 {
        lemma_member_count(eps.drop_last(), id);
    }
}

/// The rows of several seasons are those of each in turn; of one season they are its
/// episodes, in order and not indented.
pub proof fn law_rows(eps: Seq<Episode>, expanded: Set<u32>, k: int)
    ensures
        season_ids(eps).len() <= 1 ==> rows_of(eps, expanded).len() == eps.len(),
        season_ids(eps).len() <= 1 && 0 <= k < eps.len() ==> rows_of(eps, expanded)[k]
            == (EpisodeRow::Episode { index: k as usize, indented: false }),
        season_ids(eps).len() > 1 ==> rows_of(eps, expanded) == blocks(
            eps,
            season_ids(eps),
            expanded,
            season_ids(eps).len() as int,
        ),
        blocks(eps, season_ids(eps), expanded, 0).len() == 0,
        k >= 0 ==> blocks(eps, season_ids(eps), expanded, k + 1) == blocks(
            eps,
            season_ids(eps),
            expanded,
            k,
        ) + block(eps, season_ids(eps), expanded, k),
{
}

/// An episode without a season is listed under the number zero.
pub proof fn law_season_of(e: Episode)
    ensures
        e.season_id matches Some(id) ==> season_of(e) == id,
        e.season_id is None ==> season_of(e) == 0,
{
}

/// Putting an id into the list from the front, at the first place that is not below it.
proof fn lemma_with_season_at(ids: Seq<u32>, id: u32, p: int)
    requires
        increasing(ids),
        0 <= p <= ids.len(),
        forall|i: int| 0 <= i < p ==> ids[i] < id,
        p < ids.len() ==> ids[p] >= id,
    ensures
        p < ids.len() && ids[p] == id ==> with_season(ids, id) == ids,
        p == ids.len() || ids[p] != id ==> with_season(ids, id) == ids.insert(p, id),
    decreases ids.len(),
{
    if ids.len() == 0 {
        assert(with_season(ids, id) =~= ids.insert(0, id));
    } else if p == ids.len() {
        assert(ids.last() < id);
        assert(ids.push(id) =~= ids.insert(p, id));
    } else if ids.last() == id {
        if p < ids.len() - 1 {
            assert(ids[p] < ids[ids.len() - 1]);
        }
    } else {
        assert(ids.last() > id) by {
            if p < ids.len() - 1 {
                assert(ids[p] < ids[ids.len() - 1]);
            }
        }
        let head = ids.drop_last();
        if p < head.len() {
            lemma_with_season_at(head, id, p);
            assert(head[p] == ids[p]);
            if ids[p] == id {
                assert(head.push(ids.last()) =~= ids);
            } else {
                assert(head.insert(p, id).push(ids.last()) =~= ids.insert(p, id));
            }
        } else {
            lemma_with_season_at(head, id, p);
            assert(head.insert(p, id).push(ids.last()) =~= ids.insert(p, id));
        }
    }
}

/// The positions listed for a season are positions of episodes of that season, in
/// increasing order, and none is missing.
pub proof fn lemma_members(eps: Seq<Episode>, id: u32)
    requires
        eps.len() <= usize::MAX,
    ensures
        members(eps, id).len() <= eps.len(),
        forall|k: int|
            0 <= k < members(eps, id).len() ==> (#[trigger] members(eps, id)[k]) < eps.len()
                && season_of(eps[members(eps, id)[k] as int]) == id,
        forall|k: int, l: int|
            0 <= k < l < members(eps, id).len() ==> members(eps, id)[k] < members(eps, id)[l],
        forall|i: int|
            0 <= i < eps.len() && season_of(#[trigger] eps[i]) == id ==> members(eps, id).contains(
                i as usize,
            ),
    decreases eps.len(),
{
    if eps.len() > 0 {
        let head = eps.drop_last();
        lemma_members(head, id);
        let m = members(eps, id);
        let mh = members(head, id);
        assert forall|i: int|
            0 <= i < eps.len() && season_of(#[trigger] eps[i]) == id implies m.contains(
            i as usize,
        ) by {
            if i < head.len() {
                assert(season_of(head[i]) == id);
                assert(mh.contains(i as usize));
                let k = choose|k: int| 0 <= k < mh.len() && mh[k] == i as usize;
                assert(m[k] == i as usize);
            } else {
                assert(m[m.len() - 1] == i as usize);
            }
        }
        assert forall|k: int| 0 <= k < m.len() implies (#[trigger] m[k]) < eps.len() && season_of(
            eps[m[k] as int],
        ) == id by {
            if k < mh.len() {
                assert(m[k] == mh[k]);
                assert(head[mh[k] as int] == eps[mh[k] as int]);
            }
        }
    }
}

/// Rows of earlier seasons do not depend on which later season is open.
proof fn lemma_blocks_frame(
    eps: Seq<Episode>,
    ids: Seq<u32>,
    a: Set<u32>,
    b: Set<u32>,
    k: int,
)
    requires
        0 <= k <= ids.len(),
        forall|i: int| 0 <= i < k ==> a.contains(ids[i]) == b.contains(ids[i]),
    ensures
        blocks(eps, ids, a, k) == blocks(eps, ids, b, k),
    decreases k,
{
    if k > 0 {
        lemma_blocks_frame(eps, ids, a, b, k - 1);
        assert(a.contains(ids[k - 1]) == b.contains(ids[k - 1]));
    }
}

/// The rows of the first seasons are a prefix of all the rows.
proof fn lemma_blocks_prefix(eps: Seq<Episode>, ids: Seq<u32>, expanded: Set<u32>, k: int, n: int)
    requires
        0 <= k <= n,
    ensures
        blocks(eps, ids, expanded, k).len() <= blocks(eps, ids, expanded, n).len(),
        forall|i: int|
            0 <= i < blocks(eps, ids, expanded, k).len() ==> blocks(eps, ids, expanded, n)[i]
                == blocks(eps, ids, expanded, k)[i],
    decreases n,
{
    if k < n {
        lemma_blocks_prefix(eps, ids, expanded, k, n - 1);
    }
}

/// Where the header of the `k`-th season stands.
proof fn lemma_header_at(eps: Seq<Episode>, ids: Seq<u32>, expanded: Set<u32>, k: int, n: int)
    requires
        0 <= k < n,
    ensures
        blocks(eps, ids, expanded, k).len() < blocks(eps, ids, expanded, n).len(),
        blocks(eps, ids, expanded, n)[blocks(eps, ids, expanded, k).len() as int] == (
        EpisodeRow::Season {
            id: ids[k],
            rank: (k + 1) as usize,
            expanded: expanded.contains(ids[k]),
            episode_count: members(eps, ids[k]).len() as usize,
        }),
{
    lemma_blocks_prefix(eps, ids, expanded, k + 1, n);
    let at = blocks(eps, ids, expanded, k).len() as int;
    assert(blocks(eps, ids, expanded, k + 1)[at] == block(eps, ids, expanded, k)[0]);
}

/// A season row is the header of one of the seasons, at the place of that season.
proof fn lemma_season_row(
    eps: Seq<Episode>,
    ids: Seq<u32>,
    expanded: Set<u32>,
    n: int,
    i: int,
) -> (k: int)
    requires
        0 <= n <= ids.len(),
        0 <= i < blocks(eps, ids, expanded, n).len(),
        blocks(eps, ids, expanded, n)[i] is Season,
    ensures
        0 <= k < n,
        i == blocks(eps, ids, expanded, k).len(),
        blocks(eps, ids, expanded, n)[i]->id == ids[k],
    decreases n,
{
    let before = blocks(eps, ids, expanded, n - 1).len() as int;
    if i < before {
        lemma_season_row(eps, ids, expanded, n - 1, i)
    } else {
        let b = block(eps, ids, expanded, n - 1);
        assert(blocks(eps, ids, expanded, n)[i] == b[i - before]);
        n - 1
    }
}

/// Folding or unfolding a season leaves its header on the row where it was, so the
/// cursor does not jump; the header then shows the new state.
pub proof fn law_header_stays(eps: Seq<Episode>, expanded: Set<u32>, row: int)
    requires
        eps.len() <= usize::MAX,
        0 <= row < rows_of(eps, expanded).len(),
        rows_of(eps, expanded)[row] is Season,
    ensures
        ({
            let id = rows_of(eps, expanded)[row]->id;
            let toggled = if expanded.contains(id) {
                expanded.remove(id)
            } else {
                expanded.insert(id)
            };
            let after = rows_of(eps, toggled);
            &&& row < after.len()
            &&& after[row] is Season
            &&& after[row]->id == id
            &&& after[row]->expanded != rows_of(eps, expanded)[row]->expanded
        }),
{
    law_season_ids(eps);
    let ids = season_ids(eps);
    let n = ids.len() as int;
    let k = lemma_season_row(eps, ids, expanded, n, row);
    let id = ids[k];
    let toggled = if expanded.contains(id) {
        expanded.remove(id)
    } else {
        expanded.insert(id)
    };
    lemma_blocks_frame(eps, ids, expanded, toggled, k);
    lemma_header_at(eps, ids, toggled, k, n);
    lemma_header_at(eps, ids, expanded, k, n);
}

/// An episode has a row when there is one season or its season is open.
pub proof fn lemma_episode_has_row(eps: Seq<Episode>, expanded: Set<u32>, i: int)
    requires
        eps.len() <= usize::MAX,
        0 <= i < eps.len(),
        expanded.contains(season_of(eps[i])),
    ensures
        exists|r: int|
            0 <= r < rows_of(eps, expanded).len() && rows_of(eps, expanded)[r] is Episode
                && rows_of(eps, expanded)[r]->index == i,
{
    law_season_ids(eps);
    let ids = season_ids(eps);
    let all = rows_of(eps, expanded);
    if ids.len() <= 1 {
        assert(all[i]->index == i);
    } else {
        let id = season_of(eps[i]);
        assert(ids.contains(id));
        let k = choose|k: int| 0 <= k < ids.len() && ids[k] == id;
        lemma_members(eps, id);
        let m = members(eps, id);
        assert(m.contains(i as usize));
        let p = choose|p: int| 0 <= p < m.len() && m[p] == i as usize;
        lemma_blocks_prefix(eps, ids, expanded, k + 1, ids.len() as int);
        let at = blocks(eps, ids, expanded, k).len() as int + 1 + p;
        assert(blocks(eps, ids, expanded, k + 1)[at] == block(eps, ids, expanded, k)[1 + p]);
        assert(all[at] is Episode && all[at]->index == i);
    }
}

/// Every episode row points at an episode, and under several seasons at one of an
/// open season.
pub proof fn law_rows_point_at_episodes(eps: Seq<Episode>, expanded: Set<u32>, row: int)
    requires
        eps.len() <= usize::MAX,
        0 <= row < rows_of(eps, expanded).len(),
        rows_of(eps, expanded)[row] is Episode,
    ensures
        rows_of(eps, expanded)[row]->index < eps.len(),
        season_ids(eps).len() > 1 ==> expanded.contains(
            season_of(eps[rows_of(eps, expanded)[row]->index as int]),
        ),
{
    let ids = season_ids(eps);
    if ids.len() > 1 {
        lemma_block_episode(eps, ids, expanded, ids.len() as int, row);
    }
}

proof fn lemma_block_episode(
    eps: Seq<Episode>,
    ids: Seq<u32>,
    expanded: Set<u32>,
    n: int,
    row: int,
)
    requires
        eps.len() <= usize::MAX,
        0 <= row < blocks(eps, ids, expanded, n).len(),
        blocks(eps, ids, expanded, n)[row] is Episode,
    ensures
        blocks(eps, ids, expanded, n)[row]->index < eps.len(),
        expanded.contains(season_of(eps[blocks(eps, ids, expanded, n)[row]->index as int])),
    decreases n,
{
    let before = blocks(eps, ids, expanded, n - 1).len() as int;
    if row < before {
        lemma_block_episode(eps, ids, expanded, n - 1, row);
    } else {
        lemma_members(eps, ids[n - 1]);
        assert(blocks(eps, ids, expanded, n)[row] == block(eps, ids, expanded, n - 1)[row
            - before]);
        let m = members(eps, ids[n - 1]);
        assert(m[row - before - 1] < eps.len());
    }
}

/// With every season folded, a title with several seasons shows one header per
/// season and nothing else.
pub proof fn law_all_folded(eps: Seq<Episode>)
    requires
        season_ids(eps).len() > 1,
    ensures
        rows_of(eps, Set::empty()).len() == season_ids(eps).len(),
        forall|i: int|
            0 <= i < season_ids(eps).len() ==> (#[trigger] rows_of(eps, Set::empty())[i]) is Season
                && rows_of(eps, Set::empty())[i]->id == season_ids(eps)[i],
{
    lemma_folded_blocks(eps, season_ids(eps), season_ids(eps).len() as int);
}

proof fn lemma_folded_blocks(eps: Seq<Episode>, ids: Seq<u32>, n: int)
    requires
        0 <= n <= ids.len(),
    ensures
        blocks(eps, ids, Set::empty(), n).len() == n,
        forall|i: int|
            0 <= i < n ==> (#[trigger] blocks(eps, ids, Set::empty(), n)[i]) is Season && blocks(
                eps,
                ids,
                Set::empty(),
                n,
            )[i]->id == ids[i],
    decreases n,
{
    if n > 0 {
        lemma_folded_blocks(eps, ids, n - 1);
    }
}

/// The season an episode is listed under.
pub fn season(e: &Episode) -> (r: u32)
    ensures
        r == season_of(*e),
{
    match e.season_id {
        Some(id) => id,
        None => 0,
    }
}

/// Distinct season ids present in the episodes, sorted. Episodes with no
/// `season_id` are grouped under a synthetic season `0`.
pub fn list_seasons(eps: &Vec<Episode>) -> (r: Vec<u32>)
    ensures
        r@ == season_ids(eps@),
{
    let mut ids: Vec<u32> = Vec::new();
    let mut i: usize = 0;
    while i < eps.len()
        invariant
            i <= eps@.len(),
            ids@ == season_ids(eps@.take(i as int)),
        decreases eps@.len() - i,
    {
        let id: u32 = season(&eps[i]);
        proof {
            law_season_ids(eps@.take(i as int));
            assert(eps@.take(i + 1).drop_last() =~= eps@.take(i as int));
        }
        let mut p: usize = 0;
        while p < ids.len() && ids[p] < id
            invariant
                p <= ids@.len(),
                forall|j: int| 0 <= j < p ==> ids@[j] < id,
            decreases ids@.len() - p,
        {
            p = p + 1;
        }
        proof {
            lemma_with_season_at(ids@, id, p as int);
        }
        if p == ids.len() || ids[p] != id {
            ids.insert(p, id);
        }
        i = i + 1;
    }
    assert(eps@.take(eps@.len() as int) =~= eps@);
    ids
}

/// The positions of the episodes of one season, in order.
fn list_members(eps: &Vec<Episode>, id: u32) -> (r: Vec<usize>)
    ensures
        r@ == members(eps@, id),
{
    let mut m: Vec<usize> = Vec::new();
    let mut i: usize = 0;
    while i < eps.len()
        invariant
            i <= eps@.len(),
            m@ == members(eps@.take(i as int), id),
        decreases eps@.len() - i,
    {
        proof {
            assert(eps@.take(i + 1).drop_last() =~= eps@.take(i as int));
        }
        if season(&eps[i]) == id {
            m.push(i);
        }
        i = i + 1;
    }
    assert(eps@.take(eps@.len() as int) =~= eps@);
    m
}

/// The visible rows of a list of episodes under a fold state.
pub fn list_rows(eps: &Vec<Episode>, expanded: &HashSet<u32>) -> (r: Vec<EpisodeRow>)
    ensures
        r@ == rows_of(eps@, expanded@),
{
    let ids = list_seasons(eps);
    let mut rows: Vec<EpisodeRow> = Vec::new();
    if ids.len() <= 1 {
        let mut i: usize = 0;
        while i < eps.len()
            invariant
                i <= eps@.len(),
                rows@ == Seq::new(
                    i as nat,
                    |j: int| EpisodeRow::Episode { index: j as usize, indented: false },
                ),
            decreases eps@.len() - i,
        {
            rows.push(EpisodeRow::Episode { index: i, indented: false });
            i = i + 1;
        }
        return rows;
    }
    let mut k: usize = 0;
    while k < ids.len()
        invariant
            k <= ids@.len(),
            ids@ == season_ids(eps@),
            rows@ == blocks(eps@, ids@, expanded@, k as int),
        decreases ids@.len() - k,
    {
        let id: u32 = ids[k];
        let open = expanded.contains(&id);
        let m = list_members(eps, id);
        let ghost before = rows@;
        rows.push(
            EpisodeRow::Season { id, rank: k + 1, expanded: open, episode_count: m.len() },
        );
        if open {
            let ghost head = rows@;
            let ghost nested = m@.map_values(
                |i: usize| EpisodeRow::Episode { index: i, indented: true },
            );
            let mut j: usize = 0;
            while j < m.len()
                invariant
                    j <= m@.len(),
                    nested == m@.map_values(
                        |i: usize| EpisodeRow::Episode { index: i, indented: true },
                    ),
                    rows@ == head + nested.take(j as int),
                decreases m@.len() - j,
            {
                rows.push(EpisodeRow::Episode { index: m[j], indented: true });
                assert(nested.take(j + 1) =~= nested.take(j as int).push(nested[j as int]));
                j = j + 1;
            }
            assert(nested.take(m@.len() as int) =~= nested);
        }
        assert(rows@ =~= before + block(eps@, ids@, expanded@, k as int));
        k = k + 1;
    }
    rows
}

} // verus!
