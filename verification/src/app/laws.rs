//! What holds of the navigation state machine as a whole.

use crate::app;
use crate::app::rows;
use crate::app::{AppModel, EffectModel, EpisodeRow, StatusLevel, View};
use crate::input::Action;
use crate::models::{AnimeSummary, CatalogPage};
use vstd::prelude::*;
use vstd::view::View as _;

verus! {

/// The first row that a test picks, when any row passes it.
proof fn lemma_first_row(rows: Seq<EpisodeRow>, p: spec_fn(EpisodeRow) -> bool, from: int, at: int)
    requires
        rows.len() <= usize::MAX,
        0 <= from <= at < rows.len(),
        p(rows[at]),
    ensures
        rows::first_row(rows, p, from) matches Some(i) && from <= i <= at && p(rows[i as int]),
    decreases rows.len() - from,
{
    if !p(rows[from]) {
        lemma_first_row(rows, p, from + 1, at);
    }
}

/// Moving the cursor to an episode opens its season and lands on that episode.
pub proof fn law_select_episode_lands(s: AppModel, index: usize)
    requires
        s.details matches Some(d) && index < d.episodes@.len() <= usize::MAX,
        s.with_episode(index).rows().len() <= usize::MAX,
    ensures
        s.with_episode(index).episode() == Some(index),
        s.with_episode(index).expanded.contains(
            rows::season_of(s.details->0.episodes@[index as int]),
        ),
{
    let after = s.with_episode(index);
    let eps = s.details->0.episodes@;
    rows::lemma_episode_has_row(eps, after.expanded, index as int);
    let all = rows::rows_of(eps, after.expanded);
    let r = choose|r: int| 0 <= r < all.len() && all[r] is Episode && all[r]->index == index;
    let p = |r: EpisodeRow| r matches EpisodeRow::Episode { index: i, .. } && i == index;
    assert(p(all[r]));
    lemma_first_row(all, p, 0, r);
}

/// Selecting a season header twice folds and unfolds it: the state is as before.
pub proof fn law_fold_twice(s: AppModel)
    requires
        s.view == View::Episodes,
        s.row() matches Some(EpisodeRow::Season { .. }),
        s.details matches Some(d) && d.episodes@.len() <= usize::MAX,
    ensures
        s.acted(Action::Select).0.acted(Action::Select).0 == s,
        s.acted(Action::Select).1 == EffectModel::Nothing,
        s.acted(Action::Select).0.expanded != s.expanded,
{
    let at = s.selected_row->0 as int;
    let eps = s.details->0.episodes@;
    rows::law_header_stays(eps, s.expanded, at);
    let id = rows::rows_of(eps, s.expanded)[at]->id;
    let once = s.acted(Action::Select).0;
    assert(once.row() matches Some(EpisodeRow::Season { id: i, .. }) && i == id);
    let twice = once.acted(Action::Select).0;
    assert(twice.expanded =~= s.expanded);
    assert(once.expanded.contains(id) != s.expanded.contains(id));
}

/// Toggling favourite twice restores the flag, and both times asks for the same
/// title to be toggled.
pub proof fn law_toggle_favourite_twice(s: AppModel)
    ensures
        s.acted(Action::ToggleFavourite).0.acted(Action::ToggleFavourite).0 == s,
        s.acted(Action::ToggleFavourite).0.acted(Action::ToggleFavourite).1 == s.acted(
            Action::ToggleFavourite,
        ).1,
        s.details is Some ==> s.acted(Action::ToggleFavourite).0.is_favourite != s.is_favourite,
{
}

/// Tab goes round Home, Favourites, History and Downloaded.
pub proof fn law_tab_cycle(s: AppModel)
    requires
        s.view == View::Home,
    ensures
        ({
            let (a, ea) = s.acted(Action::Tab);
            let (b, eb) = a.acted(Action::Tab);
            let (c, ec) = b.acted(Action::Tab);
            let (d, ed) = c.acted(Action::Tab);
            &&& a.view == View::Favourites && ea == EffectModel::LoadFavourites
            &&& b.view == View::History && eb == EffectModel::LoadHistory
            &&& c.view == View::Downloaded && ec == EffectModel::LoadDownloads
            &&& d.view == View::Home && ed == EffectModel::Search(Seq::empty())
        }),
{
}

/// Going back unwinds: from any screen three steps back lead home, and at home
/// going back changes nothing but the text capture.
pub proof fn law_back_leads_home(s: AppModel)
    ensures
        s.went_back().went_back().went_back().view == View::Home,
        s.view == View::Home ==> s.went_back() == (AppModel { input_mode: false, ..s }),
{
}

/// Drilling down from a browse list to the player and going back passes the same
/// screens in reverse.
pub proof fn law_drill_down_and_back(s: AppModel)
    ensures
        app::browsing(s.view) && s.result() is Some ==> s.acted(Action::Select).0.view == View::Details,
        s.view == View::Details && s.details is Some ==> s.acted(Action::Select).0.view
            == View::Episodes && s.acted(Action::Select).0.acted(Action::Back).0.view == s.view,
        s.view == View::Episodes && s.episode_ids() is Some ==> s.acted(Action::Select).0.view
            == View::Player && s.acted(Action::Select).0.acted(Action::Back).0.view == s.view,
{
}

/// Without a highlighted title, selecting in a browse list does nothing.
pub proof fn law_select_nothing(s: AppModel)
    requires
        app::browsing(s.view),
        s.result() is None,
    ensures
        s.acted(Action::Select) == (s, EffectModel::Nothing),
{
}

/// The state after `n` ticks.
pub open spec fn ticked(s: AppModel, n: nat) -> AppModel
    decreases n,
{
    if n == 0 {
        s
    } else {
        ticked(s, (n - 1) as nat).status_ticked()
    }
}

/// A status message stays for its lifetime of twenty ticks, each of which leaves it one
/// less, and is then gone.
pub proof fn law_status_lifetime(s: AppModel, m: Seq<char>, level: StatusLevel, n: nat)
    ensures
        ({
            let t = ticked(s.with_status(m, level), n);
            &&& n < 20 ==> t.status_ticks == 20 - n && t.status == Some(m) && t.status_level
                == level
            &&& n >= 20 ==> t.status_ticks == 0 && t.status is None && t.status_level
                == StatusLevel::Info
        }),
    decreases n,
{
    if n > 0 {
        law_status_lifetime(s, m, level, (n - 1) as nat);
    }
}

/// Deriving the shown results keeps the selection and the scroll offset inside the
/// list, and deriving them again changes nothing.
pub proof fn law_recompute(s: AppModel)
    requires
        s.all_results.len() <= usize::MAX,
    ensures
        s.recomputed().recomputed() == s.recomputed(),
        match s.recomputed().selected_result {
            Some(i) => i < s.recomputed().results.len(),
            None => s.recomputed().results.len() == 0,
        },
        s.recomputed().results.len() > 0 ==> s.recomputed().list_offset
            < s.recomputed().results.len(),
        s.recomputed().results.len() <= s.all_results.len(),
{
    s.all_results.lemma_filter_len(
        |a: AnimeSummary|
            crate::text::contains(
                crate::text::lowercase(a.title@),
                crate::text::lowercase(s.filter),
            ),
    );
}

/// Moving the cursor in a list that is not empty keeps it inside the list, and
/// moving it down and up again leaves it where it was.
pub proof fn law_moved(selected: Option<usize>, len: nat)
    requires
        0 < len <= usize::MAX,
    ensures
        app::moved(selected, len, 1) matches Some(i) && i < len,
        app::moved(selected, len, -1) matches Some(i) && i < len,
        selected matches Some(i) && i < len ==> {
            &&& app::moved(app::moved(selected, len, 1), len, -1) == selected
            &&& app::moved(app::moved(selected, len, -1), len, 1) == selected
        },
{
    let at = selected.unwrap_or(0) as int;
    let n = len as int;
    assert(0 <= (at + 1) % n < n) by (nonlinear_arith)
        requires
            n > 0,
    ;
    assert(0 <= (at - 1) % n < n) by (nonlinear_arith)
        requires
            n > 0,
    ;
    if at < n {
        if at + 1 < n {
            vstd::arithmetic::div_mod::lemma_small_mod((at + 1) as nat, len);
        } else {
            vstd::arithmetic::div_mod::lemma_mod_self_0(n);
            vstd::arithmetic::div_mod::lemma_mod_add_multiples_vanish(-1, n);
            vstd::arithmetic::div_mod::lemma_small_mod((n - 1) as nat, len);
        }
        vstd::arithmetic::div_mod::lemma_small_mod(at as nat, len);
        if at >= 1 {
            vstd::arithmetic::div_mod::lemma_small_mod((at - 1) as nat, len);
        } else {
            vstd::arithmetic::div_mod::lemma_mod_add_multiples_vanish(-1, n);
            vstd::arithmetic::div_mod::lemma_small_mod((n - 1) as nat, len);
            vstd::arithmetic::div_mod::lemma_mod_self_0(n);
        }
    }
}

/// Appending a page keeps what is shown, and adds only behind it; a highlighted
/// title stays highlighted.
pub proof fn law_append_keeps(s: AppModel, page: CatalogPage)
    requires
        s.results == app::matching(s.all_results, s.filter),
        s.selected_result matches Some(i) && i < s.results.len(),
        s.all_results.len() + page.items@.len() <= usize::MAX,
    ensures
        s.with_page(page, true).selected_result == s.selected_result,
        s.with_page(page, true).results == s.results + app::matching(page.items@, s.filter),
        s.with_page(page, true).result() == s.result(),
{
    let f = crate::text::lowercase(s.filter);
    let p = |a: AnimeSummary| crate::text::contains(crate::text::lowercase(a.title@), f);
    Seq::filter_distributes_over_add(s.all_results, page.items@, p);
}

/// The quick-filter shows exactly the titles that hold what was typed, whatever the case
/// of the letters, in the order of the list; nothing typed shows them all.
pub proof fn law_filter(all: Seq<AnimeSummary>, filter: Seq<char>, a: AnimeSummary)
    ensures
        ({
            let typed = crate::text::lowercase(filter);
            let shown = app::matching(all, filter);
            &&& typed.len() > 0 ==> (shown.contains(a) <==> all.contains(a) && (exists|i: int|
                crate::text::occurs_at(crate::text::lowercase(a.title@), typed, i)))
            &&& typed.len() == 0 ==> shown == all
        }),
{
    let typed = crate::text::lowercase(filter);
    let p = |a: AnimeSummary| crate::text::contains(crate::text::lowercase(a.title@), typed);
    let s = all.filter(p);
    if s.contains(a) {
        let i = choose|i: int| 0 <= i < s.len() && s[i] == a;
        all.lemma_filter_pred(p, i);
        all.lemma_filter_contains_rev(p, a);
    }
    if all.contains(a) && p(a) {
        let i = choose|i: int| 0 <= i < all.len() && all[i] == a;
        all.lemma_filter_contains(p, i);
    }
}

/// A fresh page replaces the list: its titles are shown from the first on, unfiltered,
/// with its counters; a local list is one page of its own.
pub proof fn law_fresh_list(s: AppModel, page: CatalogPage, list: Seq<AnimeSummary>)
    requires
        crate::text::lowercase(Seq::empty()).len() == 0,
    ensures
        ({
            let t = s.with_page(page, false);
            &&& t.results == page.items@ && t.all_results == page.items@
            &&& t.page == page.page
            &&& page.total_pages > 0 ==> t.total_pages == page.total_pages
            &&& t.total == page.total as usize
            &&& t.list_offset == 0 && t.filter.len() == 0
            &&& page.items@.len() > 0 ==> t.result() == Some(page.items@[0])
            &&& !t.loading && !t.loading_more
            &&& t.query == s.query && t.sort == s.sort
        }),
        ({
            let t = s.with_results(list);
            &&& t.results == list
            &&& t.page == t.total_pages
            &&& list.len() > 0 ==> t.result() == Some(list[0])
            &&& !t.loading
        }),
{
}

/// Down goes to the next row and up to the one before; from the last row down goes to
/// the first, and from the first row up to the last.
pub proof fn law_cursor(i: usize, len: nat)
    requires
        i < len <= usize::MAX,
    ensures
        i + 1 < len ==> app::moved(Some(i), len, 1) == Some((i + 1) as usize),
        i + 1 == len ==> app::moved(Some(i), len, 1) == Some(0usize),
        i > 0 ==> app::moved(Some(i), len, -1) == Some((i - 1) as usize),
        i == 0 ==> app::moved(Some(i), len, -1) == Some((len - 1) as usize),
{
    let n = len as int;
    if i + 1 < len {
        vstd::arithmetic::div_mod::lemma_small_mod((i + 1) as nat, len);
    } else {
        vstd::arithmetic::div_mod::lemma_mod_self_0(n);
    }
    if i > 0 {
        vstd::arithmetic::div_mod::lemma_small_mod((i - 1) as nat, len);
    } else {
        vstd::arithmetic::div_mod::lemma_mod_add_multiples_vanish(-1, n);
        vstd::arithmetic::div_mod::lemma_small_mod((n - 1) as nat, len);
    }
}

/// The arrow keys move the cursor of the list that is shown, and of no other.
pub proof fn law_cursor_of_the_screen(s: AppModel)
    ensures
        ({
            let down = s.acted(Action::Down).0;
            let up = s.acted(Action::Up).0;
            &&& s.acted(Action::Down).1 == EffectModel::Nothing
            &&& app::browsing(s.view) ==> {
                &&& down.selected_result == app::moved(s.selected_result, s.results.len(), 1)
                &&& up.selected_result == app::moved(s.selected_result, s.results.len(), -1)
                &&& down.selected_row == s.selected_row && down.selected_source
                    == s.selected_source
            }
            &&& s.view == View::Episodes ==> {
                &&& down.selected_row == app::moved(s.selected_row, s.rows().len(), 1)
                &&& up.selected_row == app::moved(s.selected_row, s.rows().len(), -1)
                &&& down.selected_result == s.selected_result && down.selected_source
                    == s.selected_source
            }
            &&& s.view == View::Sources ==> {
                &&& down.selected_source == app::moved(
                    s.selected_source,
                    s.source_labels.len(),
                    1,
                )
                &&& up.selected_source == app::moved(s.selected_source, s.source_labels.len(), -1)
                &&& down.selected_result == s.selected_result && down.selected_row
                    == s.selected_row
            }
        }),
{
}

/// Selecting a title opens that title and forgets what was known of another.
pub proof fn law_select_title(s: AppModel, i: usize)
    requires
        app::browsing(s.view),
        s.selected_result == Some(i),
        i < s.results.len(),
    ensures
        s.acted(Action::Select).1 == EffectModel::LoadDetails(s.results[i as int].id@),
        s.acted(Action::Right) == s.acted(Action::Select),
        s.acted(Action::Select).0.details is None,
        !s.acted(Action::Select).0.is_favourite,
        s.acted(Action::Select).0.resume_positions == Map::<Seq<char>, crate::seconds::Seconds>::empty(),
        s.acted(Action::Select).0.loading,
{
}

/// Selecting an episode plays that episode of that title; replaying, downloading and
/// choosing a source are for the same one.
pub proof fn law_select_episode(s: AppModel, index: usize)
    requires
        s.view == View::Episodes,
        s.row() matches Some(EpisodeRow::Episode { index: at, .. }) && at == index,
        s.details matches Some(d) && index < d.episodes@.len(),
    ensures
        ({
            let anime = s.details->0.id@;
            let episode = s.details->0.episodes@[index as int].id@;
            &&& s.acted(Action::Select).1 == EffectModel::Play(anime, episode)
            &&& s.acted(Action::Replay).1 == EffectModel::Replay(anime, episode)
            &&& s.acted(Action::ChooseSource).1 == EffectModel::PlayChoose(anime, episode)
            &&& s.acted(Action::Download).1 == EffectModel::Download(anime, episode)
            &&& s.acted(Action::RemoveDownload).1 == EffectModel::RemoveDownload(anime, episode)
            &&& s.acted(Action::Select).0.view == View::Player
            &&& s.acted(Action::Replay).0.view == View::Player
            &&& s.acted(Action::ChooseSource).0.view == View::Episodes
        }),
{
}

/// Selecting a source of the picker asks for that source.
pub proof fn law_select_source(s: AppModel, i: usize)
    requires
        s.view == View::Sources,
        s.selected_source == Some(i),
        i < s.source_labels.len(),
    ensures
        s.acted(Action::Select) == (s, EffectModel::SelectSource(i)),
        s.acted(Action::Download) == (s, EffectModel::DownloadSource(i)),
{
}

/// Changing the order asks for the same query again, in the catalogue alone; the
/// favourite that is toggled is the title that is open; searching starts with an empty
/// box; quitting quits.
pub proof fn law_actions(s: AppModel)
    ensures
        s.view == View::Home || s.view == View::Search ==> s.acted(Action::CycleSort).1
            == EffectModel::Search(s.query) && s.acted(Action::CycleSort).0.sort == s.sort.after(),
        !(s.view == View::Home || s.view == View::Search) ==> s.acted(Action::CycleSort) == (
            s,
            EffectModel::Nothing,
        ),
        s.details matches Some(d) ==> s.acted(Action::ToggleFavourite).1
            == EffectModel::ToggleFavourite(d.id@, d.title@),
        s.acted(Action::Search).0.view == View::Search,
        s.acted(Action::Search).0.input_mode,
        s.acted(Action::Search).0.search_input.len() == 0,
        s.acted(Action::Quit).0.should_quit,
        s.acted(Action::Filter).0.filtering <==> s.filtering || app::browsing(s.view),
        s.acted(Action::Left) == s.acted(Action::Back),
{
}

/// Whole hours, minutes and seconds show as such: minutes and seconds in two digits, but
/// for minutes that come first.
pub proof fn law_clock(h: nat, m: nat, s: nat)
    requires
        m < 60,
        s < 60,
    ensures
        ({
            let pad = |n: nat|
                if n < 10 {
                    "0"@ + crate::number::digits(n)
                } else {
                    crate::number::digits(n)
                };
            &&& h > 0 ==> app::clock(3600 * h + 60 * m + s) == crate::number::digits(h) + ":"@ + pad(
                m,
            ) + ":"@ + pad(s)
            &&& h == 0 ==> app::clock(60 * m + s) == crate::number::digits(m) + ":"@ + pad(s)
        }),
{
    reveal_strlit(":");
    reveal_strlit("0");
    let t = 3600 * h + 60 * m + s;
    assert(t / 3600 == h && t % 3600 == 60 * m + s && t % 60 == s);
    assert((60 * m + s) / 60 == m);
    assert(seq![':'] =~= ":"@);
    lemma_padded(m);
    lemma_padded(s);
    if h > 0 {
        assert(app::clock(t) =~= crate::number::digits(h) + ":"@ + crate::number::two_digits(m)
            + ":"@ + crate::number::two_digits(s));
    }
}

proof fn lemma_padded(n: nat)
    ensures
        crate::number::two_digits(n) == (if n < 10 {
            "0"@ + crate::number::digits(n)
        } else {
            crate::number::digits(n)
        }),
{
    reveal_strlit("0");
    if n < 10 {
        assert(crate::number::two_digits(n) =~= "0"@ + crate::number::digits(n));
    }
}

/// Going back leads from the episodes to the details, from the picker and the player to
/// the episodes, and from everywhere else home; leaving the player shows the episodes and
/// leaves other screens alone.
pub proof fn law_back(s: AppModel)
    ensures
        s.view == View::Episodes ==> s.went_back().view == View::Details,
        s.view == View::Sources || s.view == View::Player ==> s.went_back().view == View::Episodes,
        s.view == View::Details || app::browsing(s.view) ==> s.went_back().view == View::Home,
        s.view == View::Player ==> s.left_player() == (AppModel { view: View::Episodes, ..s }),
        s.view != View::Player ==> s.left_player() == s,
{
}

/// Details that came in are shown with every season folded and the cursor on the first
/// row that there is.
pub proof fn law_with_details(s: AppModel, d: crate::models::AnimeDetails)
    requires
        0 < d.episodes@.len() <= usize::MAX,
    ensures
        s.with_details(d).details == Some(d),
        s.with_details(d).expanded == Set::<u32>::empty(),
        !s.with_details(d).loading,
        rows::season_ids(d.episodes@).len() <= 1 ==> s.with_details(d).episode() == Some(0usize),
        rows::season_ids(d.episodes@).len() > 1 ==> s.with_details(d).selected_row == Some(0usize),
        s.with_details(d).view == s.view,
{
    let eps = d.episodes@;
    rows::law_rows(eps, Set::empty(), 0);
    rows::law_season_ids(eps);
    let p = |r: EpisodeRow| r is Episode;
    if rows::season_ids(eps).len() > 1 {
        rows::law_all_folded(eps);
        lemma_no_row(rows::rows_of(eps, Set::empty()), p, 0);
    } else {
        assert(p(rows::rows_of(eps, Set::empty())[0]));
    }
}

proof fn lemma_no_row(rows: Seq<EpisodeRow>, p: spec_fn(EpisodeRow) -> bool, from: int)
    requires
        0 <= from <= rows.len(),
        forall|i: int| from <= i < rows.len() ==> !p(#[trigger] rows[i]),
    ensures
        rows::first_row(rows, p, from) is None,
    decreases rows.len() - from,
{
    if from < rows.len() {
        lemma_no_row(rows, p, from + 1);
    }
}

/// A failure stops the loading and shows as an error.
pub proof fn law_failed(s: AppModel, f: crate::errors::Fault)
    ensures
        !s.failed(f).loading && !s.failed(f).loading_more,
        s.failed(f).status == Some("error: "@ + crate::errors::sentence(f)),
        s.failed(f).status_level == StatusLevel::Error,
        s.failed(f).view == s.view,
{
}

/// The picker shows the labels it is given, from the first on; without any the screen
/// stays.
pub proof fn law_with_sources(s: AppModel, labels: Seq<Seq<char>>)
    ensures
        s.with_sources(labels).source_labels == labels,
        labels.len() > 0 ==> s.with_sources(labels).view == View::Sources
            && s.with_sources(labels).selected_source == Some(0usize),
        labels.len() == 0 ==> s.with_sources(labels).view == s.view,
{
}

/// The spinner turns one frame at a time, and nothing else turns with it.
pub proof fn law_spinner(s: AppModel)
    requires
        s.spinner_frame < usize::MAX,
    ensures
        s.spun().spinner_frame == s.spinner_frame + 1,
        s.spun() == (AppModel { spinner_frame: s.spun().spinner_frame, ..s }),
{
}

/// The next tab starts with an empty list that is being loaded, and keeps the query.
pub proof fn law_tab_starts_empty(s: AppModel)
    ensures
        app::browsing(s.view) ==> s.tab_cycled().0.results.len() == 0 && s.tab_cycled().0.loading
            && s.tab_cycled().0.query == s.query && s.tab_cycled().0.view != s.view,
        !app::browsing(s.view) ==> s.tab_cycled() == (s, EffectModel::Nothing),
{
}

/// The app starts at home, with nothing listed, selected, loaded, typed or played, on the
/// only page of the results in the order of relevance.
pub proof fn law_first_screen()
    ensures
        ({
            let s = AppModel::initial();
            &&& s.view == View::Home && !s.should_quit
            &&& s.results.len() == 0 && s.all_results.len() == 0 && s.selected_result is None
            &&& s.page == 1 && s.total_pages == 1 && s.total == 0
            &&& s.sort.query() == "relevance"@
            &&& s.query.len() == 0 && s.filter.len() == 0 && s.search_input.len() == 0
            &&& !s.input_mode && !s.filtering && s.seek_input is None
            &&& s.details is None && s.selected_row is None && s.expanded == Set::<u32>::empty()
            &&& s.playback is None && !s.fullscreen && !s.is_favourite
            &&& s.status is None && s.status_ticks == 0 && !s.loading && !s.loading_more
        }),
{
}

/// A list of saved titles replaces the results whole: they are all there is, on one page,
/// with no query and no filter.
pub proof fn law_saved_list(s: AppModel, list: Seq<AnimeSummary>)
    requires
        list.len() <= usize::MAX,
    ensures
        ({
            let t = s.with_results(list);
            &&& t.all_results == list && t.total == list.len()
            &&& t.page == 1 && t.total_pages == 1
            &&& t.query.len() == 0 && t.filter.len() == 0 && !t.filtering
            &&& !t.loading && !t.loading_more && t.view == s.view
        }),
{
}

/// A page that came in is the page it says of as many as it says, but of one at least.
pub proof fn law_page_counts(s: AppModel, page: CatalogPage, append: bool)
    requires
        page.total <= usize::MAX,
    ensures
        ({
            let t = s.with_page(page, append);
            &&& t.page == page.page && t.total == page.total
            &&& t.total_pages >= 1
            &&& page.total_pages >= 1 ==> t.total_pages == page.total_pages
            &&& !t.loading && !t.loading_more && t.query == s.query && t.view == s.view
        }),
{
}

} // verus!
