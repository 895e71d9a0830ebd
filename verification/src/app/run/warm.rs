//! Fetching sources ahead: the resume episode and the next one as soon as a title is
//! opened, then the episode that is hovered.

use crate::app::run;
use crate::app::run::{Command, CommandModel};
use crate::app::sources;
use crate::app::sources::PreparedSource;
use crate::app::{App, AppModel, View};
use crate::models::{AnimeDetails, AnimeId, Episode, EpisodeId};
use crate::text;
use vstd::hash_map::StringHashMap;
use vstd::prelude::*;
use vstd::view::View as _;

verus! {

/// How long the selection has to rest on an episode before it is fetched ahead, in
/// milliseconds.
pub const REST_MS: u64 = 400;

/// What was fetched ahead, and what is to be.
pub struct Warmup {
    /// Prefetched, fully-resolved sources keyed by episode id, so pressing Enter
    /// on an episode you were hovering plays instantly. Cleared per anime.
    pub source_cache: StringHashMap<Vec<PreparedSource>>,
    /// Episode id whose prefetch is currently in flight (at most one at a time).
    pub prefetch_inflight: Option<String>,
    /// Currently-hovered episode + when it became the selection (in milliseconds), for
    /// debouncing prefetch so scrolling past episodes doesn't spawn a resolve for each.
    pub prefetch_target: Option<(String, u64)>,
    /// Proactive prefetch queue (resume episode + the next one), warmed as soon
    /// as an anime's details load — drained before hover-based prefetch.
    pub prefetch_queue: Vec<(AnimeId, EpisodeId)>,
}

/// The state of a [`Warmup`].
#[verifier::ext_equal]
pub ghost struct WarmModel {
    pub source_cache: Map<Seq<char>, Vec<PreparedSource>>,
    pub prefetch_inflight: Option<Seq<char>>,
    pub prefetch_target: Option<(Seq<char>, u64)>,
    pub prefetch_queue: Seq<(Seq<char>, Seq<char>)>,
}

/// The ids of a list of episodes, as texts.
pub open spec fn id_pairs(v: Seq<(AnimeId, EpisodeId)>) -> Seq<(Seq<char>, Seq<char>)> {
    v.map_values(|p: (AnimeId, EpisodeId)| (p.0@, p.1@))
}

impl vstd::view::View for Warmup {
    type V = WarmModel;

    open spec fn view(&self) -> WarmModel {
        WarmModel {
            source_cache: self.source_cache@,
            prefetch_inflight: text::opt_text(self.prefetch_inflight),
            prefetch_target: match self.prefetch_target {
                Some((id, since)) => Some((id@, since)),
                None => None,
            },
            prefetch_queue: id_pairs(self.prefetch_queue@),
        }
    }
}

/// The position of the first episode with an id, from position `i` on.
pub open spec fn episode_with(eps: Seq<Episode>, id: Seq<char>, i: int) -> Option<int>
    decreases eps.len() - i,
{
    if i < 0 || i >= eps.len() {
        None
    } else if eps[i].id@ == id {
        Some(i)
    } else {
        episode_with(eps, id, i + 1)
    }
}

/// The position of the first episode with an id.
pub fn position_of_episode(eps: &Vec<Episode>, id: &str) -> (r: Option<usize>)
    ensures
        match r {
            Some(i) => episode_with(eps@, id@, 0) == Some(i as int) && i < eps@.len(),
            None => episode_with(eps@, id@, 0) is None,
        },
{
    let mut i: usize = 0;
    while i < eps.len()
        invariant
            i <= eps@.len(),
            episode_with(eps@, id@, i as int) == episode_with(eps@, id@, 0),
        decreases eps@.len() - i,
    {
        if text::str_same(eps[i].id.0.as_str(), id) {
            return Some(i);
        }
        i = i + 1;
    }
    None
}

/// The episode to resume: the one watched last, or else the first.
pub open spec fn resume_index(d: AnimeDetails, last: Option<Seq<char>>) -> int {
    match last {
        Some(id) => match episode_with(d.episodes@, id, 0) {
            Some(i) => i,
            None => 0,
        },
        None => 0,
    }
}

/// The resume episode and the one after it, as far as they exist.
pub open spec fn resume_queue(d: AnimeDetails, last: Option<Seq<char>>) -> Seq<
    (Seq<char>, Seq<char>),
> {
    let eps = d.episodes@;
    let start = resume_index(d, last);
    if start + 1 < eps.len() {
        seq![(d.id@, eps[start].id@), (d.id@, eps[start + 1].id@)]
    } else if start < eps.len() {
        seq![(d.id@, eps[start].id@)]
    } else {
        Seq::empty()
    }
}

/// The position of the first episode of the queue that was not fetched yet, from
/// position `i` on; the length of the queue when all were.
pub open spec fn first_cold(
    queue: Seq<(Seq<char>, Seq<char>)>,
    cache: Map<Seq<char>, Vec<PreparedSource>>,
    i: int,
) -> int
    decreases queue.len() - i,
{
    if i < 0 || i >= queue.len() || !cache.contains_key(queue[i].1) {
        i
    } else {
        first_cold(queue, cache, i + 1)
    }
}

impl WarmModel {
    /// The state at startup.
    pub open spec fn initial() -> WarmModel {
        WarmModel {
            source_cache: Map::empty(),
            prefetch_inflight: None,
            prefetch_target: None,
            prefetch_queue: Seq::empty(),
        }
    }

    /// The sources of an episode are asked for, or taken from what was fetched ahead.
    pub open spec fn resolving(self, anime: Seq<char>, episode: Seq<char>, choose: bool) -> Seq<
        CommandModel,
    > {
        if self.source_cache.contains_key(episode) {
            seq![
                CommandModel::Resolved {
                    anime,
                    episode,
                    sources: sources::prepared_models(self.source_cache[episode]@),
                    choose,
                },
            ]
        } else {
            seq![CommandModel::Resolve { anime, episode, choose }]
        }
    }

    /// A title is opened: what was fetched for another is dropped, and its resume
    /// episode and the next one are queued.
    pub open spec fn opened(self, d: AnimeDetails, last: Option<Seq<char>>) -> WarmModel {
        WarmModel {
            source_cache: Map::empty(),
            prefetch_target: None,
            prefetch_queue: resume_queue(d, last),
            ..self
        }
    }

    /// The sources of an episode were fetched ahead; none are kept after a failure.
    pub open spec fn fetched(self, episode: Seq<char>, sources: Vec<PreparedSource>) -> WarmModel {
        WarmModel {
            prefetch_inflight: if self.prefetch_inflight == Some(episode) {
                None
            } else {
                self.prefetch_inflight
            },
            source_cache: if sources@.len() == 0 {
                self.source_cache
            } else {
                self.source_cache.insert(episode, sources)
            },
            ..self
        }
    }

    /// An episode is being fetched ahead.
    pub open spec fn started(self, anime: Seq<char>, episode: Seq<char>) -> (
        WarmModel,
        Seq<CommandModel>,
    ) {
        (
            WarmModel { prefetch_inflight: Some(episode), ..self },
            seq![CommandModel::Prefetch { anime, episode }],
        )
    }

    /// The highlighted episode is fetched ahead once the selection has rested on it.
    pub open spec fn hovered(self, app: AppModel, now: u64) -> (WarmModel, Seq<CommandModel>) {
        match app.episode_ids() {
            Some((anime, episode)) if app.view == View::Episodes
                && !self.source_cache.contains_key(episode) => match self.prefetch_target {
                Some((id, since)) if id == episode => if now - since >= REST_MS {
                    self.started(anime, episode)
                } else {
                    (self, Seq::empty())
                },
                _ => (
                    WarmModel { prefetch_target: Some((episode, now)), ..self },
                    Seq::empty(),
                ),
            },
            _ => (self, Seq::empty()),
        }
    }

    /// One step of fetching ahead: first the queue, then what is hovered. Nothing is
    /// fetched while something plays (`busy`) or a fetch is in flight.
    pub open spec fn warmed(self, app: AppModel, busy: bool, now: u64) -> (
        WarmModel,
        Seq<CommandModel>,
    ) {
        if busy || self.prefetch_inflight is Some {
            (self, Seq::empty())
        } else {
            let queue = self.prefetch_queue;
            let at = first_cold(queue, self.source_cache, 0);
            if at < queue.len() {
                WarmModel {
                    prefetch_queue: queue.subrange(at + 1, queue.len() as int),
                    ..self
                }.started(queue[at].0, queue[at].1)
            } else {
                WarmModel { prefetch_queue: Seq::empty(), ..self }.hovered(app, now)
            }
        }
    }
}

/// At most one fetch is in flight, and none starts while something plays: a step of
/// fetching ahead asks for an episode only when it was idle, and then that episode is
/// the one in flight and was not fetched before.
pub proof fn law_one_prefetch(w: WarmModel, app: AppModel, busy: bool, now: u64)
    ensures
        ({
            let (next, asked) = w.warmed(app, busy, now);
            &&& asked.len() <= 1
            &&& asked.len() == 1 ==> !busy && w.prefetch_inflight is None && (asked[0] matches
                CommandModel::Prefetch { episode, .. } && next.prefetch_inflight == Some(episode)
                && !w.source_cache.contains_key(episode))
            &&& next.source_cache == w.source_cache
        }),
{
    lemma_first_cold(w.prefetch_queue, w.source_cache, 0);
}

/// The first episode with an id is found.
pub proof fn lemma_episode_with(eps: Seq<Episode>, id: Seq<char>, from: int, i: int)
    requires
        0 <= from <= i < eps.len(),
        eps[i].id@ == id,
        forall|k: int| from <= k < i ==> (#[trigger] eps[k]).id@ != id,
    ensures
        episode_with(eps, id, from) == Some(i),
    decreases i - from,
{
    if from < i {
        lemma_episode_with(eps, id, from + 1, i);
    }
}

/// Opening a title forgets what was fetched for another, and queues the episode watched
/// last and the one behind it.
pub proof fn law_resume_is_fetched_ahead(w: WarmModel, d: AnimeDetails, i: int)
    requires
        0 <= i < d.episodes@.len(),
        forall|k: int| 0 <= k < i ==> (#[trigger] d.episodes@[k]).id@ != d.episodes@[i].id@,
    ensures
        ({
            let after = w.opened(d, Some(d.episodes@[i].id@));
            &&& after.source_cache == Map::<Seq<char>, Vec<PreparedSource>>::empty()
            &&& after.prefetch_queue[0] == (d.id@, d.episodes@[i].id@)
            &&& i + 1 < d.episodes@.len() ==> after.prefetch_queue.len() == 2
                && after.prefetch_queue[1] == (d.id@, d.episodes@[i + 1].id@)
            &&& i + 1 == d.episodes@.len() ==> after.prefetch_queue.len() == 1
        }),
        w.opened(d, None).prefetch_queue[0] == (d.id@, d.episodes@[0].id@),
{
    lemma_episode_with(d.episodes@, d.episodes@[i].id@, 0, i);
}

/// What was fetched ahead for an episode is what resolving it gives, and nothing else is;
/// a fetch that came to nothing is not kept.
pub proof fn law_fetched_is_used(
    w: WarmModel,
    anime: Seq<char>,
    episode: Seq<char>,
    other: Seq<char>,
    list: Vec<PreparedSource>,
    choose: bool,
)
    ensures
        ({
            let after = w.fetched(episode, list);
            &&& list@.len() > 0 ==> after.resolving(anime, episode, choose) == seq![
                CommandModel::Resolved {
                    anime,
                    episode,
                    sources: sources::prepared_models(list@),
                    choose,
                },
            ]
            &&& list@.len() == 0 ==> after.source_cache == w.source_cache
            &&& other != episode ==> after.resolving(anime, other, choose) == w.resolving(
                anime,
                other,
                choose,
            )
            &&& w.prefetch_inflight == Some(episode) ==> after.prefetch_inflight is None
        }),
        !w.source_cache.contains_key(episode) ==> w.resolving(anime, episode, choose) == seq![
            CommandModel::Resolve { anime, episode, choose },
        ],
{
}

/// The highlighted episode is fetched once the selection has rested on it for the
/// waiting time, and not before.
pub proof fn law_hover_rests(
    w: WarmModel,
    app: AppModel,
    anime: Seq<char>,
    episode: Seq<char>,
    since: u64,
    now: u64,
)
    requires
        app.view == View::Episodes,
        app.episode_ids() == Some((anime, episode)),
        !w.source_cache.contains_key(episode),
        since <= now,
    ensures
        ({
            let begun = w.hovered(app, since).0;
            let (_, asked) = begun.hovered(app, now);
            w.prefetch_target is None ==> {
                &&& now - since >= 400 ==> asked == seq![CommandModel::Prefetch { anime, episode }]
                &&& now - since < 400 ==> asked.len() == 0
            }
        }),
{
}

/// Of the queued episodes the first that was not fetched yet is fetched next, for its own
/// title; those before it are dropped, and those behind it stay queued.
pub proof fn law_queue_order(w: WarmModel, app: AppModel, now: u64, k: int)
    requires
        w.prefetch_inflight is None,
        0 <= k < w.prefetch_queue.len(),
        !w.source_cache.contains_key(w.prefetch_queue[k].1),
        forall|i: int|
            0 <= i < k ==> w.source_cache.contains_key((#[trigger] w.prefetch_queue[i]).1),
    ensures
        ({
            let (after, asked) = w.warmed(app, false, now);
            &&& asked == seq![
                CommandModel::Prefetch {
                    anime: w.prefetch_queue[k].0,
                    episode: w.prefetch_queue[k].1,
                },
            ]
            &&& after.prefetch_queue == w.prefetch_queue.subrange(
                k + 1,
                w.prefetch_queue.len() as int,
            )
            &&& after.prefetch_inflight == Some(w.prefetch_queue[k].1)
        }),
        w.warmed(app, true, now) == (w, Seq::<CommandModel>::empty()),
{
    lemma_first_cold(w.prefetch_queue, w.source_cache, 0);
    let at = first_cold(w.prefetch_queue, w.source_cache, 0);
    if at < k {
        assert(w.source_cache.contains_key(w.prefetch_queue[at].1));
    } else if at > k {
        assert(w.source_cache.contains_key(w.prefetch_queue[k].1));
    }
}

proof fn lemma_first_cold(
    queue: Seq<(Seq<char>, Seq<char>)>,
    cache: Map<Seq<char>, Vec<PreparedSource>>,
    i: int,
)
    requires
        0 <= i <= queue.len(),
    ensures
        i <= first_cold(queue, cache, i) <= queue.len(),
        first_cold(queue, cache, i) < queue.len() ==> !cache.contains_key(
            queue[first_cold(queue, cache, i)].1,
        ),
        forall|k: int|
            i <= k < first_cold(queue, cache, i) ==> cache.contains_key((#[trigger] queue[k]).1),
    decreases queue.len() - i,
{
    if i < queue.len() && cache.contains_key(queue[i].1) {
        lemma_first_cold(queue, cache, i + 1);
    }
}

impl Warmup {
    /// Nothing was fetched ahead.
    pub fn new() -> (r: Warmup)
        ensures
            r@ == WarmModel::initial(),
    {
        let r = Warmup {
            source_cache: StringHashMap::new(),
            prefetch_inflight: None,
            prefetch_target: None,
            prefetch_queue: Vec::new(),
        };
        assert(r@ =~= WarmModel::initial());
        r
    }

    /// Resolve an episode's sources (prefetched cache first, else via yt-dlp) and
    /// report them back as `Msg::Resolved`. `choose` requests the source picker;
    /// otherwise the configured default source is played directly.
    pub fn dispatch_resolve(&self, anime: AnimeId, episode: EpisodeId, choose: bool) -> (r: Vec<
        Command,
    >)
        ensures
            run::commands(r@) == self@.resolving(anime@, episode@, choose),
    {
        // Fast path: the episode was prefetched while hovering — play now.
        match self.source_cache.get(episode.0.as_str()) {
            Some(list) => {
                let sources = sources::copy_sources(list);
                run::just(Command::Resolved { anime, episode, sources, choose })
            },
            None => run::just(Command::Resolve { anime, episode, choose }),
        }
    }

    /// New anime: drop any prefetched sources from the previous one, then queue the
    /// resume episode (most recently watched) and the one after it for proactive
    /// prefetch, so "continue watching" plays instantly.
    pub fn queue_resume_prefetch(&mut self, details: &AnimeDetails, last: &Option<String>)
        ensures
            final(self)@ == old(self)@.opened(*details, text::opt_text(*last)),
    {
        self.source_cache.clear();
        self.prefetch_target = None;
        // Start at the resume episode if known, otherwise the first episode.
        let start: usize = match last {
            Some(id) => match position_of_episode(&details.episodes, id.as_str()) {
                Some(i) => i,
                None => 0,
            },
            None => 0,
        };
        let mut queue: Vec<(AnimeId, EpisodeId)> = Vec::new();
        if start < details.episodes.len() {
            queue.push((details.id.clone(), details.episodes[start].id.clone()));
            if start + 1 < details.episodes.len() {
                queue.push((details.id.clone(), details.episodes[start + 1].id.clone()));
            }
        }
        self.prefetch_queue = queue;
        assert(self@.prefetch_queue =~= resume_queue(*details, text::opt_text(*last)));
    }

    /// Takes in what was fetched ahead for an episode; empty on failure.
    pub fn on_prefetched(&mut self, episode: EpisodeId, sources: Vec<PreparedSource>)
        ensures
            final(self)@ == old(self)@.fetched(episode@, sources),
    {
        let inflight = match &self.prefetch_inflight {
            Some(id) => text::str_same(id.as_str(), episode.0.as_str()),
            None => false,
        };
        if inflight {
            self.prefetch_inflight = None;
        }
        if !sources.is_empty() {
            self.source_cache.insert(episode.0, sources);
        }
    }

    /// Fetch one episode's sources ahead, caching the result.
    fn start_prefetch(&mut self, anime: AnimeId, episode: EpisodeId) -> (r: Vec<Command>)
        ensures
            (final(self)@, run::commands(r@)) == old(self)@.started(anime@, episode@),
    {
        self.prefetch_inflight = Some(episode.0.clone());
        run::just(Command::Prefetch { anime, episode })
    }

    /// Takes the first episode out of the queue that was not fetched yet, with those
    /// before it.
    fn pop_cold(&mut self) -> (r: Option<(AnimeId, EpisodeId)>)
        ensures
            ({
                let queue = old(self)@.prefetch_queue;
                let at = first_cold(queue, old(self)@.source_cache, 0);
                match r {
                    Some((a, e)) => at < queue.len() && queue[at] == (a@, e@) && final(self)@ == (
                    WarmModel {
                        prefetch_queue: queue.subrange(at + 1, queue.len() as int),
                        ..old(self)@
                    }),
                    None => at >= queue.len() && final(self)@ == (WarmModel {
                        prefetch_queue: Seq::empty(),
                        ..old(self)@
                    }),
                }
            }),
    {
        let ghost queue = self@.prefetch_queue;
        let mut at: usize = 0;
        while at < self.prefetch_queue.len() && self.source_cache.contains_key(
            self.prefetch_queue[at].1.0.as_str(),
        )
            invariant
                at <= self.prefetch_queue@.len(),
                *self == *old(self),
                queue == id_pairs(self.prefetch_queue@),
                first_cold(queue, self.source_cache@, at as int) == first_cold(
                    queue,
                    self.source_cache@,
                    0,
                ),
            decreases self.prefetch_queue@.len() - at,
        {
            at = at + 1;
        }
        let mut rest: Vec<(AnimeId, EpisodeId)> = Vec::new();
        if at >= self.prefetch_queue.len() {
            self.prefetch_queue = rest;
            assert(self@.prefetch_queue =~= Seq::empty());
            return None;
        }
        let found = (self.prefetch_queue[at].0.clone(), self.prefetch_queue[at].1.clone());
        let mut i: usize = at + 1;
        while i < self.prefetch_queue.len()
            invariant
                at < i <= self.prefetch_queue@.len(),
                *self == *old(self),
                queue == id_pairs(self.prefetch_queue@),
                id_pairs(rest@) == queue.subrange(at + 1, i as int),
            decreases self.prefetch_queue@.len() - i,
        {
            let ghost before = rest@;
            let pair = (self.prefetch_queue[i].0.clone(), self.prefetch_queue[i].1.clone());
            rest.push(pair);
            assert(id_pairs(rest@) =~= id_pairs(before).push((pair.0@, pair.1@)));
            assert(queue.subrange(at + 1, i + 1) =~= queue.subrange(at + 1, i as int).push(
                queue[i as int],
            ));
            i = i + 1;
        }
        self.prefetch_queue = rest;
        Some(found)
    }

    /// Hover-based prefetch of the highlighted episode (Episodes view only).
    fn prefetch_hovered(&mut self, app: &App, now: u64) -> (r: Vec<Command>)
        ensures
            (final(self)@, run::commands(r@)) == old(self)@.hovered(app@, now),
    {
        if app.view != View::Episodes {
            return run::nothing();
        }
        let (anime, episode) = match app.selected_episode_ids() {
            Some(ids) => ids,
            None => return run::nothing(),  // a season header (or nothing) is selected
        };
        if self.source_cache.contains_key(episode.0.as_str()) {
            return run::nothing();  // already warm
        }
        // Debounce: require the selection to have rested on this episode a moment.

        let rested: Option<bool> = match &self.prefetch_target {
            Some((id, since)) => if text::str_same(id.as_str(), episode.0.as_str()) {
                Some(now >= *since && now - *since >= REST_MS)
            } else {
                None
            },
            None => None,
        };
        match rested {
            Some(true) => self.start_prefetch(anime, episode),
            Some(false) => run::nothing(),  // resting, but not long enough yet
            None => {
                self.prefetch_target = Some((episode.0, now));
                run::nothing()
            },
        }
    }

    /// Warm the source cache: first the proactive queue (resume + next), then the
    /// currently-hovered episode. Limited to one in-flight resolve so scrolling
    /// doesn't spawn a yt-dlp per episode.
    pub fn maybe_prefetch(&mut self, app: &App, busy: bool, now: u64) -> (r: Vec<Command>)
        ensures
            (final(self)@, run::commands(r@)) == old(self)@.warmed(app@, busy, now),
    {
        if busy || self.prefetch_inflight.is_some() {
            return run::nothing();
        }
        // Proactive queue (resume episode + next), warmed even from the details page.

        match self.pop_cold() {
            Some((anime, episode)) => self.start_prefetch(anime, episode),
            None => self.prefetch_hovered(app, now),
        }
    }
}

} // verus!
