//! In-memory provider used for development and tests. No network access. Lets the whole
//! UI/playback stack be developed and tested with zero network dependency.

use crate::errors::Result;
use crate::models;
use crate::models::{
    AnimeDetails, AnimeId, AnimeSummary, CatalogPage, DetailsModel, Episode, EpisodeId,
    EpisodeModel, PageModel, PlayableSource, Quality, SourceModel, SubtitleTrack, SummaryModel,
};
use crate::number;
use crate::provider::Provider;
use crate::text;
use vstd::prelude::*;

verus! {

/// How many titles the catalogue has.
pub const TOTAL: u32 = 40;

/// How many titles a page has at most.
pub const PER_PAGE: u32 = 32;

/// The number of the title at position `i` of the catalogue, as text.
pub open spec fn ordinal(i: int) -> Seq<char> {
    number::digits((i + 1) as nat)
}

/// The title at position `i` of the catalogue under a query.
pub open spec fn mock_item(query: Seq<char>, i: int) -> SummaryModel {
    SummaryModel {
        id: "mock-"@ + ordinal(i),
        title: (if query.len() == 0 {
            "Catalogue"@
        } else {
            "Result for "@ + query
        }) + " #"@ + ordinal(i),
        poster_url: None,
        year: Some((2024 - i % 10) as u16),
    }
}

/// The page that a request gets: the nearest of the two that there are.
pub open spec fn mock_page(query: Seq<char>, page: u32) -> PageModel {
    let at = if page < 1 {
        1
    } else if page > 2 {
        2
    } else {
        page as int
    };
    let start = (at - 1) * PER_PAGE;
    let end = if start + PER_PAGE < TOTAL {
        start + PER_PAGE
    } else {
        TOTAL as int
    };
    PageModel {
        items: Seq::new((end - start) as nat, |k: int| mock_item(query, start + k)),
        page: at as u32,
        total_pages: 2,
        total: TOTAL,
    }
}

/// The episodes of every title.
pub open spec fn mock_episodes() -> Seq<EpisodeModel> {
    Seq::new(
        12,
        |i: int|
            EpisodeModel {
                id: "ep-"@ + ordinal(i),
                number: ordinal(i),
                title: Some("Episode "@ + ordinal(i)),
                season_id: None,
            },
    )
}

/// The details of every title, but for its id.
pub open spec fn mock_details(id: Seq<char>) -> DetailsModel {
    DetailsModel {
        id,
        title: "Mock Anime"@,
        description: Some("A fixture title used for offline development."@),
        poster_url: None,
        genres: seq!["Action"@, "Fantasy"@],
        status: Some("Completed"@),
        episodes: mock_episodes(),
    }
}

/// The stream of every episode.
pub open spec fn mock_source() -> SourceModel {
    SourceModel {
        url: "file:///tmp/anime-tui-poc-test.mp4"@,
        quality: Quality::P720,
        label: Some("mock (local)"@),
        http_headers: Seq::empty(),
        subtitles: Seq::<SubtitleTrack>::empty(),
    }
}

/// The pages together list the whole catalogue, each title once.
pub proof fn law_pages_make_up_the_catalogue(query: Seq<char>)
    ensures
        mock_page(query, 1).items + mock_page(query, 2).items == Seq::new(
            TOTAL as nat,
            |i: int| mock_item(query, i),
        ),
        mock_page(query, 1).items.len() == 32,
        mock_page(query, 2).items.len() == 8,
        forall|i: int, j: int|
            0 <= i < j < TOTAL ==> (#[trigger] mock_item(query, i)).id != (#[trigger] mock_item(
                query,
                j,
            )).id,
{
    assert(mock_page(query, 1).items + mock_page(query, 2).items =~= Seq::new(
        TOTAL as nat,
        |i: int| mock_item(query, i),
    ));
    assert forall|i: int, j: int| 0 <= i < j < TOTAL implies (#[trigger] mock_item(query, i)).id
        != (#[trigger] mock_item(query, j)).id by {
        number::law_decimal_round_trip((i + 1) as nat, 100);
        number::law_decimal_round_trip((j + 1) as nat, 100);
        let n = "mock-"@.len() as int;
        let a = mock_item(query, i).id;
        let b = mock_item(query, j).id;
        assert(a.subrange(n, a.len() as int) =~= ordinal(i));
        assert(b.subrange(n, b.len() as int) =~= ordinal(j));
    }
}

/// A page of the offline catalogue names its place among the two, lists the titles from
/// where the page before it ended, and every title names what was searched for.
pub proof fn law_mock_pages(query: Seq<char>, page: u32, k: int)
    requires
        1 <= page <= 2,
        0 <= k < mock_page(query, page).items.len(),
    ensures
        mock_page(query, page).page == page,
        mock_page(query, page).total_pages == 2,
        mock_page(query, page).total == 40,
        mock_page(query, page).items[k].id == "mock-"@ + number::digits(
            (32 * (page - 1) + k + 1) as nat,
        ),
        query.len() > 0 ==> mock_page(query, page).items[k].title == "Result for "@ + query + " #"@
            + number::digits((32 * (page - 1) + k + 1) as nat),
        mock_page(query, 0) == mock_page(query, 1),
{
}

#[derive(Default)]
pub struct MockProvider;

/// A text with the number of a position behind it.
fn numbered(head: &str, i: u32) -> (r: String)
    requires
        i < 1000,
    ensures
        r@ == head@ + ordinal(i as int),
{
    let n = number::decimal(i as u64 + 1);
    text::cat(head, n.as_str())
}

impl Provider for MockProvider {
    fn name(&self) -> (r: &'static str)
        ensures
            r@ == "mock"@,
    {
        "mock"
    }

    /// Synthetic catalogue with two pages so offline dev exercises pagination.
    fn search_page(&self, query: &str, page: u32, sort: &str) -> (r: Result<CatalogPage>)
        ensures
            r matches Ok(p) && p@ == mock_page(query@, page),
    {
        let at: u32 = if page < 1 {
            1
        } else if page > 2 {
            2
        } else {
            page
        };
        let start: u32 = (at - 1) * PER_PAGE;
        let end: u32 = if start + PER_PAGE < TOTAL {
            start + PER_PAGE
        } else {
            TOTAL
        };
        let q = text::chars_of(query);
        let mut label = if q.len() == 0 {
            "Catalogue".to_string()
        } else {
            text::cat("Result for ", query)
        };
        label.append(" #");
        let mut items: Vec<AnimeSummary> = Vec::new();
        let mut i: u32 = start;
        while i < end
            invariant
                start <= i <= end <= TOTAL,
                label@ == (if query@.len() == 0 {
                    "Catalogue"@
                } else {
                    "Result for "@ + query@
                }) + " #"@,
                models::summaries(items@) == Seq::new(
                    (i - start) as nat,
                    |k: int| mock_item(query@, start + k),
                ),
            decreases end - i,
        {
            let ghost before = items@;
            let a = AnimeSummary {
                id: AnimeId(numbered("mock-", i)),
                title: numbered(label.as_str(), i),
                poster_url: None,
                year: Some(2024 - (i % 10) as u16),
            };
            items.push(a);
            assert(models::summaries(items@) =~= models::summaries(before).push(a@));
            assert(a@ == mock_item(query@, start + (i - start)));
            i = i + 1;
            assert(Seq::new((i - start) as nat, |k: int| mock_item(query@, start + k)) =~= Seq::new(
                (i - 1 - start) as nat,
                |k: int| mock_item(query@, start + k),
            ).push(mock_item(query@, i - 1)));
        }
        let p = CatalogPage { items, page: at, total_pages: 2, total: TOTAL };
        assert(p@ =~= mock_page(query@, page));
        Ok(p)
    }

    fn details(&self, id: &AnimeId) -> (r: Result<AnimeDetails>)
        ensures
            r matches Ok(d) && d@ == mock_details(id@),
    {
        let mut genres: Vec<String> = Vec::new();
        genres.push("Action".to_string());
        genres.push("Fantasy".to_string());
        let episodes = match self.episodes(id) {
            Ok(episodes) => episodes,
            Err(e) => return Err(e),
        };
        let d = AnimeDetails {
            id: id.clone(),
            title: "Mock Anime".to_string(),
            description: Some("A fixture title used for offline development.".to_string()),
            poster_url: None,
            genres,
            status: Some("Completed".to_string()),
            episodes,
        };
        assert(d@ =~= mock_details(id@));
        Ok(d)
    }

    fn episodes(&self, id: &AnimeId) -> (r: Result<Vec<Episode>>)
        ensures
            r matches Ok(v) && models::episode_models(v@) == mock_episodes(),
    {
        let mut out: Vec<Episode> = Vec::new();
        let mut i: u32 = 0;
        while i < 12
            invariant
                i <= 12,
                models::episode_models(out@) == mock_episodes().take(i as int),
            decreases 12 - i,
        {
            let ghost before = out@;
            let e = Episode {
                id: EpisodeId(numbered("ep-", i)),
                number: number::decimal(i as u64 + 1),
                title: Some(numbered("Episode ", i)),
                season_id: None,
            };
            out.push(e);
            assert(models::episode_models(out@) =~= models::episode_models(before).push(e@));
            assert(mock_episodes().take(i + 1) =~= mock_episodes().take(i as int).push(
                mock_episodes()[i as int],
            ));
            i = i + 1;
        }
        assert(mock_episodes().take(12) =~= mock_episodes());
        Ok(out)
    }

    /// Points at a local test asset.
    fn resolve(&self, anime: &AnimeId, episode: &EpisodeId) -> (r: Result<Vec<PlayableSource>>)
        ensures
            r matches Ok(v) && models::source_models(v@) == seq![mock_source()],
    {
        let s = PlayableSource {
            url: "file:///tmp/anime-tui-poc-test.mp4".to_string(),
            quality: Quality::P720,
            label: Some("mock (local)".to_string()),
            http_headers: Vec::new(),
            subtitles: Vec::new(),
        };
        assert(s@ =~= mock_source());
        let mut out: Vec<PlayableSource> = Vec::new();
        out.push(s);
        assert(models::source_models(out@) =~= seq![mock_source()]);
        Ok(out)
    }
}

/// Every title of the offline catalogue has the same twelve episodes, numbered from one,
/// and the same local source.
pub proof fn law_mock_title(id: Seq<char>, i: int)
    requires
        0 <= i < 12,
    ensures
        mock_details(id).id == id,
        mock_details(id).title == "Mock Anime"@,
        mock_details(id).status == Some("Completed"@),
        mock_details(id).genres == seq!["Action"@, "Fantasy"@],
        mock_details(id).poster_url is None,
        mock_details(id).episodes.len() == 12,
        mock_details(id).episodes[i].id == "ep-"@ + number::digits((i + 1) as nat),
        mock_details(id).episodes[i].number == number::digits((i + 1) as nat),
        mock_details(id).episodes[i].title == Some(
            "Episode "@ + number::digits((i + 1) as nat),
        ),
        mock_details(id).episodes[i].season_id is None,
        mock_source().url == "file:///tmp/anime-tui-poc-test.mp4"@,
        mock_source().quality is P720,
        mock_source().label == Some("mock (local)"@),
        mock_source().http_headers.len() == 0 && mock_source().subtitles.len() == 0,
{
}

} // verus!
