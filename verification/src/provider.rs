//! Provider abstraction. Any anime source implements [`Provider`]; the rest of
//! the app is written against this trait so a second source can be added later.
//!
//! Source-*resolution* (turning an episode into a playable URL) lives in the
//! [`crate::resolver`] module; providers focus on catalogue/metadata.

pub mod mock;
pub mod nakanime;

use crate::errors::Result;
use crate::models::{
    AnimeDetails, AnimeId, AnimeSummary, CatalogPage, Episode, EpisodeId, PlayableSource,
};
use vstd::prelude::*;

verus! {

pub trait Provider {
    /// Stable machine name, e.g. "nakanime". Used in the DB and cache keys.
    fn name(&self) -> &'static str;

    /// Fetch one page of catalogue results for `query` (empty = full catalogue),
    /// ordered by `sort` (a provider-validated value). Carries pagination metadata
    /// so the browse UI can page through and show counts.
    fn search_page(&self, query: &str, page: u32, sort: &str) -> Result<CatalogPage>;

    /// Convenience: the first page's items with the default sort. Kept so simpler
    /// callers/tests need not thread pagination through.
    fn search(&self, query: &str) -> (r: Result<Vec<AnimeSummary>>)
        default_ensures
            exists|page: Result<CatalogPage>|
                #![trigger call_ensures(Self::search_page, (self, query, 1u32, "relevance"), page)]
                call_ensures(Self::search_page, (self, query, 1u32, "relevance"), page) && match (
                    page,
                    r,
                ) {
                    (Ok(p), Ok(items)) => items == p.items,
                    (Err(e), Err(got)) => got == e,
                    _ => false,
                },
    {
        let page = self.search_page(query, 1, "relevance");
        match page {
            Ok(page) => Ok(page.items),
            Err(e) => Err(e),
        }
    }

    fn details(&self, id: &AnimeId) -> Result<AnimeDetails>;

    fn episodes(&self, id: &AnimeId) -> Result<Vec<Episode>>;

    /// Resolve a playable stream for an episode. Providers may delegate to
    /// [`crate::resolver`] internally. Returns sources best-quality-first.
    fn resolve(&self, anime: &AnimeId, episode: &EpisodeId) -> Result<Vec<PlayableSource>>;
}

} // verus!
