//! Observed transport facts of the provider (host: nakanime.tv).
//!
//! Everything site-specific lives in this file so a maintainer touches one place.

use crate::text;
use vstd::prelude::*;

verus! {

/// Catalogue search. `GET /api/catalog/search?sort=relevance&per_page=32&page=N[&keyword=Q]`
pub const CATALOG_SEARCH_PATH: &'static str = "/api/catalog/search";

pub const CATALOG_SORT_DEFAULT: &'static str = "relevance";

pub const CATALOG_PER_PAGE: u32 = 32;

pub const CATALOG_KEYWORD_PARAM: &'static str = "keyword";

/// Anime detail HTML page. `GET /anime/{id}` redirects to `/anime/{id}/{slug}`. Anime
/// JSON is embedded in an inline `<script>` tag as
/// `{"anime": {...}, "watchedEpisodes": [...], ...}`.
pub const ANIME_PAGE_PATH: &'static str = "/anime/{id}";

/// Episode sources. `POST /api/sources/anime` with JSON body
/// `{"anime_id": N, "episode_id": N, "title": "", "turnstile_token": ""}`.
pub const SOURCES_PATH: &'static str = "/api/sources/anime";

/// Embed resolver. `POST /api/proxy/resolve-embed` with
/// `{"sourceId": N, "host": "...", "url": "..."}`.
/// Returns `{"proxied_url": "..."}` on success or 204 No Content when unavailable.
pub const RESOLVE_EMBED_PATH: &'static str = "/api/proxy/resolve-embed";

/// Plain-JSON health endpoints (not encrypted).
pub const ANNOUNCEMENTS_PATH: &'static str = "/api/announcements/active";

pub const FAI_STATUS_PATH: &'static str = "/api/fai-status";

/// Build a path by substituting `{id}` with a (validated, numeric) id.
pub fn with_id(template: &str, id: &str) -> (r: String)
    ensures
        r@ == text::replace(template@, "{id}"@, id@),
{
    let t = text::chars_of(template);
    let p = text::chars_of("{id}");
    let q = text::chars_of(id);
    proof {
        reveal_strlit("{id}");
    }
    let out = text::replaced(t.as_slice(), p.as_slice(), q.as_slice());
    text::string_of(out.as_slice())
}

} // verus!
