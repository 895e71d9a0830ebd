//! Local persistence: history, favourites, resume positions. The statements, which run
//! in SQLite, and the rules for what they give.

use crate::errors::{Error, Fault, Result};
use crate::models::{AnimeId, AnimeSummary};
use crate::text;
use vstd::prelude::*;

verus! {

/// The tables. Each upsert below is one statement, so no write is partial.
pub const SCHEMA: &'static str = "
CREATE TABLE IF NOT EXISTS anime_cache (
    provider   TEXT NOT NULL,
    anime_id   TEXT NOT NULL,
    title      TEXT NOT NULL,
    year       INTEGER,
    poster_url TEXT,
    PRIMARY KEY (provider, anime_id)
);

CREATE TABLE IF NOT EXISTS favourites (
    provider   TEXT NOT NULL,
    anime_id   TEXT NOT NULL,
    title      TEXT NOT NULL,
    added_at   INTEGER NOT NULL,
    PRIMARY KEY (provider, anime_id)
);

CREATE TABLE IF NOT EXISTS history (
    provider    TEXT NOT NULL,
    anime_id    TEXT NOT NULL,
    episode_id  TEXT NOT NULL,
    position_s  REAL NOT NULL DEFAULT 0,
    duration_s  REAL NOT NULL DEFAULT 0,
    watched_at  INTEGER NOT NULL,
    PRIMARY KEY (provider, anime_id, episode_id)
);

CREATE TABLE IF NOT EXISTS settings (
    key   TEXT PRIMARY KEY,
    value TEXT NOT NULL
);
";

/// Gives a database from before covers were kept the column for them.
pub const ADD_POSTER_COLUMN: &'static str = "ALTER TABLE anime_cache ADD COLUMN poster_url TEXT";

/// Keeps the title, year and cover of an anime: provider, anime, title, year, cover. A
/// cover that is known stays when no new one is given.
pub const CACHE_ANIME: &'static str = "
INSERT INTO anime_cache (provider, anime_id, title, year, poster_url)
VALUES (?1, ?2, ?3, ?4, ?5)
ON CONFLICT(provider, anime_id) DO UPDATE SET
    title = excluded.title,
    year = excluded.year,
    poster_url = COALESCE(excluded.poster_url, anime_cache.poster_url)";

/// Records or updates a resume position: provider, anime, episode, position, duration,
/// time.
pub const SAVE_PROGRESS: &'static str = "
INSERT INTO history (provider, anime_id, episode_id, position_s, duration_s, watched_at)
VALUES (?1, ?2, ?3, ?4, ?5, ?6)
ON CONFLICT(provider, anime_id, episode_id)
DO UPDATE SET position_s = excluded.position_s,
              duration_s = excluded.duration_s,
              watched_at = excluded.watched_at";

/// The resume position of an episode: provider, anime, episode.
pub const RESUME_POSITION: &'static str = "SELECT position_s FROM history WHERE provider=?1 AND anime_id=?2 AND episode_id=?3";

/// The episode of an anime that was watched last: provider, anime.
pub const LAST_WATCHED: &'static str = "
SELECT episode_id FROM history WHERE provider=?1 AND anime_id=?2
ORDER BY watched_at DESC LIMIT 1";

/// The resume positions of an anime: provider, anime.
pub const RESUME_POSITIONS: &'static str = "
SELECT episode_id, position_s FROM history
WHERE provider=?1 AND anime_id=?2 AND position_s > 0";

/// Adds a favourite: provider, anime, title, time.
pub const PUT_FAVOURITE: &'static str = "
INSERT INTO favourites (provider, anime_id, title, added_at) VALUES (?1, ?2, ?3, ?4)
ON CONFLICT(provider, anime_id) DO UPDATE SET title = excluded.title, added_at = excluded.added_at";

/// Removes a favourite: provider, anime.
pub const REMOVE_FAVOURITE: &'static str = "DELETE FROM favourites WHERE provider=?1 AND anime_id=?2";

/// A row when an anime is a favourite: provider, anime.
pub const IS_FAVOURITE: &'static str = "SELECT 1 FROM favourites WHERE provider=?1 AND anime_id=?2";

/// The favourites, the one added last first, with id, title, year and cover: provider.
pub const LIST_FAVOURITES: &'static str = "
SELECT f.anime_id, f.title, ac.year, ac.poster_url
FROM favourites f
LEFT JOIN anime_cache ac ON f.provider = ac.provider AND f.anime_id = ac.anime_id
WHERE f.provider = ?1
ORDER BY f.added_at DESC, f.rowid DESC";

/// The titles that were watched, each once, with id, title, year and cover: provider. A
/// title stands for the episode of it that came into the history last, and the title whose
/// such episode was watched last comes first; watching an earlier episode again does not
/// move its title.
pub const LIST_HISTORY: &'static str = "
SELECT h.anime_id, COALESCE(ac.title, h.anime_id), ac.year, ac.poster_url
FROM history h
LEFT JOIN anime_cache ac ON ac.provider=h.provider AND ac.anime_id=h.anime_id
WHERE h.provider=?1
  AND h.rowid IN (SELECT MAX(rowid) FROM history WHERE provider=?1 GROUP BY anime_id)
ORDER BY h.watched_at DESC, h.rowid DESC
LIMIT 100";

/// What came of asking for one row.
#[derive(Debug)]
pub enum Row<T> {
    Found(T),
    /// The query returned no rows.
    Missing,
    /// The query failed, and how.
    Failed(String),
}

/// The row that was asked for, if there is one.
pub fn optional<T>(row: Row<T>) -> (r: Result<Option<T>>)
    ensures
        match (row, r) {
            (Row::Found(t), Ok(Some(got))) => got == t,
            (Row::Missing, Ok(None)) => true,
            (Row::Failed(m), Err(e)) => e@ == Fault::Database(m@),
            _ => false,
        },
{
    match row {
        Row::Found(t) => Ok(Some(t)),
        Row::Missing => Ok(None),
        Row::Failed(m) => Err(Error::Database(m)),
    }
}

/// What came of adding a column to a database that may have it already. Databases
/// created before the column existed get it; the complaint that it is already present
/// is passed over.
pub fn migrated(added: std::result::Result<(), String>) -> (r: Result<()>)
    ensures
        match added {
            Ok(_) => r is Ok,
            Err(m) => if text::contains(m@, "duplicate column name"@) {
                r is Ok
            } else {
                r matches Err(e) && e@ == Fault::Database(m@)
            },
        },
{
    match added {
        Ok(_) => Ok(()),
        Err(m) => if text::str_has(m.as_str(), "duplicate column name") {
            Ok(())
        } else {
            Err(Error::Database(m))
        },
    }
}

/// What toggling a favourite does to the table.
#[derive(Debug, Clone, Copy, PartialEq, Eq, Structural)]
pub enum Toggle {
    Remove,
    Put,
}

/// What is to be done to toggle a favourite that is one (`exists`) or not, and the new
/// state.
pub open spec fn toggling(exists: bool) -> (Toggle, bool) {
    if exists {
        (Toggle::Remove, false)
    } else {
        (Toggle::Put, true)
    }
}

/// Add or remove an anime from favourites: what is to be done when it is one (`exists`)
/// or not, and the new state (true = now a favourite).
pub fn toggle_favourite(exists: bool) -> (r: (Toggle, bool))
    ensures
        r == toggling(exists),
        r.1 == !exists,
{
    if exists {
        (Toggle::Remove, false)
    } else {
        (Toggle::Put, true)
    }
}

/// The favourites, pairs of a provider and an anime, after a toggle of one pair was carried
/// out.
pub open spec fn carried_out(
    favourites: Set<(Seq<char>, Seq<char>)>,
    toggle: Toggle,
    pair: (Seq<char>, Seq<char>),
) -> Set<(Seq<char>, Seq<char>)> {
    match toggle {
        Toggle::Put => favourites.insert(pair),
        Toggle::Remove => favourites.remove(pair),
    }
}

/// The favourites after a pair was toggled.
pub open spec fn toggled(
    favourites: Set<(Seq<char>, Seq<char>)>,
    pair: (Seq<char>, Seq<char>),
) -> Set<(Seq<char>, Seq<char>)> {
    carried_out(favourites, toggling(favourites.contains(pair)).0, pair)
}

/// A toggle flips whether its own pair is a favourite and leaves every other pair as it
/// was; the state it tells is the new one, and a second toggle gives the favourites back.
pub proof fn law_toggle_favourite(
    favourites: Set<(Seq<char>, Seq<char>)>,
    pair: (Seq<char>, Seq<char>),
)
    ensures
        toggled(favourites, pair).contains(pair) == !favourites.contains(pair),
        toggling(favourites.contains(pair)).1 == toggled(favourites, pair).contains(pair),
        forall|other: (Seq<char>, Seq<char>)|
            other != pair ==> #[trigger] toggled(favourites, pair).contains(other)
                == favourites.contains(other),
        toggled(toggled(favourites, pair), pair) == favourites,
        toggling(toggled(favourites, pair).contains(pair)).1 == favourites.contains(pair),
{
    assert(toggled(toggled(favourites, pair), pair) =~= favourites);
}

/// The year of a stored row: the low 16 bits of the stored number.
pub open spec fn year_of(stored: Option<i64>) -> Option<u16> {
    match stored {
        Some(y) => Some(y as u16),
        None => None,
    }
}

/// The title of a stored row.
pub fn listed(id: String, title: String, year: Option<i64>, poster_url: Option<String>) -> (r:
    AnimeSummary)
    ensures
        r.id@ == id@,
        r.title@ == title@,
        r.year == year_of(year),
        r.poster_url == poster_url,
{
    AnimeSummary {
        id: AnimeId(id),
        title,
        year: match year {
            Some(y) => Some(#[verifier::truncate] (y as u16)),
            None => None,
        },
        poster_url,
    }
}

/// The number that a year is stored as.
pub fn stored_year(year: Option<u16>) -> (r: Option<i64>)
    ensures
        match (year, r) {
            (Some(y), Some(n)) => n == y,
            (None, None) => true,
            _ => false,
        },
{
    match year {
        Some(y) => Some(y as i64),
        None => None,
    }
}

/// A stored year comes back as it was.
pub proof fn law_year_round_trip(year: u16)
    ensures
        year_of(Some(year as i64)) == Some(year),
{
}

/// Times are counted from the epoch, and a clock before it counts as the epoch.
pub proof fn law_now(secs: u64, r: i64, before: i64)
    requires
        call_ensures(now_unix, (Some(secs),), r),
        call_ensures(now_unix, (None,), before),
        secs <= i64::MAX,
    ensures
        r == secs,
        before == 0,
{
}

/// A year is stored as it is, and read back as it was.
pub proof fn law_stored_year(year: Option<u16>, r: Option<i64>)
    requires
        call_ensures(stored_year, (year,), r),
    ensures
        r is Some <==> year is Some,
        year matches Some(y) ==> r == Some(y as i64),
{
}

/// The time that is stored, in whole seconds since the epoch; a clock before the epoch
/// counts as at it.
pub fn now_unix(since_epoch: Option<u64>) -> (r: i64)
    ensures
        match since_epoch {
            Some(secs) => r == secs as i64,
            None => r == 0,
        },
{
    match since_epoch {
        Some(secs) => #[verifier::truncate] (secs as i64),
        None => 0,
    }
}

} // verus!
