use anime_tui::database::{
    listed, migrated, optional, stored_year, toggle_favourite, Row, Toggle, ADD_POSTER_COLUMN,
    CACHE_ANIME, IS_FAVOURITE, LAST_WATCHED, LIST_FAVOURITES, LIST_HISTORY, PUT_FAVOURITE,
    REMOVE_FAVOURITE, RESUME_POSITION, RESUME_POSITIONS, SAVE_PROGRESS, SCHEMA,
};
use anime_tui::errors::Result;
use anime_tui::models::AnimeSummary;
use rusqlite::{Connection, OptionalExtension as _};
use std::collections::HashMap;

/// The statements on a database in memory.
struct Database {
    conn: Connection,
    clock: std::cell::Cell<i64>,
}

fn row<T>(r: rusqlite::Result<Option<T>>) -> Row<T> {
    match r {
        Ok(Some(t)) => Row::Found(t),
        Ok(None) => Row::Missing,
        Err(e) => Row::Failed(e.to_string()),
    }
}

impl Database {
    fn open_in_memory() -> Result<Self> {
        Self::init(Connection::open_in_memory().unwrap())
    }

    fn init(conn: Connection) -> Result<Self> {
        conn.execute_batch(SCHEMA).unwrap();
        migrated(conn.execute(ADD_POSTER_COLUMN, []).map(|_| ()).map_err(|e| e.to_string()))?;
        Ok(Database { conn, clock: std::cell::Cell::new(1_700_000_000) })
    }

    fn cache_anime(
        &self,
        provider: &str,
        anime: &str,
        title: &str,
        year: Option<u16>,
        poster: Option<&str>,
    ) -> rusqlite::Result<usize> {
        self.conn.execute(CACHE_ANIME, (provider, anime, title, stored_year(year), poster))
    }

    fn save_progress(
        &self,
        provider: &str,
        anime: &str,
        episode: &str,
        position: f64,
        duration: f64,
    ) -> rusqlite::Result<usize> {
        let now = self.clock.get();
        self.conn.execute(SAVE_PROGRESS, (provider, anime, episode, position, duration, now))
    }

    fn resume_position(&self, provider: &str, anime: &str, episode: &str) -> Result<Option<f64>> {
        let found = self.conn.query_row(RESUME_POSITION, (provider, anime, episode), |r| r.get(0));
        optional(row(found.optional()))
    }

    fn last_watched_episode(&self, provider: &str, anime: &str) -> Result<Option<String>> {
        let found = self.conn.query_row(LAST_WATCHED, (provider, anime), |r| r.get(0));
        optional(row(found.optional()))
    }

    fn resume_positions_for_anime(&self, provider: &str, anime: &str) -> HashMap<String, f64> {
        let mut stmt = self.conn.prepare(RESUME_POSITIONS).unwrap();
        let rows = stmt.query_map((provider, anime), |r| Ok((r.get(0)?, r.get(1)?))).unwrap();
        rows.map(|r| r.unwrap()).collect()
    }

    fn is_favourite(&self, provider: &str, anime: &str) -> Result<bool> {
        let found = self.conn.query_row(IS_FAVOURITE, (provider, anime), |_| Ok(()));
        Ok(optional(row(found.optional()))?.is_some())
    }

    fn toggle_favourite(&self, provider: &str, anime: &str, title: &str) -> Result<bool> {
        let (toggle, state) = toggle_favourite(self.is_favourite(provider, anime)?);
        match toggle {
            Toggle::Remove => self.conn.execute(REMOVE_FAVOURITE, (provider, anime)),
            Toggle::Put => {
                self.conn.execute(PUT_FAVOURITE, (provider, anime, title, self.clock.get()))
            }
        }
        .unwrap();
        Ok(state)
    }

    fn list(&self, sql: &str, provider: &str) -> Vec<AnimeSummary> {
        let mut stmt = self.conn.prepare(sql).unwrap();
        let rows = stmt
            .query_map((provider,), |r| Ok(listed(r.get(0)?, r.get(1)?, r.get(2)?, r.get(3)?)))
            .unwrap();
        rows.map(|r| r.unwrap()).collect()
    }

    fn list_favourites(&self, provider: &str) -> Vec<AnimeSummary> {
        self.list(LIST_FAVOURITES, provider)
    }

    fn list_history(&self, provider: &str) -> Vec<AnimeSummary> {
        self.list(LIST_HISTORY, provider)
    }
}

#[test]
fn progress_roundtrip_and_upsert() {
    let db = Database::open_in_memory().unwrap();
    assert_eq!(db.resume_position("mock", "a", "e1").unwrap(), None);

    db.save_progress("mock", "a", "e1", 42.0, 1400.0).unwrap();
    assert_eq!(db.resume_position("mock", "a", "e1").unwrap(), Some(42.0));

    db.save_progress("mock", "a", "e1", 99.5, 1400.0).unwrap();
    assert_eq!(db.resume_position("mock", "a", "e1").unwrap(), Some(99.5));
}

#[test]
fn last_watched_episode_returns_watched() {
    let db = Database::open_in_memory().unwrap();
    assert_eq!(db.last_watched_episode("mock", "a").unwrap(), None);
    db.save_progress("mock", "a", "e1", 10.0, 100.0).unwrap();
    assert_eq!(db.last_watched_episode("mock", "a").unwrap(), Some("e1".into()));
    // Scoped per anime.
    assert_eq!(db.last_watched_episode("mock", "other").unwrap(), None);
}

#[test]
fn toggle_favourite_roundtrip() {
    let db = Database::open_in_memory().unwrap();
    assert!(!db.is_favourite("mock", "a1").unwrap());

    let now_fav = db.toggle_favourite("mock", "a1", "Anime A").unwrap();
    assert!(now_fav);
    assert!(db.is_favourite("mock", "a1").unwrap());

    let now_fav = db.toggle_favourite("mock", "a1", "Anime A").unwrap();
    assert!(!now_fav);
    assert!(!db.is_favourite("mock", "a1").unwrap());
}

#[test]
fn a_toggle_leaves_other_favourites_alone() {
    let db = Database::open_in_memory().unwrap();
    db.toggle_favourite("mock", "a2", "Anime B").unwrap();
    for now in [true, false] {
        assert_eq!(db.toggle_favourite("mock", "a1", "Anime A").unwrap(), now);
        assert_eq!(db.is_favourite("mock", "a1").unwrap(), now);
        assert!(db.is_favourite("mock", "a2").unwrap());
        assert!(!db.is_favourite("other", "a1").unwrap());
    }
}

#[test]
fn list_favourites_ordered_by_recency() {
    let db = Database::open_in_memory().unwrap();
    db.toggle_favourite("mock", "a1", "First").unwrap();
    db.toggle_favourite("mock", "a2", "Second").unwrap();
    let favs = db.list_favourites("mock");
    assert_eq!(favs.len(), 2);
    assert_eq!(favs[0].title, "Second");
}

#[test]
fn list_history_distinct_by_anime() {
    let db = Database::open_in_memory().unwrap();
    db.cache_anime("mock", "a1", "Anime One", Some(2020), None).unwrap();
    db.save_progress("mock", "a1", "ep1", 10.0, 1400.0).unwrap();
    db.save_progress("mock", "a1", "ep2", 20.0, 1400.0).unwrap();
    let hist = db.list_history("mock");
    assert_eq!(hist.len(), 1);
    assert_eq!(hist[0].title, "Anime One");
    assert_eq!(hist[0].year, Some(2020));
}

#[test]
fn cached_poster_url_surfaces_in_lists() {
    let db = Database::open_in_memory().unwrap();
    db.cache_anime("mock", "a1", "Anime One", Some(2020), Some("https://img/p.jpg")).unwrap();
    db.toggle_favourite("mock", "a1", "Anime One").unwrap();
    db.save_progress("mock", "a1", "ep1", 10.0, 1400.0).unwrap();

    let favs = db.list_favourites("mock");
    assert_eq!(favs[0].poster_url.as_deref(), Some("https://img/p.jpg"));
    let hist = db.list_history("mock");
    assert_eq!(hist[0].poster_url.as_deref(), Some("https://img/p.jpg"));
}

#[test]
fn cache_anime_preserves_poster_on_title_only_update() {
    let db = Database::open_in_memory().unwrap();
    db.cache_anime("mock", "a1", "One", None, Some("https://img/p.jpg")).unwrap();
    // A later title-only refresh (poster None) must not wipe the known cover.
    db.cache_anime("mock", "a1", "One (updated)", None, None).unwrap();
    db.toggle_favourite("mock", "a1", "One").unwrap();
    let favs = db.list_favourites("mock");
    assert_eq!(favs[0].poster_url.as_deref(), Some("https://img/p.jpg"));
}

#[test]
fn resume_positions_for_anime() {
    let db = Database::open_in_memory().unwrap();
    db.save_progress("mock", "a1", "ep1", 42.0, 1400.0).unwrap();
    db.save_progress("mock", "a1", "ep2", 0.0, 1400.0).unwrap();
    let pos = db.resume_positions_for_anime("mock", "a1");
    assert_eq!(pos.get("ep1"), Some(&42.0));
    assert!(!pos.contains_key("ep2")); // position_s == 0 excluded
}

#[test]
fn history_goes_by_the_episode_that_came_last() {
    let db = Database::open_in_memory().unwrap();
    db.save_progress("mock", "a1", "ep1", 10.0, 1400.0).unwrap();
    db.clock.set(1_700_000_010);
    db.save_progress("mock", "a2", "ep9", 10.0, 1400.0).unwrap();
    db.save_progress("mock", "a1", "ep2", 10.0, 1400.0).unwrap();
    db.clock.set(1_700_000_020);
    db.save_progress("mock", "a1", "ep1", 11.0, 1400.0).unwrap();
    assert_eq!(db.last_watched_episode("mock", "a1").unwrap(), Some("ep1".into()));
    // Titles that were never cached go by their ids.
    let titles: Vec<String> = db.list_history("mock").into_iter().map(|a| a.title).collect();
    assert_eq!(titles, ["a1", "a2"]);
}

#[test]
fn watching_an_earlier_episode_again_does_not_move_its_title() {
    let db = Database::open_in_memory().unwrap();
    db.save_progress("mock", "a1", "ep1", 10.0, 1400.0).unwrap();
    db.clock.set(1_700_000_010);
    db.save_progress("mock", "a1", "ep2", 10.0, 1400.0).unwrap();
    db.clock.set(1_700_000_020);
    db.save_progress("mock", "a2", "ep9", 10.0, 1400.0).unwrap();
    db.clock.set(1_700_000_030);
    db.save_progress("mock", "a1", "ep1", 11.0, 1400.0).unwrap();
    let titles = |db: &Database| -> Vec<String> {
        db.list_history("mock").into_iter().map(|a| a.title).collect()
    };
    assert_eq!(titles(&db), ["a2", "a1"]);
    assert_eq!(db.last_watched_episode("mock", "a1").unwrap(), Some("ep1".into()));
    // The episode that came last does.
    db.save_progress("mock", "a1", "ep2", 11.0, 1400.0).unwrap();
    assert_eq!(titles(&db), ["a1", "a2"]);
}

#[test]
fn an_old_database_gets_the_cover_column() {
    let conn = Connection::open_in_memory().unwrap();
    conn.execute_batch(
        "CREATE TABLE anime_cache (provider TEXT NOT NULL, anime_id TEXT NOT NULL,
         title TEXT NOT NULL, year INTEGER, PRIMARY KEY (provider, anime_id))",
    )
    .unwrap();
    let db = Database::init(conn).unwrap();
    db.cache_anime("mock", "a1", "One", Some(65535), Some("https://img/p.jpg")).unwrap();
    db.save_progress("mock", "a1", "e", 2.0, 3.0).unwrap();
    let hist = db.list_history("mock");
    assert_eq!(hist[0].year, Some(65535));
    assert_eq!(hist[0].poster_url.as_deref(), Some("https://img/p.jpg"));
}

#[test]
fn a_failing_statement_is_a_database_error() {
    let db = Database::open_in_memory().unwrap();
    db.conn.execute_batch("DROP TABLE history").unwrap();
    let e = db.resume_position("mock", "a", "e").unwrap_err();
    assert!(e.message().contains("no such table"), "{}", e.message());
}
