use anime_tui::provider::nakanime::endpoints::{with_id, ANIME_PAGE_PATH, SOURCES_PATH};

#[test]
fn id_substitution() {
    assert_eq!(with_id(ANIME_PAGE_PATH, "279"), "/anime/279");
    assert_eq!(with_id(SOURCES_PATH, "42"), "/api/sources/anime");
}
