use anime_tui::errors::Error;
use anime_tui::provider::nakanime::parse::{
    extract_anime_json_from_html, parse_anime_details, parse_catalog, parse_episode_sources,
};

// --- catalog ---

#[test]
fn parse_catalog_rejects_non_json() {
    match parse_catalog("<html>blocked</html>") {
        Err(Error::ProviderChanged { context, .. }) => assert_eq!(context, "catalog"),
        other => panic!("expected ProviderChanged, got {other:?}"),
    }
}

#[test]
fn parse_catalog_empty_data() {
    let items = parse_catalog(r#"{"data":[],"meta":{}}"#).unwrap();
    assert!(items.is_empty());
}

#[test]
fn parse_catalog_maps_fields() {
    let json = r#"{"data":[{"id":"1326","title":"Shingeki no Kyojin","poster_url":"https://img.example.com/p.jpg","season_year":2013}],"meta":{}}"#;
    let items = parse_catalog(json).unwrap();
    assert_eq!(items.len(), 1);
    assert_eq!(items[0].id.0, "1326");
    assert_eq!(items[0].title, "Shingeki no Kyojin");
    assert_eq!(items[0].poster_url.as_deref(), Some("https://img.example.com/p.jpg"));
    assert_eq!(items[0].year, Some(2013));
}

// --- anime details ---

#[test]
fn parse_anime_details_maps_fields() {
    let json = r#"{"anime":{"id":1326,"title":{"userPreferred":"L'Attaque des Titans","romaji":"Shingeki no Kyojin","english":"Attack on Titan","native":"進撃の巨人"},"description":"In a world...","coverImage":{"large":"https://img.example.com/cover.jpg"},"genres":["Action","Drama"],"status":"Ended","episodesList":[{"id":95409,"number":1,"title":"Episode 1"}]}}"#;
    let details = parse_anime_details(json).unwrap();
    assert_eq!(details.id.0, "1326");
    assert_eq!(details.title, "L'Attaque des Titans");
    assert_eq!(details.description.as_deref(), Some("In a world..."));
    assert_eq!(details.poster_url.as_deref(), Some("https://img.example.com/cover.jpg"));
    assert_eq!(details.genres, vec!["Action", "Drama"]);
    assert_eq!(details.status.as_deref(), Some("Ended"));
    assert_eq!(details.episodes.len(), 1);
    assert_eq!(details.episodes[0].id.0, "95409");
    assert_eq!(details.episodes[0].number, "1");
    assert_eq!(details.episodes[0].title.as_deref(), Some("Episode 1"));
}

#[test]
fn parse_anime_details_sorts_episodes_by_season_then_number() {
    // Server returns episodes out of order across two seasons.
    let json = r#"{"anime":{"id":1,"title":{"userPreferred":"Test"},"episodesList":[
        {"id":200,"number":1,"seasonId":20},
        {"id":101,"number":2,"seasonId":10},
        {"id":100,"number":1,"seasonId":10}
    ]}}"#;
    let details = parse_anime_details(json).unwrap();
    let ids: Vec<&str> = details.episodes.iter().map(|e| e.id.0.as_str()).collect();
    // S1 (seasonId=10): ep1=100, ep2=101; S2 (seasonId=20): ep1=200
    assert_eq!(ids, vec!["100", "101", "200"]);
    assert_eq!(details.episodes[0].season_id, Some(10));
    assert_eq!(details.episodes[2].season_id, Some(20));
}

#[test]
fn parse_anime_details_falls_back_to_romaji() {
    let json = r#"{"anime":{"id":1,"title":{"userPreferred":null,"romaji":"Naruto"},"episodesList":[]}}"#;
    let details = parse_anime_details(json).unwrap();
    assert_eq!(details.title, "Naruto");
}

#[test]
fn extract_anime_json_finds_correct_script() {
    let html = r#"<html><body>
        <script type="application/ld+json">{"@context":"https://schema.org"}</script>
        <script>{"anime":{"id":1},"watchedEpisodes":[]}</script>
    </body></html>"#;
    let json = extract_anime_json_from_html(html).unwrap();
    assert!(json.starts_with(r#"{"anime":"#));
}

#[test]
fn extract_anime_json_errors_on_missing() {
    let html = "<html><body><script>var x = 1;</script></body></html>";
    match extract_anime_json_from_html(html) {
        Err(Error::ProviderChanged { context, .. }) => assert_eq!(context, "anime_detail"),
        other => panic!("expected ProviderChanged, got {other:?}"),
    }
}

// --- episode sources ---

#[test]
fn parse_episode_sources_maps_fields() {
    let json = r#"[{"id":361656,"url":"https://vidmoly.biz/embed-3yw9j0gyz2a9.html","host":"vidmoly","language":"VOSTFR","episodeId":95409}]"#;
    let sources = parse_episode_sources(json).unwrap();
    assert_eq!(sources.len(), 1);
    assert_eq!(sources[0].url, "https://vidmoly.biz/embed-3yw9j0gyz2a9.html");
    assert!(sources[0]
        .http_headers
        .iter()
        .any(|(k, _)| k == "Referer"));
}

#[test]
fn parse_episode_sources_empty_is_error() {
    match parse_episode_sources("[]") {
        Err(Error::Resolve(_)) => {}
        other => panic!("expected Resolve error, got {other:?}"),
    }
}

#[test]
fn parse_episode_sources_rejects_non_json() {
    match parse_episode_sources("not json") {
        Err(Error::ProviderChanged { context, .. }) => assert_eq!(context, "sources"),
        other => panic!("expected ProviderChanged, got {other:?}"),
    }
}

#[test]
fn an_episode_label_that_is_a_text_has_no_quotes() {
    let json = r#"{"anime":{"id":1,"title":{"romaji":"T"},"episodesList":[{"id":5,"number":"OVA 1"},{"id":6,"number":1.5},{"id":7,"number":"2"}]}}"#;
    let d = parse_anime_details(json).unwrap();
    // Labels that are no number come last, in the order they were listed in.
    let labels: Vec<&str> = d.episodes.iter().map(|e| e.number.as_str()).collect();
    assert_eq!(labels, ["2", "OVA 1", "1.5"]);
}
