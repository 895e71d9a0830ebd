use anime_tui::errors::Error;
use anime_tui::provider::nakanime::parse::parse_anime_details_from_html;
use anime_tui::provider::nakanime::{
    catalog_path, catalog_reply, details_path, get_step, page_body, resolve_request,
    sources_reply, Attempt, Reply,
};

/// Encrypt with an arithmetic XOR key: key[i] = (start + (i % 32) * step) % 256.
fn cipher(data: &[u8], start: u8, step: u8) -> Vec<u8> {
    data.iter()
        .enumerate()
        .map(|(i, &b)| b ^ start.wrapping_add(((i % 32) as u8).wrapping_mul(step)))
        .collect()
}

fn xor_catalog(data: &[u8]) -> Vec<u8> {
    cipher(data, 0xa3, 0xa0)
}

fn xor_sources(data: &[u8]) -> Vec<u8> {
    cipher(data, 0x51, 0x81)
}

// ---- search ----

#[test]
fn search_decrypts_catalog_and_maps_fields() {
    assert!(catalog_path("tamako", 1, "relevance").starts_with("/api/catalog/search"));
    let plain = r#"{"data":[{"id":"279","title":"Tamako Love Story","poster_url":"https://img.example.com/p.jpg","season_year":2014}],"meta":{"total":1,"page":1,"per_page":32,"total_pages":1}}"#;
    let results = catalog_reply(&xor_catalog(plain.as_bytes())).unwrap().items;
    assert_eq!(results.len(), 1);
    assert_eq!(results[0].id.0, "279");
    assert_eq!(results[0].title, "Tamako Love Story");
    assert_eq!(results[0].year, Some(2014));
}

#[test]
fn search_empty_query_uses_catalog_path() {
    assert!(catalog_path("", 1, "relevance").starts_with("/api/catalog/search"));
    let plain = r#"{"data":[],"meta":{"total":0,"page":1,"per_page":32,"total_pages":0}}"#;
    let results = catalog_reply(&xor_catalog(plain.as_bytes())).unwrap().items;
    assert!(results.is_empty());
}

#[test]
fn search_page_sends_page_and_sort_and_reads_meta() {
    let path = catalog_path("", 3, "year_desc");
    let (head, query) = path.split_once('?').unwrap();
    assert_eq!(head, "/api/catalog/search");
    assert!(query.split('&').any(|p| p == "page=3"));
    assert!(query.split('&').any(|p| p == "sort=year_desc"));
    let plain = r#"{"data":[{"id":"5","title":"E","season_year":2020}],"meta":{"total":97,"page":3,"per_page":32,"total_pages":4}}"#;
    let page = catalog_reply(&xor_catalog(plain.as_bytes())).unwrap();
    assert_eq!(page.page, 3);
    assert_eq!(page.total_pages, 4);
    assert_eq!(page.total, 97);
    assert_eq!(page.items.len(), 1);
}

#[test]
fn search_page_rejects_unknown_sort() {
    // An unvalidated sort must fall back to the default; the server only sees
    // sort=relevance, never the injected value.
    let path = catalog_path("", 1, "../etc/passwd");
    let (head, query) = path.split_once('?').unwrap();
    assert_eq!(head, "/api/catalog/search");
    assert!(query.split('&').any(|p| p == "sort=relevance"));
    let plain = r#"{"data":[],"meta":{"total":0,"page":1,"per_page":32,"total_pages":1}}"#;
    let page = catalog_reply(&xor_catalog(plain.as_bytes())).unwrap();
    assert!(page.items.is_empty());
}

#[test]
fn catalog_replies_name_what_is_wrong() {
    assert!(matches!(catalog_reply(b"x"), Err(Error::ProviderChanged { .. })));
    assert!(matches!(catalog_reply(b"{\"data\":[nope"), Err(Error::ProviderChanged { .. })));
}

// ---- details ----

#[test]
fn details_extracts_anime_from_html_script() {
    assert_eq!(details_path("279").unwrap(), "/anime/279");
    let html = r#"<html><body>
        <script type="application/ld+json">{"@context":"https://schema.org","@type":"TVSeries"}</script>
        <script>{"anime":{"id":279,"title":{"userPreferred":"Tamako Love Story","romaji":"Tamako Love Story","english":null,"native":"たまこラブストーリー"},"description":"Tamako loves mochi.","coverImage":{"large":"https://img.example.com/cover.jpg"},"genres":["Romance"],"status":"Ended","episodesList":[{"id":1001,"number":1,"title":"A Maiden's Longing"}]},"watchedEpisodes":[],"currentEpisode":null,"likesCount":100,"dislikesCount":5,"userReaction":null}</script>
    </body></html>"#;
    let body = page_body(true, "200 OK", Ok(html.to_string())).unwrap();
    let details = parse_anime_details_from_html(&body).unwrap();
    assert_eq!(details.id.0, "279");
    assert_eq!(details.title, "Tamako Love Story");
    assert_eq!(details.status.as_deref(), Some("Ended"));
    assert_eq!(details.episodes.len(), 1);
    assert_eq!(details.episodes[0].id.0, "1001");
    assert_eq!(details.episodes[0].number, "1");
    assert_eq!(details.episodes[0].title.as_deref(), Some("A Maiden's Longing"));
}

#[test]
fn details_page_error_surfaces_as_provider_error() {
    assert_eq!(details_path("500").unwrap(), "/anime/500");
    let err = page_body(false, "503 Service Unavailable", Ok(String::new())).expect_err("503 should surface");
    assert!(matches!(err, Error::Provider(_)), "got {err:?}");
}

// ---- resolve ----

#[test]
fn resolve_decrypts_sources_and_maps_fields() {
    assert_eq!(
        resolve_request("1", "9001").unwrap(),
        r#"{"anime_id":1,"episode_id":9001,"title":"","turnstile_token":""}"#
    );
    let plain = r#"[{"id":1001,"url":"https://vidmoly.biz/embed-abc123.html","host":"vidmoly","language":"VOSTFR","episodeId":9001}]"#;
    let sources = sources_reply(200, &xor_sources(plain.as_bytes())).unwrap();
    assert_eq!(sources.len(), 1);
    assert_eq!(sources[0].url, "https://vidmoly.biz/embed-abc123.html");
    assert!(sources[0].http_headers.iter().any(|(k, _)| k == "Referer"));
}

#[test]
fn a_refused_sources_request_names_the_status() {
    assert_eq!(
        sources_reply(403, b"[{}]").unwrap_err(),
        Error::Provider("sources endpoint returned status 403".to_string())
    );
    assert_eq!(
        sources_reply(200, b"[{").unwrap_err().is_retryable(),
        false
    );
}

// ---- validation (no HTTP requests made) ----

#[test]
fn non_numeric_anime_id_is_rejected_before_any_request() {
    let err = details_path("../etc/passwd").expect_err("hostile id must be rejected");
    assert!(matches!(err, Error::InvalidUrl(_)), "got {err:?}");
}

#[test]
fn resolve_validates_episode_id() {
    let err = resolve_request("1", "nope").expect_err("non-numeric episode id must be rejected");
    assert!(matches!(err, Error::InvalidUrl(_)), "got {err:?}");
}

#[test]
fn resolve_validates_anime_id() {
    let err = resolve_request("bad/id", "1").expect_err("non-numeric anime id must be rejected");
    assert!(matches!(err, Error::InvalidUrl(_)), "got {err:?}");
}

#[test]
fn refused_ids_are_quoted() {
    assert_eq!(
        resolve_request("a\"b", "x").unwrap_err(),
        Error::InvalidUrl("non-numeric nakanime id: \"a\\\"b\"".to_string())
    );
}

// ---- retries ----

#[test]
fn transient_failures_are_retried_with_growing_pauses() {
    assert!(matches!(get_step(0, Reply::TimedOut), Attempt::Again { wait_ms: 200 }));
    assert!(matches!(
        get_step(1, Reply::Failed("reset".to_string())),
        Attempt::Again { wait_ms: 400 }
    ));
    assert!(matches!(get_step(2, Reply::TimedOut), Attempt::Done(Err(Error::Timeout))));
    match get_step(2, Reply::Failed("reset".to_string())) {
        Attempt::Done(Err(Error::Network(m))) => assert_eq!(m, "reset"),
        other => panic!("{other:?}"),
    }
}

#[test]
fn a_status_or_a_broken_body_is_final() {
    match get_step(0, Reply::Status("404 Not Found".to_string())) {
        Attempt::Done(Err(Error::Provider(m))) => assert_eq!(m, "unexpected status 404 Not Found"),
        other => panic!("{other:?}"),
    }
    match get_step(0, Reply::Body(Err("cut".to_string()))) {
        Attempt::Done(Err(Error::Network(m))) => assert_eq!(m, "cut"),
        other => panic!("{other:?}"),
    }
    match get_step(0, Reply::Body(Ok(vec![1, 2]))) {
        Attempt::Done(Ok(b)) => assert_eq!(b, vec![1, 2]),
        other => panic!("{other:?}"),
    }
    assert_eq!(
        page_body(true, "200 OK", Err("cut".to_string())),
        Err(Error::Network("cut".to_string()))
    );
}
