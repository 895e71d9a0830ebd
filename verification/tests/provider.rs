use anime_tui::provider::mock::MockProvider;
use anime_tui::provider::Provider;

#[test]
fn search_page_paginates() {
    let p = MockProvider;
    let first = p.search_page("", 1, "relevance").unwrap();
    assert_eq!(first.page, 1);
    assert_eq!(first.total_pages, 2);
    assert_eq!(first.total, 40);
    assert_eq!(first.items.len(), 32);
    let second = p.search_page("", 2, "relevance").unwrap();
    assert_eq!(second.page, 2);
    assert_eq!(second.items.len(), 8);
    // Pages don't overlap.
    assert_ne!(first.items[0].id.0, second.items[0].id.0);
}
