use anime_tui::cache::sanitize_key;

#[test]
fn strips_path_traversal() {
    // Separators become `_`; dots are kept but can't form a path since the
    // result is a single filename component -> no traversal.
    assert_eq!(sanitize_key("../../etc/passwd"), ".._.._etc_passwd");
    assert!(!sanitize_key("../../etc/passwd").contains('/'));
    assert_eq!(sanitize_key("a/b\\c"), "a_b_c");
    assert_eq!(sanitize_key(".."), "_");
    assert_eq!(sanitize_key(""), "_");
}

#[test]
fn keeps_safe_chars() {
    assert_eq!(sanitize_key("Anime_Title-01.jpg"), "Anime_Title-01.jpg");
}
