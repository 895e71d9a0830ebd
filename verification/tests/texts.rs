use anime_tui::text;

fn chars(s: &str) -> Vec<char> {
    s.chars().collect()
}

#[test]
fn white_space_is_unicode_white_space() {
    for c in '\0'..=char::MAX {
        assert_eq!(text::is_white(c), c.is_whitespace(), "{:?}", c);
    }
}

#[test]
fn ascii_letters_are_lowered() {
    for c in '\0'..='\u{2fff}' {
        assert_eq!(text::ascii_lowered_char(c), c.to_ascii_lowercase());
    }
}

#[test]
fn trimming_drops_white_space_at_both_ends() {
    for s in ["", " ", "a", " a b\t", "\u{a0}x\u{3000}", "\n\n"] {
        assert_eq!(text::str_trimmed(s), s.trim());
    }
}

#[test]
fn searching_finds_the_first_and_the_last_place() {
    let s = chars("abcabc");
    assert_eq!(text::position(&s, &chars("bc")), Some(1));
    assert_eq!(text::last_position(&s, &chars("bc")), Some(4));
    assert_eq!(text::position_from(&s, &chars("bc"), 2), Some(4));
    assert_eq!(text::position(&s, &chars("")), Some(0));
    assert_eq!(text::last_position(&s, &chars("")), Some(6));
    assert_eq!(text::position(&s, &chars("x")), None);
    assert!(text::str_has("héllo", "éll"));
    assert!(text::str_begins("héllo", "hé"));
    assert!(text::ends(&chars("héllo"), &chars("lo")));
    assert!(!text::str_same("a", "ab"));
}

#[test]
fn replacing_goes_from_left_to_right() {
    let got = text::replaced(&chars("aaaa"), &chars("aa"), &chars("b"));
    assert_eq!(got, chars("bb"));
    let got = text::replaced(&chars("aaa"), &chars("aa"), &chars("b"));
    assert_eq!(got, chars("ba"));
}

#[test]
fn splitting_keeps_empty_pieces() {
    let got = text::split_at_char(&chars(":a::b"), ':');
    let want: Vec<Vec<char>> = ":a::b".split(':').map(|p| p.chars().collect()).collect();
    assert_eq!(got, want);
    assert_eq!(text::split_at_char(&[], ':'), vec![Vec::<char>::new()]);
}

#[test]
fn paths_are_joined_with_one_slash() {
    assert_eq!(text::joined_path("/a", "b"), "/a/b");
    assert_eq!(text::joined_path("/a/", "b"), "/a/b");
}

#[test]
fn lists_hold_texts() {
    let list = vec!["a".to_string(), "b".to_string()];
    assert!(text::lists(&list, "b"));
    assert!(!text::lists(&list, "c"));
}
