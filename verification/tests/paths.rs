use bandcamp_dl::paths::{sanitize, ItemPath};

#[test]
fn clean_name_is_kept() {
    assert_eq!(sanitize("Boards of Canada", false), "Boards of Canada");
    assert_eq!(sanitize("résumé", false), "résumé");
    assert_eq!(sanitize("", false), "");
}

#[test]
fn illegal_characters_are_removed() {
    assert_eq!(sanitize("AC/DC", false), "ACDC");
    assert_eq!(sanitize("what? <now> \\ a:b*c|d\"e", false), "what now  abcde");
}

#[test]
fn control_characters_are_removed() {
    assert_eq!(sanitize("hello\u{0000}world", false), "helloworld");
    assert_eq!(sanitize("hello\nworld", false), "helloworld");
    assert_eq!(sanitize("a\u{0085}b", false), "ab");
}

#[test]
fn names_of_dots_vanish() {
    assert_eq!(sanitize(".", false), "");
    assert_eq!(sanitize("..", false), "");
    assert_eq!(sanitize(".period", false), ".period");
}

#[test]
fn long_names_are_cut_to_255_bytes() {
    let long = "a".repeat(300);
    assert_eq!(sanitize(&long, false), "a".repeat(255));
    let wide = "é".repeat(200);
    let cut = sanitize(&wide, false);
    assert_eq!(cut, "é".repeat(127));
    assert!(cut.len() <= 255);
}

#[test]
fn windows_names_are_avoided_on_request() {
    assert_eq!(sanitize("LPT9.asdf", true), "");
    assert_eq!(sanitize("LPT9.asdf", false), "LPT9.asdf");
    assert_eq!(sanitize("space at end ", true), "space at end");
    assert_eq!(sanitize("space at end ", false), "space at end ");
    assert_eq!(sanitize("foobar...", true), "foobar");
}

#[test]
fn compose_builds_both_levels() {
    let p = ItemPath::compose("Artist".to_string(), "Title");
    assert_eq!(p.artist, "Artist");
    assert_eq!(p.album, "Artist — Title");
    assert_eq!(p.album, "Artist \u{2014} Title");
    assert_eq!(p.segments(), vec!["Artist".to_string(), "Artist — Title".to_string()]);
}

#[test]
fn compose_with_empty_names() {
    let p = ItemPath::compose(String::new(), "");
    assert_eq!(p.artist, "");
    assert_eq!(p.album, " — ");
}
