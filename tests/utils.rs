use auton::chars::{trim, StringExt};

#[test]
fn test_default() {
    let x: Option<u32> = auton::default();
    assert_eq!(x, None);
}

#[test]
fn test_trim_end_in_place() {
    let mut s = "hello there".to_string();
    s.trim_end_in_place();
    assert_eq!(s, "hello there");

    let mut s = "".to_string();
    s.trim_end_in_place();
    assert_eq!(s, "");

    let mut s = " ".to_string();
    s.trim_end_in_place();
    assert_eq!(s, "");

    let mut s = "hello there ".to_string();
    s.trim_end_in_place();
    assert_eq!(s, "hello there");

    let mut s = " hello there ".to_string();
    s.trim_end_in_place();
    assert_eq!(s, " hello there");
}

#[test]
fn trim_end_in_place_unicode_whitespace() {
    let mut s = "word\u{3000}\t\n\u{a0}".to_string();
    s.trim_end_in_place();
    assert_eq!(s, "word");
}

#[test]
fn trim_matches_std_trim() {
    for s in ["", "  ", " a b ", "\u{2003}x\u{2028}", "\r\nline\r\n", "é  "] {
        assert_eq!(trim(s), s.trim());
    }
}
