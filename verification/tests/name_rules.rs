use id3org::names::{album, artist, title};

#[test]
fn title_removes_disallowed_chars_only() {
    assert_eq!(title(Some("Song (feat. X)!")), "Song feat X".to_string());
}

#[test]
fn title_keeps_trailing_spaces() {
    assert_eq!(title(Some("Song  ")), "Song  ".to_string());
}

#[test]
fn title_of_title_is_unchanged() {
    let once = title(Some("Héllo, Wörld #1"));
    assert_eq!(once, "Hllo Wrld 1".to_string());
    assert_eq!(title(Some(once.as_str())), once);
}

#[test]
fn artist_cuts_featuring_to_end_of_line_only() {
    assert_eq!(artist(Some("A featuring B\nC")), "A C".to_string());
}

#[test]
fn artist_cut_removes_carriage_return_before_line_feed() {
    assert_eq!(artist(Some("A feat. B\r\nC")), "A C".to_string());
}

#[test]
fn artist_removes_dotted_ft() {
    assert_eq!(artist(Some("Someone ft. Other")), "Someone".to_string());
}

#[test]
fn artist_ft_needs_surrounding_space() {
    assert_eq!(artist(Some("Left ftp")), "Left ftp".to_string());
}

#[test]
fn artist_keyword_at_start_leaves_empty_name() {
    assert_eq!(artist(Some("Featuring Everyone")), "".to_string());
}

#[test]
fn artist_featuring_in_upper_case() {
    assert_eq!(artist(Some("Band FEATURING Guest")), "Band".to_string());
}

#[test]
fn artist_non_ascii_letters_are_not_keyword_letters() {
    // U+0130 is not an upper-case `i` for the keyword, so nothing is cut.
    assert_eq!(artist(Some("Someone FEATUR\u{130}NG x")), "Someone FEATURNG x".to_string());
}

#[test]
fn artist_trims_trailing_spaces() {
    assert_eq!(artist(Some("Trailing   ")), "Trailing".to_string());
}

#[test]
fn artist_removes_slash() {
    assert_eq!(artist(Some("AC/DC")), "ACDC".to_string());
}

#[test]
fn artist_only_first_featuring_on_a_line_is_cut() {
    assert_eq!(artist(Some("x featuring a\ny featuring b")), "x y featuring b".to_string());
}

#[test]
fn clean_artist_is_kept() {
    assert_eq!(artist(Some("Simon & Garfunkel")), "Simon & Garfunkel".to_string());
}

#[test]
fn album_tag_takes_precedence() {
    assert_eq!(album(Some("Album"), Some("Other")), "Album".to_string());
    assert_eq!(album(Some("Album"), None), "Album".to_string());
}

#[test]
fn album_does_not_cut_ft() {
    assert_eq!(album(None, Some("X ft Y")), "X ft Y".to_string());
}

#[test]
fn album_cuts_featuring_case_insensitively() {
    assert_eq!(album(Some("Hits FeAtUrInG Guests"), None), "Hits".to_string());
}

#[test]
fn names_hold_only_allowed_chars() {
    let allowed = |c: char| c.is_ascii_alphanumeric() || c == '-' || c == '_' || c == ' ' || c == '&';
    for input in ["Beyoncé", "a\tb\nc", "x_y-z & w!?", "  lead ", "é"] {
        assert!(artist(Some(input)).chars().all(allowed));
        assert!(album(Some(input), None).chars().all(allowed));
        assert!(title(Some(input)).chars().all(allowed));
        assert!(!artist(Some(input)).ends_with(' '));
        assert!(!album(Some(input), None).ends_with(' '));
    }
}

#[test]
fn hyphen_underscore_ampersand_and_space_are_kept() {
    assert_eq!(artist(Some("x_y-z & w!?")), "x_y-z & w".to_string());
}

#[test]
fn control_characters_are_removed() {
    assert_eq!(title(Some("a\tb\nc")), "abc".to_string());
}

#[test]
fn single_line_credit_truncates_at_keyword() {
    assert_eq!(album(Some("Live feat. Many, Others (2001)"), None), "Live".to_string());
}
