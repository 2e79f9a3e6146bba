use id3org::names::{album, artist, title};

fn mock_id3_option(input_string: &str) -> Option<&str> {
    if input_string == "" {
        None
    } else {
        Some(input_string)
    }
}

#[test]
fn title_basic() {
    let str_mock_title = "Test Title Name".to_string();
    let option_mock_id3_title = mock_id3_option(&str_mock_title);
    assert_eq!(artist(option_mock_id3_title), str_mock_title);
}

#[test]
fn title_remove_bad_chars() {
    let str_mock_title = "!,.<>/;:abc*&^".to_string();
    let option_mock_id3_title = mock_id3_option(&str_mock_title);
    assert_eq!(artist(option_mock_id3_title), "abc&".to_string());
}

#[test]
fn artist_basic() {
    let str_mock_artist = "Test Artist Name".to_string();
    let option_mock_id3_artist = mock_id3_option(&str_mock_artist);
    assert_eq!(artist(option_mock_id3_artist), str_mock_artist);
}

#[test]
fn artist_remove_bad_chars() {
    let str_mock_artist = "!,.<>/;:abc*&^".to_string();
    let option_mock_id3_artist = mock_id3_option(&str_mock_artist);
    assert_eq!(artist(option_mock_id3_artist), "abc&".to_string());
}

#[test]
fn artist_id3_tags_not_readable() {
    let str_mock_artist = "".to_string();
    let option_mock_id3_artist = mock_id3_option(&str_mock_artist);
    assert_eq!(artist(option_mock_id3_artist), "NA".to_string());
}

#[test]
fn artist_remove_ft() {
    let str_mock_artist = "Someone ft someone else".to_string();
    let option_mock_id3_artist = mock_id3_option(&str_mock_artist);
    assert_eq!(artist(option_mock_id3_artist), "Someone".to_string());
}

#[test]
fn artist_remove_feat_case_insensitive() {
    let str_mock_artist = "Someone FEat. someone else".to_string();
    let option_mock_id3_artist = mock_id3_option(&str_mock_artist);
    assert_eq!(artist(option_mock_id3_artist), "Someone".to_string());
}

#[test]
fn album_basic() {
    let str_mock_album = "Test Album Name".to_string();
    let str_mock_album_artist = "".to_string();
    let option_mock_id3_album = mock_id3_option(&str_mock_album);
    let option_mock_id3_album_artist = mock_id3_option(&str_mock_album_artist);
    assert_eq!(album(option_mock_id3_album, option_mock_id3_album_artist), str_mock_album);
}

#[test]
fn album_artist_basic() {
    let str_mock_album = "".to_string();
    let str_mock_album_artist = "Test Album Name".to_string();
    let option_mock_id3_album = mock_id3_option(&str_mock_album);
    let option_mock_id3_album_artist = mock_id3_option(&str_mock_album_artist);
    assert_eq!(album(option_mock_id3_album, option_mock_id3_album_artist), str_mock_album_artist);
}

#[test]
fn album_remove_bad_chars() {
    let str_mock_album = "!,.<>/;:abc*&^".to_string();
    let str_mock_album_artist = "".to_string();
    let option_mock_id3_album = mock_id3_option(&str_mock_album);
    let option_mock_id3_album_artist = mock_id3_option(&str_mock_album_artist);
    assert_eq!(album(option_mock_id3_album, option_mock_id3_album_artist), "abc&".to_string());
}

#[test]
fn album_id3_tags_not_readable() {
    let str_mock_album = "".to_string();
    let str_mock_album_artist = "".to_string();
    let option_mock_id3_album = mock_id3_option(&str_mock_album);
    let option_mock_id3_album_artist = mock_id3_option(&str_mock_album_artist);
    assert_eq!(album(option_mock_id3_album, option_mock_id3_album_artist), "NA".to_string());
}

#[test]
fn album_album_featuring() {
    let str_mock_album = "Something featuring someone".to_string();
    let str_mock_album_artist = "".to_string();
    let option_mock_id3_album = mock_id3_option(&str_mock_album);
    let option_mock_id3_album_artist = mock_id3_option(&str_mock_album_artist);
    assert_eq!(album(option_mock_id3_album, option_mock_id3_album_artist), "Something".to_string());
}

#[test]
fn album_album_artist_feat() {
    let str_mock_album = "".to_string();
    let str_mock_album_artist = "Something feat. someone".to_string();
    let option_mock_id3_album = mock_id3_option(&str_mock_album);
    let option_mock_id3_album_artist = mock_id3_option(&str_mock_album_artist);
    assert_eq!(album(option_mock_id3_album, option_mock_id3_album_artist), "Something".to_string());
}

#[test]
fn album_album_artist_feat_case_insensitive() {
    let str_mock_album = "".to_string();
    let str_mock_album_artist = "Something FEat. someone".to_string();
    let option_mock_id3_album = mock_id3_option(&str_mock_album);
    let option_mock_id3_album_artist = mock_id3_option(&str_mock_album_artist);
    assert_eq!(album(option_mock_id3_album, option_mock_id3_album_artist), "Something".to_string());
}
