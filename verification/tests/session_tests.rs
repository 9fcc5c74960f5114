use lyric_finder::session::{confirms, destination_path, source_path};
use lyric_finder::song::Song;

#[test]
fn source_path_joins_with_one_slash() {
    assert_eq!(
        source_path("/media/music/archive/old_lyrics", "Daft Punk-One More Time.lrc"),
        "/media/music/archive/old_lyrics/Daft Punk-One More Time.lrc"
    );
    assert_eq!(source_path("", "a.lrc"), "/a.lrc");
    assert_eq!(source_path("dir/", "a.lrc"), "dir//a.lrc");
}

#[test]
fn destination_path_is_the_stable_name_below_the_directory() {
    let song = Song::new("ab", "c");
    assert_eq!(
        destination_path("/home/me/lyrics", &song),
        "/home/me/lyrics/900150983cd24fb0d6963f7d28e17f72.lrc"
    );
}

#[test]
fn destination_path_ignores_trailing_slashes() {
    let song = Song::new("ab", "c");
    let expected = "/home/me/lyrics/900150983cd24fb0d6963f7d28e17f72.lrc";
    assert_eq!(destination_path("/home/me/lyrics/", &song), expected);
    assert_eq!(destination_path("/home/me/lyrics///", &song), expected);
    assert_eq!(destination_path("///", &song), "/900150983cd24fb0d6963f7d28e17f72.lrc");
    assert_eq!(destination_path("", &song), "/900150983cd24fb0d6963f7d28e17f72.lrc");
}

#[test]
fn y_and_yes_confirm_in_any_case() {
    for answer in ["y", "Y", "yes", "YES", "Yes", "yEs"] {
        assert!(confirms(answer));
    }
}

#[test]
fn anything_else_does_not_confirm() {
    for answer in ["", "n", "no", "ye", "yess", "yy", " y", "y ", "oui"] {
        assert!(!confirms(answer));
    }
}
