use lyric_finder::cmus::Cmus;

const STATUS: &str = "status playing\n\
file /media/music/Daft Punk/Discovery/01 One More Time.flac\n\
duration 320\n\
position 12\n\
tag artist Daft Punk\n\
tag album Discovery\n\
tag title One More Time\n\
tag date 2001\n\
set repeat false\n";

#[test]
fn playing_song_is_read_from_the_tags() {
    let player = Cmus::from_status(STATUS.to_string());
    let song = player.get_playing_song();
    assert_eq!(song.artist, "Daft Punk");
    assert_eq!(song.title, "One More Time");
}

#[test]
fn status_value_is_what_follows_the_pattern() {
    let player = Cmus::from_status(STATUS.to_string());
    assert_eq!(player.parse_status("tag album"), "Discovery");
    assert_eq!(player.parse_status("duration"), "320");
    assert_eq!(player.parse_status("status"), "playing");
    assert_eq!(player.parse_status("set repeat"), "false");
    assert_eq!(player.status(), STATUS);
}

#[test]
fn missing_tag_is_empty() {
    let player = Cmus::from_status("status stopped\n".to_string());
    assert_eq!(player.parse_status("tag title"), "");
    let song = player.get_playing_song();
    assert_eq!(song.artist, "");
    assert_eq!(song.title, "");
    let empty = Cmus::from_status(String::new());
    assert_eq!(empty.parse_status("tag artist"), "");
}

#[test]
fn first_line_with_the_pattern_wins() {
    let player = Cmus::from_status("tag title First\ntag title Second\n".to_string());
    assert_eq!(player.parse_status("tag title"), "First");
    let sorted = Cmus::from_status("tag artistsort Punk, Daft\ntag artist Daft Punk\n".to_string());
    assert_eq!(sorted.parse_status("tag artist"), "sort Punk, Daft");
}

#[test]
fn pattern_must_start_the_line() {
    let player = Cmus::from_status(" tag title Indented\nmy tag title Inside\n".to_string());
    assert_eq!(player.parse_status("tag title"), "");
}

#[test]
fn value_is_trimmed() {
    let player = Cmus::from_status("tag title \t  One More Time \u{a0}\u{3000}\n".to_string());
    assert_eq!(player.parse_status("tag title"), "One More Time");
    assert_eq!(player.parse_status("tag"), "title \t  One More Time");
}

#[test]
fn lines_may_end_in_carriage_return_and_line_feed() {
    let player = Cmus::from_status("tag artist Daft Punk\r\ntag title One More Time".to_string());
    let song = player.get_playing_song();
    assert_eq!(song.artist, "Daft Punk");
    assert_eq!(song.title, "One More Time");
}

#[test]
fn line_feed_ends_the_value() {
    let player = Cmus::from_status("tag title One\nMore Time\n".to_string());
    assert_eq!(player.parse_status("tag title"), "One");
}

#[test]
fn response_ends_at_the_first_zero_byte() {
    let mut response = [0u8; 64];
    let text = b"tag artist Daft Punk\ntag title One More Time\n";
    response[..text.len()].copy_from_slice(text);
    response[text.len() + 1] = b'x';
    let player = Cmus::from_response(&response);
    assert_eq!(player.status(), "tag artist Daft Punk\ntag title One More Time\n");
    let song = player.get_playing_song();
    assert_eq!(song.artist, "Daft Punk");
    assert_eq!(song.title, "One More Time");
}

#[test]
fn response_of_zeros_is_an_empty_status() {
    let player = Cmus::from_response(&[0u8; 8]);
    assert_eq!(player.status(), "");
    let last = Cmus::from_response(&[b'a', b'b', 0]);
    assert_eq!(last.status(), "ab");
}

#[test]
fn response_that_is_not_utf8_is_decoded_with_replacements() {
    let player = Cmus::from_response(&[b't', 0xff, b'a', 0xc3, 0xa9, 0, b'z']);
    assert_eq!(player.status(), "t\u{fffd}aé");
}
