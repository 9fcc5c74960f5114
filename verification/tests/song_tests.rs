use lyric_finder::song::Song;

#[test]
fn new_keeps_the_raw_fields() {
    let song = Song::new("Daft Punk", "One More Time");
    assert_eq!(song.artist, "Daft Punk");
    assert_eq!(song.title, "One More Time");
}

#[test]
fn default_song_is_empty() {
    let song = Song::default();
    assert_eq!(song.artist, "");
    assert_eq!(song.title, "");
    assert_eq!(song.generate_token(), "");
}

#[test]
fn clone_copies_both_fields() {
    let song = Song::new("Björk", "Jóga");
    let copy = song.clone();
    assert_eq!(copy.artist, "Björk");
    assert_eq!(copy.title, "Jóga");
}

#[test]
fn token_is_the_same_on_every_call() {
    let song = Song::new("Daft Punk", "One More Time");
    let first = song.generate_token();
    let second = song.generate_token();
    assert_eq!(first, second);
    assert_eq!(first, "daftpunkonemoretime");
}

#[test]
fn token_ignores_case_and_punctuation() {
    let noisy = Song::new("Ed Sheeran!", "Perfect");
    let plain = Song::new("edsheeran", "perfect");
    assert_eq!(noisy.generate_token(), plain.generate_token());
    assert_eq!(noisy.generate_token(), "edsheeranperfect");
}

#[test]
fn token_joins_artist_and_title_without_separator() {
    let split_early = Song::new("ab", "cd");
    let split_late = Song::new("abc", "d");
    assert_eq!(split_early.generate_token(), "abcd");
    assert_eq!(split_late.generate_token(), "abcd");
}

#[test]
fn token_of_punctuation_only_is_empty() {
    let song = Song::new("!!! ---", "?? .. ,,");
    assert_eq!(song.generate_token(), "");
}

#[test]
fn token_keeps_digits() {
    let song = Song::new("Blink-182", "What's My Age Again? (1999)");
    assert_eq!(song.generate_token(), "blink182whatsmyageagain1999");
}

#[test]
fn token_lowercases_letters_outside_ascii() {
    let song = Song::new("BJÖRK", "JÓGA");
    assert_eq!(song.generate_token(), "björkjóga");
}

#[test]
fn token_takes_the_whole_lowercase_mapping() {
    // The lowercase mapping of U+0130 has two characters.
    let song = Song::new("\u{130}", "");
    assert_eq!(song.generate_token(), "i\u{307}");
}

#[test]
fn sanitize_drops_white_space_and_symbols() {
    assert_eq!(Song::sanitize("  One More-Time\t(Live) "), "onemoretimelive");
    assert_eq!(Song::sanitize(""), "");
}

#[test]
fn stable_name_is_the_md5_of_the_raw_fields() {
    assert_eq!(Song::new("", "").hased_filename(), "d41d8cd98f00b204e9800998ecf8427e.lrc");
    assert_eq!(Song::new("ab", "c").hased_filename(), "900150983cd24fb0d6963f7d28e17f72.lrc");
    assert_eq!(Song::new("a", "bc").hased_filename(), "900150983cd24fb0d6963f7d28e17f72.lrc");
    assert_eq!(
        Song::new("message", " digest").hased_filename(),
        "f96b697d7cb7938d525a2f31aaf161d0.lrc"
    );
}

#[test]
fn stable_name_is_the_same_on_every_call() {
    let first = Song::new("A", "B").hased_filename();
    let second = Song::new("A", "B").hased_filename();
    assert_eq!(first, second);
    assert_ne!(first, Song::new("A", "C").hased_filename());
}

#[test]
fn stable_name_depends_on_case_and_punctuation() {
    let plain = Song::new("edsheeran", "perfect").hased_filename();
    assert_ne!(plain, Song::new("Ed Sheeran!", "Perfect").hased_filename());
    assert_ne!(plain, Song::new("EdSheeran", "Perfect").hased_filename());
}

#[test]
fn stable_name_has_thirty_two_hex_digits_and_the_extension() {
    let name = Song::new("Daft Punk", "One More Time").hased_filename();
    assert_eq!(name.len(), 36);
    assert!(name.ends_with(".lrc"));
    assert!(name[..32].chars().all(|c| c.is_ascii_digit() || ('a'..='f').contains(&c)));
}

#[test]
fn filename_gives_artist_and_title() {
    let song = Song::from_filename("Daft Punk-One More Time.lrc").unwrap();
    assert_eq!(song.artist, "Daft Punk");
    assert_eq!(song.title, "One More Time");
}

#[test]
fn filename_splits_at_the_first_hyphen_and_the_last_full_stop() {
    let song = Song::from_filename("a-ha-Take.On.Me.lrc").unwrap();
    assert_eq!(song.artist, "a");
    assert_eq!(song.title, "ha-Take.On.Me");

    let song = Song::from_filename("-.").unwrap();
    assert_eq!(song.artist, "");
    assert_eq!(song.title, "");
}

#[test]
fn filename_without_hyphen_or_extension_holds_no_song() {
    assert!(Song::from_filename("no hyphen.lrc").is_none());
    assert!(Song::from_filename("artist-title").is_none());
    assert!(Song::from_filename("artist.x-title").is_none());
    assert!(Song::from_filename("").is_none());
}
