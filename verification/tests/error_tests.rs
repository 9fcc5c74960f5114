use lyric_finder::error::LyricFinderError;

#[test]
fn message_of_a_rank_outside_the_table() {
    assert_eq!(
        LyricFinderError::InvalidRankListPositionError.message(),
        "Invalid rank list position"
    );
}

#[test]
fn message_of_a_refused_capacity() {
    assert_eq!(LyricFinderError::ConfigurationError.message(), "Invalid rank list capacity");
}

#[test]
fn message_of_a_failure_with_text_is_that_text() {
    assert_eq!(LyricFinderError::StdIoError("no such file".to_string()).message(), "no such file");
    assert_eq!(LyricFinderError::OsString("bad name".to_string()).message(), "bad name");
    assert_eq!(LyricFinderError::ParseError("not a number".to_string()).message(), "not a number");
    assert_eq!(LyricFinderError::EnvError("not set".to_string()).message(), "not set");
    assert_eq!(LyricFinderError::EnvError(String::new()).message(), "");
}
