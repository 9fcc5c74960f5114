//! The end of a session: where the lyrics of the chosen match are copied
//! from and to, and whether the user agreed to the copy.

use vstd::prelude::*;
use vstd::string::*;
use crate::song::{stable_name, Song};
use crate::text::{text_lowercase, trim_end_matches, without_trailing};

verus! {

/// A file name below a directory, with one slash between the two.
pub open spec fn joined(directory: Seq<char>, name: Seq<char>) -> Seq<char> {
    directory + seq!['/'] + name
}

/// Whether an answer agrees: in lowercase it is `y` or `yes`.
pub open spec fn is_consent(answer: Seq<char>) -> bool {
    text_lowercase(answer) == seq!['y'] || text_lowercase(answer) == seq!['y', 'e', 's']
}

/// The path of a lyric file in the directory that holds the candidates.
pub fn source_path(directory: &str, filename: &str) -> (path: String)
    ensures
        path@ == joined(directory@, filename@),
{
    let mut path = directory.to_owned();
    proof {
        reveal_strlit("/");
        assert("/"@ =~= seq!['/']);
    }
    path.append("/");
    path.append(filename);
    path
}

/// The path under which the lyrics of `song` are kept in `directory`: its
/// stable name below the directory, whose trailing slashes do not count.
pub fn destination_path(directory: &str, song: &Song) -> (path: String)
    ensures
        path@ == joined(without_trailing(directory@, '/'), stable_name(song@)),
{
    let mut path = trim_end_matches(directory, '/').to_owned();
    let name = song.hased_filename();
    proof {
        reveal_strlit("/");
        assert("/"@ =~= seq!['/']);
    }
    path.append("/");
    path.append(name.as_str());
    path
}

/// Whether the user's answer agrees to the copy.
pub fn confirms(answer: &str) -> (agreed: bool)
    ensures
        agreed == is_consent(answer@),
{
    let lower = answer.to_lowercase();
    proof {
        reveal_strlit("y");
        reveal_strlit("yes");
        assert("y"@ =~= seq!['y']);
        assert("yes"@ =~= seq!['y', 'e', 's']);
    }
    lower == "y".to_owned() || lower == "yes".to_owned()
}

} // verus!
