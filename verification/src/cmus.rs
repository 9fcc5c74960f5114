//! The status report of the cmus player and the song it names.

use vstd::prelude::*;
use vstd::string::*;
use vstd::utf8::{decode_utf8, valid_utf8};
use crate::song::{Song, SongView};
use crate::text::{line_views, lines_of, strip_prefix, text_lines, trimmed, utf8_lossy, utf8_lossy_text};

verus! {

/// The bytes before the first zero byte, or all of them if none is zero.
pub open spec fn until_nul(bytes: Seq<u8>) -> Seq<u8>
    decreases bytes.len(),
{
    if bytes.len() == 0 || bytes.first() == 0 {
        Seq::empty()
    } else {
        seq![bytes.first()] + until_nul(bytes.drop_first())
    }
}

/// What follows `pattern` on the first line that starts with it, or nothing
/// if no line does.
pub open spec fn first_match(lines: Seq<Seq<char>>, pattern: Seq<char>) -> Seq<char>
    decreases lines.len(),
{
    if lines.len() == 0 {
        Seq::empty()
    } else if pattern.is_prefix_of(lines.first()) {
        lines.first().skip(pattern.len() as int)
    } else {
        first_match(lines.drop_first(), pattern)
    }
}

/// The value that a status report gives for `pattern`: what follows it on
/// the first line that starts with it, without the white space around.
pub open spec fn status_value(status: Seq<char>, pattern: Seq<char>) -> Seq<char> {
    trimmed(first_match(text_lines(status), pattern))
}

/// The song that a status report names.
pub open spec fn playing_song(status: Seq<char>) -> SongView {
    SongView {
        artist: status_value(status, "tag artist"@),
        title: status_value(status, "tag title"@),
    }
}

/// The bytes before the first zero byte are the first `count` bytes if none
/// of those is zero and the byte after them is.
pub proof fn lemma_until_nul(bytes: Seq<u8>, count: int)
    requires
        0 <= count <= bytes.len(),
        forall|i: int| 0 <= i < count ==> bytes[i] != 0,
        count < bytes.len() ==> bytes[count] == 0,
    ensures
        until_nul(bytes) == bytes.take(count),
    decreases count,
{
    if count == 0 {
        assert(bytes.take(0) =~= Seq::<u8>::empty());
    } else {
        let rest = bytes.drop_first();
        assert forall|i: int| 0 <= i < count - 1 implies rest[i] != 0 by {
            assert(rest[i] == bytes[i + 1]);
        }
        lemma_until_nul(rest, count - 1);
        assert(bytes.take(count) =~= seq![bytes.first()] + rest.take(count - 1));
    }
}

/// A status report of the player.
pub struct Cmus {
    status: String,
}

impl Cmus {
    /// The text of the report.
    pub closed spec fn status_text(&self) -> Seq<char> {
        self.status@
    }

    /// The player's answer as it was read into a buffer filled with zeros:
    /// the report is what stands before the first zero byte, decoded as
    /// UTF-8 with replacement characters for what is not.
    pub fn from_response(response: &[u8]) -> (player: Cmus)
        requires
            response@.contains(0u8),
        ensures
            player.status_text() == utf8_lossy_text(until_nul(response@)),
            valid_utf8(until_nul(response@)) ==> player.status_text() == decode_utf8(
                until_nul(response@),
            ),
    {
        let mut i: usize = 0;
        while response[i] != 0
            invariant
                i < response@.len(),
                response@.contains(0u8),
                forall|k: int| 0 <= k < i ==> response@[k] != 0,
            decreases response@.len() - i,
        {
            proof {
                let at = choose|k: int| 0 <= k < response@.len() && response@[k] == 0u8;
                assert(at > i);
            }
            i = i + 1;
        }
        proof {
            lemma_until_nul(response@, i as int);
        }
        Cmus { status: utf8_lossy(&response[0..i]) }
    }

    /// A report with the given text.
    pub fn from_status(status: String) -> (player: Cmus)
        ensures
            player.status_text() == status@,
    {
        Cmus { status }
    }

    /// The text of the report.
    pub fn status(&self) -> (text: &str)
        ensures
            text@ == self.status_text(),
    {
        self.status.as_str()
    }

    /// The song that the report names by its `tag artist` and `tag title`
    /// lines. A tag that the report lacks is empty.
    pub fn get_playing_song(&self) -> (song: Song)
        ensures
            song@ == playing_song(self.status_text()),
    {
        let title = self.parse_status("tag title");
        let artist = self.parse_status("tag artist");

        Song::new(artist.as_str(), title.as_str())
    }

    /// The value that the report gives for `pattern`.
    pub fn parse_status(&self, pattern: &str) -> (value: String)
        ensures
            value@ == status_value(self.status_text(), pattern@),
    {
        let lines = lines_of(self.status.as_str());
        let ghost all = line_views(lines@);
        let mut value: &str = "";
        proof {
            reveal_strlit("");
            assert(all.skip(0) =~= all);
        }
        let mut i: usize = 0;
        while i < lines.len()
            invariant_except_break
                value@ == Seq::<char>::empty(),
                first_match(all, pattern@) == first_match(all.skip(i as int), pattern@),
            invariant
                i <= lines.len(),
                all == line_views(lines@),
            ensures
                value@ == first_match(all, pattern@),
            decreases lines.len() - i,
        {
            proof {
                assert(all.skip(i as int).first() == lines@[i as int]@);
                assert(all.skip(i as int).drop_first() =~= all.skip(i + 1));
            }
            match strip_prefix(lines[i], pattern) {
                Some(stripped) => {
                    value = stripped;
                    break ;
                },
                None => {},
            }
            i += 1;
        }
        value.trim().to_owned()
    }
}

} // verus!
