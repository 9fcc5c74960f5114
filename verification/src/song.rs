//! A song, its normalised comparison token and its stable file name.

use vstd::prelude::*;
use vstd::string::*;
use vstd::utf8::encode_utf8;
use crate::digest::{digest_hex, is_lower_hex_digit, lemma_lower_hex_shape, lower_hex, md5_digest, md5_of};
use crate::text::{after_first, before_first, before_last, lemma_cut_at_first, lemma_cut_at_last, rsplit_once, split_once};
use crate::unicode::{char_is_alphanumeric, char_lowercase, lowercase};

verus! {

/// An artist and a title, as raw text.
pub struct Song {
    pub artist: String,
    pub title: String,
}

/// A song as two sequences of characters.
pub struct SongView {
    pub artist: Seq<char>,
    pub title: Seq<char>,
}

impl View for Song {
    type V = SongView;

    open spec fn view(&self) -> SongView {
        SongView { artist: self.artist@, title: self.title@ }
    }
}

/// What a normalised token keeps of one character: its lowercase mapping if
/// it is alphanumeric, nothing otherwise.
pub open spec fn normalized_char(c: char) -> Seq<char> {
    if char_is_alphanumeric(c) {
        char_lowercase(c)
    } else {
        Seq::empty()
    }
}

/// The text with every character replaced by what normalisation keeps of it.
pub open spec fn sanitized(text: Seq<char>) -> Seq<char> {
    text.map_values(|c: char| normalized_char(c)).flatten()
}

/// The comparison token of a song: its artist followed directly by its title,
/// normalised.
pub open spec fn token_of(song: SongView) -> Seq<char> {
    sanitized(song.artist + song.title)
}

/// The file name under which the lyrics of a song are kept: the MD5 digest of
/// the raw artist followed directly by the raw title, in lowercase
/// hexadecimal, and the extension `.lrc`.
pub open spec fn stable_name(song: SongView) -> Seq<char> {
    lower_hex(md5_digest(encode_utf8(song.artist + song.title))) + seq!['.', 'l', 'r', 'c']
}

/// The song that the name of a lyric file holds: the artist stands before
/// the first hyphen, the title after it and before the last full stop that
/// follows. A name without a hyphen, or without a full stop after it, holds no
/// song.
pub open spec fn filename_song(filename: Seq<char>) -> Option<SongView> {
    if filename.contains('-') && after_first(filename, '-').contains('.') {
        Some(
            SongView {
                artist: before_first(filename, '-'),
                title: before_last(after_first(filename, '-'), '.'),
            },
        )
    } else {
        None
    }
}

/// Normalising a text that ends in `c` appends what is kept of `c` to the
/// normalised rest.
pub proof fn lemma_sanitized_push(text: Seq<char>, c: char)
    ensures
        sanitized(text.push(c)) == sanitized(text) + normalized_char(c),
{
    let keep = |c: char| normalized_char(c);
    assert(text.push(c).map_values(keep) =~= text.map_values(keep).push(keep(c)));
    text.map_values(keep).lemma_flatten_push(keep(c));
}

/// Normalisation works character by character, so it distributes over
/// concatenation: no separator stands between the two parts.
pub proof fn lemma_sanitized_concat(left: Seq<char>, right: Seq<char>)
    ensures
        sanitized(left + right) == sanitized(left) + sanitized(right),
{
    let keep = |c: char| normalized_char(c);
    assert((left + right).map_values(keep) =~= left.map_values(keep) + right.map_values(keep));
    vstd::seq_lib::lemma_flatten_concat(left.map_values(keep), right.map_values(keep));
}

/// The token is a function of the two fields alone: songs with the same
/// artist and title have the same token, however often it is computed.
pub proof fn lemma_token_deterministic(first: Song, second: Song)
    requires
        first.artist@ == second.artist@,
        first.title@ == second.title@,
    ensures
        token_of(first@) == token_of(second@),
{
}

/// The stable name is a function of the two raw fields alone.
pub proof fn lemma_stable_name_deterministic(first: Song, second: Song)
    requires
        first.artist@ == second.artist@,
        first.title@ == second.title@,
    ensures
        stable_name(first@) == stable_name(second@),
{
}

impl Clone for Song {
    fn clone(&self) -> (copy: Self)
        ensures
            copy == *self,
    {
        Song { artist: self.artist.clone(), title: self.title.clone() }
    }
}

impl Default for Song {
    /// The song with no artist and no title.
    fn default() -> (song: Self)
        ensures
            song@.artist == Seq::<char>::empty(),
            song@.title == Seq::<char>::empty(),
    {
        Song { artist: String::new(), title: String::new() }
    }
}

impl Song {
    /// A song with the given artist and title, kept as they are.
    pub fn new(artist: &str, title: &str) -> (song: Song)
        ensures
            song@ == (SongView { artist: artist@, title: title@ }),
    {
        Song { artist: artist.to_owned(), title: title.to_owned() }
    }

    /// The song that the name of a lyric file holds, if it holds one.
    pub fn from_filename(filename: &str) -> (found: Option<Song>)
        ensures
            found is Some <==> filename_song(filename@) is Some,
            found matches Some(song) ==> Some(song@) == filename_song(filename@),
    {
        let (artist, rest) = match split_once(filename, '-') {
            Some(parts) => parts,
            None => {
                return None;
            },
        };
        proof {
            lemma_cut_at_first(artist@, '-', rest@);
        }
        let title = match rsplit_once(rest, '.') {
            Some(parts) => parts.0,
            None => {
                return None;
            },
        };
        proof {
            let extension = choose|extension: Seq<char>|
                !extension.contains('.') && rest@ == title@ + seq!['.'] + extension;
            lemma_cut_at_last(title@, '.', extension);
        }
        Some(Song::new(artist, title))
    }

    /// The comparison token: the alphanumeric characters of the artist and
    /// then of the title, each in lowercase.
    pub fn generate_token(&self) -> (token: String)
        ensures
            token@ == token_of(self@),
    {
        let mut token = Song::sanitize(self.artist.as_str());
        let title = Song::sanitize(self.title.as_str());
        token.append(title.as_str());
        proof {
            lemma_sanitized_concat(self.artist@, self.title@);
        }
        token
    }

    /// Drops every character that is not alphanumeric and puts the others in
    /// lowercase.
    pub fn sanitize(input: &str) -> (out: String)
        ensures
            out@ == sanitized(input@),
    {
        broadcast use vstd::string::group_string_axioms;

        let mut out = String::new();
        assert(input@.take(0) =~= Seq::<char>::empty());
        assert(sanitized(Seq::<char>::empty()) =~= Seq::<char>::empty());
        for c in it: input.chars()
            invariant
                it.seq() == input@,
                out@ == sanitized(input@.take(it.index())),
        {
            proof {
                let done = input@.take(it.index());
                assert(input@.take(it.index() + 1) =~= done.push(c));
                lemma_sanitized_push(done, c);
            }
            if c.is_alphanumeric() {
                let lower = lowercase(c);
                out.append(lower.as_str());
            }
        }
        assert(input@.take(input@.len() as int) =~= input@);
        out
    }

    /// The stable file name of this song: thirty-two hexadecimal digits and
    /// the extension. Case and punctuation of the fields count.
    pub fn hased_filename(&self) -> (name: String)
        ensures
            name@ == stable_name(self@),
            name@.len() == 36,
            forall|i: int| 0 <= i < 32 ==> is_lower_hex_digit(#[trigger] name@[i]),
    {
        let mut raw = self.artist.clone();
        raw.append(self.title.as_str());
        let digest = md5_of(raw.as_str().as_bytes());
        let mut name = digest_hex(&digest);
        proof {
            reveal_strlit(".lrc");
            lemma_lower_hex_shape(digest@);
            assert(".lrc"@ =~= seq!['.', 'l', 'r', 'c']);
        }
        name.append(".lrc");
        name
    }
}

} // verus!
