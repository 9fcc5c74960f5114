//! The bounded table of the best matches seen so far.

use vstd::prelude::*;
use vstd::string::*;
use vstd::utf8::encode_utf8;
use crate::error::LyricFinderError;
use crate::distance::{mismatches, song_score, token_distance};
use crate::song::{filename_song, Song, SongView};

verus! {

/// One ranked candidate: a song, its score against the reference, and the
/// label of where it came from.
pub struct SongRank {
    pub song: Song,
    pub score: usize,
    pub filename: String,
}

/// A ranked candidate as plain values.
pub struct SongRankView {
    pub song: SongView,
    pub score: nat,
    pub filename: Seq<char>,
}

impl View for SongRank {
    type V = SongRankView;

    open spec fn view(&self) -> SongRankView {
        SongRankView { song: self.song@, score: self.score as nat, filename: self.filename@ }
    }
}

/// The entry that fills a slot no candidate has taken: no song, no label, and
/// the worst score there is.
pub open spec fn sentinel() -> SongRankView {
    SongRankView {
        song: SongView { artist: Seq::empty(), title: Seq::empty() },
        score: usize::MAX as nat,
        filename: Seq::empty(),
    }
}

impl Clone for SongRank {
    fn clone(&self) -> (copy: Self)
        ensures
            copy == *self,
    {
        SongRank { song: self.song.clone(), score: self.score, filename: self.filename.clone() }
    }
}

impl Default for SongRank {
    /// The sentinel entry.
    fn default() -> (entry: Self)
        ensures
            entry@ == sentinel(),
    {
        SongRank { song: Song::default(), score: usize::MAX, filename: String::new() }
    }
}

/// The entries of a table as plain values.
pub open spec fn entry_views(entries: Seq<SongRank>) -> Seq<SongRankView> {
    entries.map_values(|entry: SongRank| entry@)
}

/// Scores never decrease from one rank to the next.
pub open spec fn sorted_by_score(table: Seq<SongRankView>) -> bool {
    forall|i: int, j: int| 0 <= i <= j < table.len() ==> table[i].score <= table[j].score
}

/// The first position of the table whose score is strictly worse than
/// `score`, or the length of the table if there is none.
pub open spec fn first_worse(table: Seq<SongRankView>, score: nat) -> int
    decreases table.len(),
{
    if table.len() == 0 {
        0
    } else if table[0].score > score {
        0
    } else {
        1 + first_worse(table.drop_first(), score)
    }
}

/// The table after a candidate was offered to it: the candidate takes the
/// first position held by a strictly worse entry, what stood there and below
/// moves down by one and the last entry leaves; if no entry is strictly
/// worse, the table stays as it is.
pub open spec fn ranked(table: Seq<SongRankView>, entry: SongRankView) -> Seq<SongRankView> {
    let pos = first_worse(table, entry.score);
    if pos < table.len() {
        table.insert(pos, entry).drop_last()
    } else {
        table
    }
}

/// The number of entries in the table that `SongRanker::new` makes.
pub const RANK_LIST_SIZE: usize = 5;

/// The best matches seen so far for one reference song, best first.
pub struct SongRanker<'a> {
    ranking: Vec<SongRank>,
    song_to_match: &'a Song,
}

/// A table of `count` sentinels.
fn sentinels(count: usize) -> (ranking: Vec<SongRank>)
    ensures
        ranking@.len() == count,
        entry_views(ranking@) == Seq::new(count as nat, |i: int| sentinel()),
        sorted_by_score(entry_views(ranking@)),
{
    let mut ranking: Vec<SongRank> = Vec::new();
    while ranking.len() < count
        invariant
            ranking.len() <= count,
            entry_views(ranking@) =~= Seq::new(ranking.len() as nat, |i: int| sentinel()),
        decreases count - ranking.len(),
    {
        let ghost filled = ranking@;
        let entry = SongRank::default();
        ranking.push(entry);
        assert(entry_views(ranking@) =~= entry_views(filled).push(entry@));
    }
    ranking
}

impl<'a> SongRanker<'a> {
    /// The entries of the table, best first.
    pub closed spec fn table(&self) -> Seq<SongRankView> {
        entry_views(self.ranking@)
    }

    /// The song that candidates are scored against.
    pub closed spec fn reference(&self) -> SongView {
        self.song_to_match@
    }

    /// The table holds at least one entry and is sorted by score.
    #[verifier::type_invariant]
    spec fn well_formed(&self) -> bool {
        &&& self.ranking@.len() > 0
        &&& sorted_by_score(entry_views(self.ranking@))
    }

    /// A ranker for `song` whose table holds `RANK_LIST_SIZE` sentinels.
    pub fn new(song: &'a Song) -> (ranker: SongRanker<'a>)
        ensures
            ranker.reference() == song@,
            ranker.table() == Seq::new(RANK_LIST_SIZE as nat, |i: int| sentinel()),
            sorted_by_score(ranker.table()),
    {
        SongRanker { ranking: sentinels(RANK_LIST_SIZE), song_to_match: song }
    }

    /// A ranker for `song` whose table holds `capacity` sentinels. A table
    /// without entries is refused.
    pub fn with_capacity(song: &'a Song, capacity: usize) -> (made: Result<
        SongRanker<'a>,
        LyricFinderError,
    >)
        ensures
            capacity == 0 <==> made is Err,
            made matches Err(error) ==> error is ConfigurationError,
            made matches Ok(ranker) ==> ranker.reference() == song@ && ranker.table() == Seq::new(
                capacity as nat,
                |i: int| sentinel(),
            ) && sorted_by_score(ranker.table()),
    {
        if capacity == 0 {
            return Err(LyricFinderError::ConfigurationError);
        }
        Ok(SongRanker { ranking: sentinels(capacity), song_to_match: song })
    }

    /// The distance between two tokens, compared byte by byte.
    pub fn token_diff(base: &str, test: &str) -> (diff: usize)
        ensures
            diff == token_distance(encode_utf8(base@), encode_utf8(test@)),
    {
        let base_bytes = base.as_bytes();
        let test_bytes = test.as_bytes();
        let base_len: usize = base_bytes.len();
        let test_len: usize = test_bytes.len();
        let min_len: usize = if base_len < test_len {
            base_len
        } else {
            test_len
        };
        let mut diff: usize = if base_len > test_len {
            base_len - test_len
        } else {
            test_len - base_len
        };
        let ghost len_diff: nat = diff as nat;

        for c in 0..min_len
            invariant
                min_len <= base_len,
                min_len <= test_len,
                base_len == base_bytes@.len(),
                test_len == test_bytes@.len(),
                len_diff + min_len <= usize::MAX,
                diff == len_diff + mismatches(base_bytes@, test_bytes@, c as nat),
                mismatches(base_bytes@, test_bytes@, c as nat) <= c,
        {
            if base_bytes[c] != test_bytes[c] {
                diff += 1;
            }
        }
        diff
    }

    /// Scores the candidate against the reference and offers it to the table.
    pub fn rank(&mut self, new_song: Song, filename: String)
        ensures
            final(self).reference() == old(self).reference(),
            final(self).table() == ranked(
                old(self).table(),
                SongRankView {
                    song: new_song@,
                    score: song_score(old(self).reference(), new_song@),
                    filename: filename@,
                },
            ),
            final(self).table().len() == old(self).table().len(),
            sorted_by_score(final(self).table()),
    {
        let base_token = self.song_to_match.generate_token();
        let new_song_token = new_song.generate_token();
        let score = SongRanker::token_diff(base_token.as_str(), new_song_token.as_str());
        let song_rank = SongRank { song: new_song, score, filename };
        self.offer(song_rank);
    }

    /// Offers an entry that is already scored to the table: it takes the
    /// first position held by a strictly worse entry and the last entry
    /// leaves, or it is discarded if no entry is strictly worse.
    pub fn offer(&mut self, song_rank: SongRank)
        ensures
            final(self).reference() == old(self).reference(),
            final(self).table() == ranked(old(self).table(), song_rank@),
            final(self).table().len() == old(self).table().len(),
            sorted_by_score(final(self).table()),
    {
        let ghost table = self.table();
        proof {
            use_type_invariant(&*self);
            lemma_ranked_sorted(table, song_rank@);
            lemma_ranked_len(table, song_rank@);
        }
        let size: usize = self.ranking.len();
        let mut rank_position: usize = 0;
        while rank_position < size
            invariant
                rank_position <= size,
                size == self.ranking.len(),
                self.table() == table,
                *self == *old(self),
                sorted_by_score(ranked(table, song_rank@)),
                ranked(table, song_rank@).len() == table.len() > 0,
                forall|i: int|
                    0 <= i < rank_position ==> (#[trigger] table[i]).score <= song_rank.score,
            decreases size - rank_position,
        {
            proof {
                assert(table[rank_position as int] == self.ranking[rank_position as int]@);
            }
            if song_rank.score < self.ranking[rank_position].score {
                proof {
                    lemma_first_worse_unique(table, song_rank.score as nat, rank_position as int);
                }
                self.add_to_ranklist(song_rank, rank_position);
                return ;
            }
            rank_position += 1;
        }
        proof {
            lemma_first_worse_unique(table, song_rank.score as nat, size as int);
        }
    }

    /// Puts `item` at `pos`; the entries from there on move down by one and
    /// the last one leaves.
    fn add_to_ranklist(&mut self, item: SongRank, pos: usize)
        requires
            pos < old(self).table().len(),
            sorted_by_score(old(self).table().insert(pos as int, item@).drop_last()),
        ensures
            final(self).reference() == old(self).reference(),
            final(self).table() == old(self).table().insert(pos as int, item@).drop_last(),
    {
        let ghost before = self.ranking@;
        let size: usize = self.ranking.len();
        let mut shifted: Vec<SongRank> = Vec::new();
        for i in 0..pos
            invariant
                pos < size == before.len(),
                self.ranking@ == before,
                shifted@ =~= before.take(i as int),
        {
            shifted.push(self.ranking[i].clone());
        }
        shifted.push(item);
        for i in pos..(size - 1)
            invariant
                pos < size == before.len(),
                self.ranking@ == before,
                shifted@ =~= before.take(pos as int).push(item) + before.subrange(pos as int, i as int),
        {
            shifted.push(self.ranking[i].clone());
        }
        assert(shifted@ =~= before.insert(pos as int, item).drop_last());
        assert(entry_views(shifted@) =~= entry_views(before).insert(pos as int, item@).drop_last());
        self.ranking = shifted;
    }

    /// The entry at the 1-based rank `pos`.
    pub fn get_pos(&self, pos: usize) -> (found: Result<SongRank, LyricFinderError>)
        ensures
            1 <= pos <= self.table().len() <==> found is Ok,
            found matches Ok(entry) ==> entry@ == self.table()[pos - 1],
            found matches Err(error) ==> error is InvalidRankListPositionError,
    {
        if pos > self.ranking.len() || pos < 1 {
            return Err(LyricFinderError::InvalidRankListPositionError);
        }
        Ok(self.ranking[pos - 1].clone())
    }

    /// The entries of the table, best first: there is at least one, and
    /// their scores never decrease.
    pub fn entries(&self) -> (entries: &[SongRank])
        ensures
            entry_views(entries@) == self.table(),
            entries@.len() > 0,
            sorted_by_score(entry_views(entries@)),
    {
        proof {
            use_type_invariant(self);
        }
        self.ranking.as_slice()
    }

    /// How many entries the table holds.
    pub fn capacity(&self) -> (capacity: usize)
        ensures
            capacity == self.table().len(),
            capacity > 0,
    {
        proof {
            use_type_invariant(self);
        }
        self.ranking.len()
    }

    /// Reads a candidate out of the name of its file and ranks it under that
    /// name. A name that holds no song leaves the table as it is.
    pub fn rank_filename(&mut self, filename: String) -> (taken: bool)
        ensures
            final(self).reference() == old(self).reference(),
            taken == filename_song(filename@) is Some,
            final(self).table() == match filename_song(filename@) {
                Some(song) => ranked(
                    old(self).table(),
                    SongRankView {
                        song,
                        score: song_score(old(self).reference(), song),
                        filename: filename@,
                    },
                ),
                None => old(self).table(),
            },
            final(self).table().len() == old(self).table().len(),
            sorted_by_score(final(self).table()),
    {
        proof {
            use_type_invariant(&*self);
        }
        match Song::from_filename(filename.as_str()) {
            Some(song) => {
                self.rank(song, filename);
                true
            },
            None => false,
        }
    }

    /// The song that candidates are scored against.
    pub fn song_to_match(&self) -> (song: &'a Song)
        ensures
            song@ == self.reference(),
    {
        self.song_to_match
    }
}

/// `first_worse` lies within the table or at its end; no entry before it is
/// strictly worse than `score`, and the entry at it, if any, is.
pub proof fn lemma_first_worse(table: Seq<SongRankView>, score: nat)
    ensures
        0 <= first_worse(table, score) <= table.len(),
        forall|i: int| 0 <= i < first_worse(table, score) ==> (#[trigger] table[i]).score <= score,
        first_worse(table, score) < table.len() ==> table[first_worse(table, score)].score > score,
    decreases table.len(),
{
    if table.len() > 0 && table[0].score <= score {
        let rest = table.drop_first();
        lemma_first_worse(rest, score);
        assert forall|i: int| 0 <= i < first_worse(table, score) implies (#[trigger] table[i]).score
            <= score by {
            if i > 0 {
                assert(table[i] == rest[i - 1]);
            }
        }
        if first_worse(table, score) < table.len() {
            assert(table[first_worse(table, score)] == rest[first_worse(rest, score)]);
        }
    }
}

/// A position with the properties of `first_worse` is `first_worse`.
pub proof fn lemma_first_worse_unique(table: Seq<SongRankView>, score: nat, pos: int)
    requires
        0 <= pos <= table.len(),
        forall|i: int| 0 <= i < pos ==> (#[trigger] table[i]).score <= score,
        pos < table.len() ==> table[pos].score > score,
    ensures
        first_worse(table, score) == pos,
{
    lemma_first_worse(table, score);
    let found = first_worse(table, score);
    if found < pos {
        assert(table[found].score <= score);
    } else if pos < found {
        assert(table[pos].score <= score);
    }
}

/// Offering a candidate never changes how many entries the table holds.
pub proof fn lemma_ranked_len(table: Seq<SongRankView>, entry: SongRankView)
    ensures
        ranked(table, entry).len() == table.len(),
{
    lemma_first_worse(table, entry.score);
}

/// Where the candidate goes and what happens to the others: the entries
/// before its position stay, none of them strictly worse than it, so that of
/// two equal scores the one offered first keeps the better rank; the entries
/// after its position are the old ones, each one rank down.
pub proof fn lemma_ranked_positions(table: Seq<SongRankView>, entry: SongRankView)
    requires
        first_worse(table, entry.score) < table.len(),
    ensures
        ranked(table, entry)[first_worse(table, entry.score)] == entry,
        forall|i: int|
            0 <= i < first_worse(table, entry.score) ==> #[trigger] ranked(table, entry)[i]
                == table[i] && table[i].score <= entry.score,
        forall|i: int|
            first_worse(table, entry.score) < i < table.len() ==> #[trigger] ranked(table, entry)[i]
                == table[i - 1],
{
    lemma_first_worse(table, entry.score);
}

/// A sorted table stays sorted when a candidate is offered to it.
pub proof fn lemma_ranked_sorted(table: Seq<SongRankView>, entry: SongRankView)
    requires
        sorted_by_score(table),
    ensures
        sorted_by_score(ranked(table, entry)),
{
    lemma_first_worse(table, entry.score);
    let pos = first_worse(table, entry.score);
    let after = ranked(table, entry);
    if pos < table.len() {
        assert forall|i: int, j: int| 0 <= i <= j < after.len() implies after[i].score
            <= after[j].score by {
            if j < pos {
                assert(after[i] == table[i] && after[j] == table[j]);
            } else if j == pos {
                if i < pos {
                    assert(after[i] == table[i]);
                }
            } else {
                assert(after[j] == table[j - 1]);
                if i < pos {
                    assert(after[i] == table[i]);
                } else if i == pos {
                    assert(table[pos].score <= table[j - 1].score);
                } else {
                    assert(after[i] == table[i - 1]);
                }
            }
        }
    }
}

/// A candidate that is strictly better than the worst entry is in the table
/// afterwards.
pub proof fn lemma_ranked_keeps_better(table: Seq<SongRankView>, entry: SongRankView)
    requires
        table.len() > 0,
        entry.score < table.last().score,
    ensures
        ranked(table, entry).contains(entry),
{
    lemma_first_worse(table, entry.score);
    let pos = first_worse(table, entry.score);
    if pos == table.len() {
        assert(table[table.len() - 1].score <= entry.score);
    }
    assert(ranked(table, entry)[pos] == entry);
}

/// A candidate that is no better than any entry is discarded: the table is
/// unchanged, and the candidate is absent from it unless an equal entry was
/// there before.
pub proof fn lemma_ranked_discards_worse(table: Seq<SongRankView>, entry: SongRankView)
    requires
        forall|i: int| 0 <= i < table.len() ==> (#[trigger] table[i]).score <= entry.score,
    ensures
        ranked(table, entry) == table,
        !table.contains(entry) ==> !ranked(table, entry).contains(entry),
{
    lemma_first_worse_unique(table, entry.score, table.len() as int);
}

} // verus!
