//! The distance between two tokens: a length penalty plus the number of
//! positions of the common prefix at which the tokens differ.

use vstd::prelude::*;
use vstd::utf8::encode_utf8;
use crate::song::{token_of, SongView};

verus! {

/// How many of the first `n` positions hold different bytes in `a` and `b`.
pub open spec fn mismatches(a: Seq<u8>, b: Seq<u8>, n: nat) -> nat
    decreases n,
{
    if n == 0 {
        0
    } else {
        mismatches(a, b, (n - 1) as nat) + if a[n - 1] != b[n - 1] {
            1nat
        } else {
            0nat
        }
    }
}

/// The distance between two tokens: the difference of their lengths plus the
/// number of positions of the shorter one at which the two differ.
pub open spec fn token_distance(a: Seq<u8>, b: Seq<u8>) -> nat {
    if a.len() >= b.len() {
        (a.len() - b.len()) as nat + mismatches(a, b, b.len())
    } else {
        (b.len() - a.len()) as nat + mismatches(a, b, a.len())
    }
}

/// The score of a candidate against a reference: the distance between the
/// UTF-8 bytes of their tokens. Lower is better.
pub open spec fn song_score(reference: SongView, candidate: SongView) -> nat {
    token_distance(encode_utf8(token_of(reference)), encode_utf8(token_of(candidate)))
}

/// No more positions differ than were compared.
pub proof fn lemma_mismatches_bound(a: Seq<u8>, b: Seq<u8>, n: nat)
    ensures
        mismatches(a, b, n) <= n,
    decreases n,
{
    if n > 0 {
        lemma_mismatches_bound(a, b, (n - 1) as nat);
    }
}

/// Counting differing positions does not depend on the order of the two
/// tokens.
pub proof fn lemma_mismatches_symmetric(a: Seq<u8>, b: Seq<u8>, n: nat)
    ensures
        mismatches(a, b, n) == mismatches(b, a, n),
    decreases n,
{
    if n > 0 {
        lemma_mismatches_symmetric(a, b, (n - 1) as nat);
    }
}

/// No position differs exactly when the two tokens agree on all of the first
/// `n` positions.
pub proof fn lemma_mismatches_zero(a: Seq<u8>, b: Seq<u8>, n: nat)
    ensures
        mismatches(a, b, n) == 0 <==> (forall|i: int| 0 <= i < n ==> a[i] == b[i]),
    decreases n,
{
    if n > 0 {
        lemma_mismatches_zero(a, b, (n - 1) as nat);
    }
}

/// The distance is at least the difference of the lengths and never exceeds
/// the length of the longer token.
pub proof fn lemma_token_distance_bounds(a: Seq<u8>, b: Seq<u8>)
    ensures
        a.len() - b.len() <= token_distance(a, b),
        b.len() - a.len() <= token_distance(a, b),
        token_distance(a, b) <= if a.len() >= b.len() { a.len() } else { b.len() },
{
    lemma_mismatches_bound(a, b, a.len());
    lemma_mismatches_bound(a, b, b.len());
}

/// The distance is symmetric.
pub proof fn lemma_token_distance_symmetric(a: Seq<u8>, b: Seq<u8>)
    ensures
        token_distance(a, b) == token_distance(b, a),
{
    lemma_mismatches_symmetric(a, b, a.len());
    lemma_mismatches_symmetric(a, b, b.len());
}

/// The distance is zero exactly between a token and itself.
pub proof fn lemma_token_distance_zero(a: Seq<u8>, b: Seq<u8>)
    ensures
        token_distance(a, b) == 0 <==> a == b,
{
    lemma_mismatches_zero(a, b, a.len());
    lemma_mismatches_zero(a, b, b.len());
    if token_distance(a, b) == 0 {
        assert(a =~= b);
    }
}

/// Scoring two songs does not depend on which of them is the reference.
pub proof fn lemma_song_score_symmetric(first: SongView, second: SongView)
    ensures
        song_score(first, second) == song_score(second, first),
{
    lemma_token_distance_symmetric(
        encode_utf8(token_of(first)),
        encode_utf8(token_of(second)),
    );
}

/// A song scores zero against itself.
pub proof fn lemma_song_score_self(song: SongView)
    ensures
        song_score(song, song) == 0,
{
    lemma_token_distance_zero(encode_utf8(token_of(song)), encode_utf8(token_of(song)));
}

/// A candidate scores zero exactly when its token is that of the reference.
pub proof fn lemma_song_score_zero(reference: SongView, candidate: SongView)
    ensures
        song_score(reference, candidate) == 0 <==> token_of(reference) == token_of(candidate),
{
    let reference_bytes = encode_utf8(token_of(reference));
    let candidate_bytes = encode_utf8(token_of(candidate));
    lemma_token_distance_zero(reference_bytes, candidate_bytes);
    if reference_bytes == candidate_bytes {
        vstd::utf8::encode_utf8_decode_utf8(token_of(reference));
        vstd::utf8::encode_utf8_decode_utf8(token_of(candidate));
    }
}

} // verus!
