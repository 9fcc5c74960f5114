//! Lines, prefixes, trimming and lossy decoding of text.

use vstd::prelude::*;
use vstd::string::*;
use vstd::utf8::{decode_utf8, valid_utf8};
use crate::unicode::char_is_whitespace;

verus! {

/// The text without its leading white space.
pub open spec fn trimmed_start(text: Seq<char>) -> Seq<char>
    decreases text.len(),
{
    if text.len() > 0 && char_is_whitespace(text.first()) {
        trimmed_start(text.drop_first())
    } else {
        text
    }
}

/// The text without its trailing white space.
pub open spec fn trimmed_end(text: Seq<char>) -> Seq<char>
    decreases text.len(),
{
    if text.len() > 0 && char_is_whitespace(text.last()) {
        trimmed_end(text.drop_last())
    } else {
        text
    }
}

/// The text without its leading and trailing white space.
pub open spec fn trimmed(text: Seq<char>) -> Seq<char> {
    trimmed_end(trimmed_start(text))
}

/// The text without the `mark`s at its end.
pub open spec fn without_trailing(text: Seq<char>, mark: char) -> Seq<char>
    decreases text.len(),
{
    if text.len() > 0 && text.last() == mark {
        without_trailing(text.drop_last(), mark)
    } else {
        text
    }
}

/// The position just after the first line feed of the text, or its length if
/// it holds none.
pub open spec fn first_line_end(text: Seq<char>) -> int
    decreases text.len(),
{
    if text.len() == 0 {
        0
    } else if text.first() == '\n' {
        1
    } else {
        1 + first_line_end(text.drop_first())
    }
}

/// A line without its ending: a line feed at its end is dropped, and with it
/// a carriage return that stands directly before.
pub open spec fn without_line_ending(line: Seq<char>) -> Seq<char> {
    if line.len() > 0 && line.last() == '\n' {
        let body = line.drop_last();
        if body.len() > 0 && body.last() == '\r' {
            body.drop_last()
        } else {
            body
        }
    } else {
        line
    }
}

/// The lines of a text. Each line ends with a line feed, the last one
/// possibly without; the endings are not part of the lines.
pub open spec fn text_lines(text: Seq<char>) -> Seq<Seq<char>>
    decreases text.len(),
{
    if text.len() == 0 {
        Seq::empty()
    } else {
        proof {
            lemma_first_line_end(text);
        }
        let end = first_line_end(text);
        seq![without_line_ending(text.take(end))] + text_lines(text.skip(end))
    }
}

/// The first line of a text that is not empty holds at least one character
/// and ends within the text.
pub proof fn lemma_first_line_end(text: Seq<char>)
    ensures
        0 <= first_line_end(text) <= text.len(),
        text.len() > 0 ==> first_line_end(text) >= 1,
    decreases text.len(),
{
    if text.len() > 0 && text.first() != '\n' {
        lemma_first_line_end(text.drop_first());
    }
}

/// The characters before the first `mark`, or all of them if there is none.
pub open spec fn before_first(text: Seq<char>, mark: char) -> Seq<char>
    decreases text.len(),
{
    if text.len() == 0 || text.first() == mark {
        Seq::empty()
    } else {
        seq![text.first()] + before_first(text.drop_first(), mark)
    }
}

/// The characters after the last `mark`, or all of them if there is none.
pub open spec fn after_last(text: Seq<char>, mark: char) -> Seq<char>
    decreases text.len(),
{
    if text.len() == 0 || text.last() == mark {
        Seq::empty()
    } else {
        after_last(text.drop_last(), mark).push(text.last())
    }
}

/// The characters after the first `mark`; nothing if there is none.
pub open spec fn after_first(text: Seq<char>, mark: char) -> Seq<char> {
    text.skip(before_first(text, mark).len() as int + 1)
}

/// The characters before the last `mark`; nothing if there is none.
pub open spec fn before_last(text: Seq<char>, mark: char) -> Seq<char> {
    text.take(text.len() - after_last(text, mark).len() - 1)
}

/// A text cut at a `mark` that none of the characters before it equals is
/// cut at its first `mark`.
pub proof fn lemma_cut_at_first(head: Seq<char>, mark: char, tail: Seq<char>)
    requires
        !head.contains(mark),
    ensures
        before_first(head + seq![mark] + tail, mark) == head,
        after_first(head + seq![mark] + tail, mark) == tail,
    decreases head.len(),
{
    let text = head + seq![mark] + tail;
    if head.len() == 0 {
        assert(text.first() == mark);
        assert(before_first(text, mark) =~= head);
    } else {
        assert(head.contains(head.first()));
        assert(text.first() == head.first());
        let rest = head.drop_first();
        assert forall|c: char| rest.contains(c) implies head.contains(c) by {
            let i = choose|i: int| 0 <= i < rest.len() && rest[i] == c;
            assert(head[i + 1] == c);
        }
        lemma_cut_at_first(rest, mark, tail);
        assert(text.drop_first() =~= rest + seq![mark] + tail);
        assert(before_first(text, mark) =~= head);
    }
    assert(text.skip(head.len() as int + 1) =~= tail);
}

/// A text cut at a `mark` that none of the characters after it equals is
/// cut at its last `mark`.
pub proof fn lemma_cut_at_last(head: Seq<char>, mark: char, tail: Seq<char>)
    requires
        !tail.contains(mark),
    ensures
        after_last(head + seq![mark] + tail, mark) == tail,
        before_last(head + seq![mark] + tail, mark) == head,
    decreases tail.len(),
{
    let text = head + seq![mark] + tail;
    if tail.len() == 0 {
        assert(text.last() == mark);
        assert(after_last(text, mark) =~= tail);
    } else {
        assert(tail.contains(tail.last()));
        assert(text.last() == tail.last());
        let rest = tail.drop_last();
        assert forall|c: char| rest.contains(c) implies tail.contains(c) by {
            let i = choose|i: int| 0 <= i < rest.len() && rest[i] == c;
            assert(tail[i] == c);
        }
        lemma_cut_at_last(head, mark, rest);
        assert(text.drop_last() =~= head + seq![mark] + rest);
        assert(after_last(text, mark) =~= tail);
    }
    assert(text.take(text.len() - tail.len() - 1) =~= head);
}

/// The string slices of a vector as sequences of characters.
pub open spec fn line_views(lines: Seq<&str>) -> Seq<Seq<char>> {
    lines.map_values(|line: &str| line@)
}

/// The text that `String::from_utf8_lossy` makes of these bytes.
pub uninterp spec fn utf8_lossy_text(bytes: Seq<u8>) -> Seq<char>;

/// The lowercase form that `str::to_lowercase` gives of a text.
pub uninterp spec fn text_lowercase(text: Seq<char>) -> Seq<char>;

/// `str::trim`: the slice without leading and trailing white space, white
/// space being what the Unicode property `White_Space` covers. What is left
/// neither starts nor ends with white space.
pub assume_specification[ str::trim ](text: &str) -> (inner: &str)
    ensures
        inner@ == trimmed(text@),
        inner@.len() > 0 ==> !char_is_whitespace(inner@.first()) && !char_is_whitespace(
            inner@.last(),
        ),
;

/// Collects what `str::lines` yields. Lines end at a line feed or at a
/// carriage return directly followed by a line feed; the ending is not part
/// of the line, and the last line needs none.
#[verifier::external_body]
pub(crate) fn lines_of<'a>(text: &'a str) -> (lines: Vec<&'a str>)
    ensures
        line_views(lines@) == text_lines(text@),
{
    text.lines().collect()
}

/// `str::strip_prefix` with a string as the pattern: the rest of the line
/// after the prefix if the line starts with it, nothing otherwise.
#[verifier::external_body]
pub(crate) fn strip_prefix<'a>(line: &'a str, prefix: &str) -> (rest: Option<&'a str>)
    ensures
        rest is Some <==> prefix@.is_prefix_of(line@),
        rest matches Some(tail) ==> tail@ == line@.skip(prefix@.len() as int),
{
    line.strip_prefix(prefix)
}

/// `str::split_once` with a character as the delimiter: the text before and
/// after the first occurrence of the delimiter, or nothing if the text does
/// not hold it.
#[verifier::external_body]
pub(crate) fn split_once<'a>(text: &'a str, delimiter: char) -> (parts: Option<(&'a str, &'a str)>)
    ensures
        parts is Some <==> text@.contains(delimiter),
        parts matches Some((head, tail)) ==> !head@.contains(delimiter) && text@ == head@
            + seq![delimiter] + tail@,
{
    text.split_once(delimiter)
}

/// `str::rsplit_once` with a character as the delimiter: the text before and
/// after the last occurrence of the delimiter, or nothing if the text does
/// not hold it.
#[verifier::external_body]
pub(crate) fn rsplit_once<'a>(text: &'a str, delimiter: char) -> (parts: Option<(&'a str, &'a str)>)
    ensures
        parts is Some <==> text@.contains(delimiter),
        parts matches Some((head, tail)) ==> !tail@.contains(delimiter) && text@ == head@
            + seq![delimiter] + tail@,
{
    text.rsplit_once(delimiter)
}

/// `str::trim_end_matches` with a character as the pattern: the slice
/// without the occurrences of the character at its end, however many.
#[verifier::external_body]
pub(crate) fn trim_end_matches<'a>(text: &'a str, mark: char) -> (inner: &'a str)
    ensures
        inner@ == without_trailing(text@, mark),
{
    text.trim_end_matches(mark)
}

/// `str::to_lowercase`. The lowercase form depends on the text alone (it is
/// not tailored to a language) and is known to proofs only by its name.
pub assume_specification[ str::to_lowercase ](text: &str) -> (lower: String)
    ensures
        lower@ == text_lowercase(text@),
;

/// `String::from_utf8_lossy`, as an owned string. Bytes that are valid UTF-8
/// are decoded as they are; what is made of other bytes is known to proofs
/// only by its name.
#[verifier::external_body]
pub(crate) fn utf8_lossy(bytes: &[u8]) -> (text: String)
    ensures
        text@ == utf8_lossy_text(bytes@),
        valid_utf8(bytes@) ==> text@ == decode_utf8(bytes@),
{
    String::from_utf8_lossy(bytes).into_owned()
}

} // verus!
