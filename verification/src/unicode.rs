//! The Unicode properties of a character that the library relies on.

use vstd::prelude::*;

verus! {

/// Whether `c` is a Unicode letter or digit, as `char::is_alphanumeric` decides it.
pub uninterp spec fn char_is_alphanumeric(c: char) -> bool;

/// The lowercase mapping of `c`: the characters that `char::to_lowercase`
/// yields, in order.
pub uninterp spec fn char_lowercase(c: char) -> Seq<char>;

/// Whether `c` is white space, as the Unicode property `White_Space` has it:
/// what `char::is_whitespace` decides and `str::trim` removes.
pub uninterp spec fn char_is_whitespace(c: char) -> bool;

/// `char::is_alphanumeric`. The answer depends on the character alone and is
/// known to proofs only by its name.
pub assume_specification[ char::is_alphanumeric ](c: char) -> (b: bool)
    ensures
        b == char_is_alphanumeric(c),
;

/// Calls `char::to_lowercase` and collects what it yields into a string. The
/// mapping depends on the character alone (it is not tailored to a language)
/// and is known to proofs only by its name.
#[verifier::external_body]
pub(crate) fn lowercase(c: char) -> (lower: String)
    ensures
        lower@ == char_lowercase(c),
{
    c.to_lowercase().to_string()
}

} // verus!
