//! MD5 digests and their hexadecimal text.

use vstd::prelude::*;

verus! {

/// The MD5 digest of `data`: the sixteen bytes that `md5::compute` returns
/// for it.
pub uninterp spec fn md5_digest(data: Seq<u8>) -> Seq<u8>;

/// The lowercase hexadecimal digit for a value below sixteen.
pub open spec fn hex_digit(nibble: int) -> char {
    seq!['0', '1', '2', '3', '4', '5', '6', '7', '8', '9', 'a', 'b', 'c', 'd', 'e', 'f'][nibble]
}

/// Two lowercase hexadecimal digits per byte, the high half first.
pub open spec fn lower_hex(bytes: Seq<u8>) -> Seq<char> {
    Seq::new(
        2 * bytes.len(),
        |i: int|
            if i % 2 == 0 {
                hex_digit(bytes[i / 2] as int / 16)
            } else {
                hex_digit(bytes[i / 2] as int % 16)
            },
    )
}

/// Whether `c` is one of the sixteen lowercase hexadecimal digits.
pub open spec fn is_lower_hex_digit(c: char) -> bool {
    exists|nibble: int| 0 <= nibble < 16 && c == #[trigger] hex_digit(nibble)
}

/// Every character of a hexadecimal text is a hexadecimal digit, and there
/// are two of them for each byte.
pub proof fn lemma_lower_hex_shape(bytes: Seq<u8>)
    ensures
        lower_hex(bytes).len() == 2 * bytes.len(),
        forall|i: int| 0 <= i < 2 * bytes.len() ==> is_lower_hex_digit(#[trigger] lower_hex(bytes)[i]),
{
    assert forall|i: int| 0 <= i < 2 * bytes.len() implies is_lower_hex_digit(
        #[trigger] lower_hex(bytes)[i],
    ) by {
        let byte = bytes[i / 2] as int;
        if i % 2 == 0 {
            assert(lower_hex(bytes)[i] == hex_digit(byte / 16));
        } else {
            assert(lower_hex(bytes)[i] == hex_digit(byte % 16));
        }
    }
}

/// Calls `md5::compute` and takes the sixteen bytes out of the digest. MD5 is
/// a function of the data alone; proofs know the digest only by its name.
#[verifier::external_body]
pub(crate) fn md5_of(data: &[u8]) -> (digest: [u8; 16])
    ensures
        digest@ == md5_digest(data@),
{
    md5::compute(data).0
}

/// Formats an `md5::Digest` holding these bytes with `{:x}`, which writes each
/// byte in turn as two lowercase hexadecimal digits, padded with a zero.
#[verifier::external_body]
pub(crate) fn digest_hex(digest: &[u8; 16]) -> (hex: String)
    ensures
        hex@ == lower_hex(digest@),
{
    format!("{:x}", md5::Digest(*digest))
}

} // verus!
