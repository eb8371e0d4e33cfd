//! Content addressing with BLAKE3.
use vstd::prelude::*;

verus! {

/// The BLAKE3 digest of `bytes`, written as lowercase hexadecimal.
pub uninterp spec fn blake3_hex_of(bytes: Seq<u8>) -> Seq<char>;

/// `c` is a lowercase hexadecimal digit.
pub open spec fn is_lower_hex(c: char) -> bool {
    ('0' <= c && c <= '9') || ('a' <= c && c <= 'f')
}

/// The BLAKE3 digest of `bytes` in lowercase hexadecimal.
/// Trusted: calls `blake3::hash(bytes).to_hex().to_string()`. The result is the named
/// digest of the bytes; blake3's `to_hex` writes two characters from
/// "0123456789abcdef" for each of the 32 digest bytes, so it has 64 such characters.
#[verifier::external_body]
pub(crate) fn blake3_hex(bytes: &[u8]) -> (r: String)
    ensures
        r@ == blake3_hex_of(bytes@),
        r@.len() == 64,
        forall|i: int| 0 <= i < r@.len() ==> is_lower_hex(#[trigger] r@[i]),
{
    blake3::hash(bytes).to_hex().to_string()
}

} // verus!
