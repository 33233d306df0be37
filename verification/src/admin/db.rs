//! Content hashing of cards and glossary entries.

use vstd::prelude::*;
use sha2::Digest;

verus! {

/// The SHA-256 digest of the UTF-8 bytes of a text, written in lower-case
/// hexadecimal.
pub uninterp spec fn sha256_hex(text: Seq<char>) -> Seq<char>;

/// A lower-case hexadecimal digit.
pub open spec fn is_hex_digit(c: char) -> bool {
    ('0' <= c && c <= '9') || ('a' <= c && c <= 'f')
}

/// The content hash of a text: wraps `sha2::Sha256` (update with the text's
/// bytes, then finalize) and formats the 32-byte digest with `{:x}`, which
/// `generic_array` writes as two lower-case hexadecimal digits per byte. The
/// digest itself is named, not restated.
#[verifier::external_body]
pub fn compute_hash(content: &str) -> (r: String)
    ensures
        r@ == sha256_hex(content@),
        r@.len() == 64,
        forall|i: int| 0 <= i < 64 ==> is_hex_digit(#[trigger] r@[i]),
{
    let mut hasher = sha2::Sha256::new();
    hasher.update(content.as_bytes());
    format!("{:x}", hasher.finalize())
}

} // verus!
