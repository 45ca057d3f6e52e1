//! Miscellaneous helpers: hashing.

use vstd::prelude::*;

verus! {

/// The lowercase hexadecimal SHA-256 digest of a character sequence: a
/// fixed function of the input alone.
pub uninterp spec fn sha256_hex_of(s: Seq<char>) -> Seq<char>;

/// Relies on sha2's `Sha256` (`update` then `finalize`) and lowercase hex
/// formatting: the digest depends on the input bytes alone, and SHA-256
/// yields 32 bytes, so 64 hexadecimal characters.
#[verifier::external_body]
pub fn hash_string(input: &str) -> (r: String)
    ensures
        r@ == sha256_hex_of(input@),
        r@.len() == 64,
{
    let mut hasher = <sha2::Sha256 as sha2::Digest>::new();
    sha2::Digest::update(&mut hasher, input.as_bytes());
    let digest = sha2::Digest::finalize(hasher);
    digest.iter().map(|b| format!("{:02x}", b)).collect::<std::string::String>()
}

} // verus!
