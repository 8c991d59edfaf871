//! Content digests.

use crate::text::{hex_of, hex_text};
use sha2::{Digest, Sha256};
use vstd::prelude::*;

verus! {

/// The SHA-256 digest of some bytes.
pub uninterp spec fn sha256(bytes: Seq<u8>) -> Seq<u8>;

/// `sha2::Sha256::digest` computes the SHA-256 digest of the bytes. The contract
/// claims that the outcome is a function of the bytes and has 32 of them.
#[verifier::external_body]
fn sha256_digest(bytes: &[u8]) -> (result: Vec<u8>)
    ensures
        result@ == sha256(bytes@),
        result@.len() == 32,
{
    Sha256::digest(bytes).to_vec()
}

/// The SHA-256 digest in lower-case hexadecimal.
pub fn sha256_hex(bytes: &[u8]) -> (result: String)
    ensures
        result@ == hex_of(sha256(bytes@)),
        sha256(bytes@).len() == 32,
{
    let digest = sha256_digest(bytes);
    hex_text(&digest)
}

} // verus!
