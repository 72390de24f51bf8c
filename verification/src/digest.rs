//! SHA-256 digests in hexadecimal.

use crate::text::{bytes_to_hex, char_is_hex, chars_of, hex_text, is_hex, lemma_hex_text};
use sha2::{Digest, Sha256};
use vstd::prelude::*;

verus! {

/// The SHA-256 digest of bytes.
pub uninterp spec fn sha256_digest(bytes: Seq<u8>) -> Seq<u8>;

/// `Sha256::digest` of the crate `sha2`: the digest of the bytes, which has 32 bytes.
#[verifier::external_body]
fn digest_of(bytes: &[u8]) -> (r: Vec<u8>)
    ensures
        r@ == sha256_digest(bytes@),
        r@.len() == 32,
{
    Sha256::digest(bytes).to_vec()
}

/// The digest of bytes in hexadecimal.
pub fn sha256_hex(bytes: &[u8]) -> (r: String)
    ensures
        r@ == hex_text(sha256_digest(bytes@)),
        is_hash_text(r@),
{
    let digest = digest_of(bytes);
    proof {
        lemma_hex_text(digest@);
    }
    bytes_to_hex(&digest)
}

/// A text that can be the digest in hexadecimal.
pub open spec fn is_hash_text(s: Seq<char>) -> bool {
    s.len() == 64 && forall|i: int| 0 <= i < s.len() ==> is_hex(#[trigger] s[i])
}

pub fn looks_like_hash(s: &str) -> (r: bool)
    ensures
        r == is_hash_text(s@),
{
    let v = chars_of(s);
    if v.len() != 64 {
        return false;
    }
    let mut i: usize = 0;
    while i < v.len()
        invariant
            i <= v@.len(),
            v@ == s@,
            forall|k: int| 0 <= k < i ==> is_hex(#[trigger] s@[k]),
        decreases v@.len() - i,
    {
        if !char_is_hex(v[i]) {
            return false;
        }
        i += 1;
    }
    true
}

} // verus!
