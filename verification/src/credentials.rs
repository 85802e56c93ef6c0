//! Salted password digests and their comparison.

use sha3::{Digest, Sha3_256};
use vstd::prelude::*;

verus! {

/// The SHA3-256 digest of a byte string, as the `sha3` crate computes it.
pub uninterp spec fn sha3_256(data: Seq<u8>) -> Seq<u8>;

/// Width of a SHA3-256 digest in bytes.
pub const DIGEST_LENGTH: usize = 32;

/// The digest stored for a password: SHA3-256 over the password's bytes
/// followed by the salt's bytes.
pub open spec fn password_digest(password: Seq<u8>, salt: Seq<u8>) -> Seq<u8> {
    sha3_256(password + salt)
}

/// Whether `expected` is the digest of `password` under `salt`.
pub open spec fn digest_matches(password: Seq<u8>, salt: Seq<u8>, expected: Seq<u8>) -> bool {
    password_digest(password, salt) == expected
}

/// Calls `sha3::Sha3_256` (`new`, `update`, `finalize`) on `data`.
/// Trusted: the bytes returned are the SHA3-256 digest of `data`, which the
/// crate fixes at 32 bytes.
#[verifier::external_body]
fn sha3_256_of(data: &[u8]) -> (digest: Vec<u8>)
    ensures
        digest@ == sha3_256(data@),
        digest@.len() == DIGEST_LENGTH,
{
    let mut hasher = Sha3_256::new();
    hasher.update(data);
    hasher.finalize().to_vec()
}

/// Gets the salted password's SHA3-256 hash.
pub fn hash_password(user_password: &[u8], user_salt: &[u8]) -> (digest: Vec<u8>)
    ensures
        digest@ == password_digest(user_password@, user_salt@),
        digest@.len() == DIGEST_LENGTH,
{
    let mut salted: Vec<u8> = Vec::new();
    salted.extend_from_slice(user_password);
    salted.extend_from_slice(user_salt);
    assert(salted@ =~= user_password@ + user_salt@);
    sha3_256_of(salted.as_slice())
}

/// Whether two byte strings are the same, byte for byte.
pub fn same_bytes(left: &[u8], right: &[u8]) -> (same: bool)
    ensures
        same == (left@ == right@),
{
    if left.len() != right.len() {
        return false;
    }
    let mut i: usize = 0;
    while i < left.len()
        invariant
            i <= left.len(),
            left.len() == right.len(),
            forall|j: int| 0 <= j < i ==> left@[j] == right@[j],
        decreases left.len() - i,
    {
        if left[i] != right[i] {
            return false;
        }
        i += 1;
    }
    assert(left@ =~= right@);
    true
}

/// Checks the password is correct: its salted digest is byte for byte the
/// stored one.
pub fn hashes_eq(user_password: &[u8], salt_from_db: &[u8], hash_from_db: &[u8]) -> (same: bool)
    ensures
        same == digest_matches(user_password@, salt_from_db@, hash_from_db@),
{
    let digest = hash_password(user_password, salt_from_db);
    same_bytes(digest.as_slice(), hash_from_db)
}

/// A password is accepted against its own digest, and another password is
/// accepted against that digest exactly when SHA3-256 maps both salted
/// passwords to the same bytes.
pub proof fn lemma_digest_matches_own(password: Seq<u8>, other: Seq<u8>, salt: Seq<u8>)
    ensures
        digest_matches(password, salt, password_digest(password, salt)),
        digest_matches(other, salt, password_digest(password, salt)) <==> sha3_256(other + salt)
            == sha3_256(password + salt),
{
}

} // verus!
