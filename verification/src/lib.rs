//! A small interoperability shim after the traditional UNIX crypt(3)
//! dispatch: the leading magic marker of a salt selects a digest
//! algorithm, the password is hashed with that algorithm's primitive, and
//! the result is laid out as the salt, a dollar separator, and the raw
//! digest bytes.
//!
//! Only the selection and encoding layer lives here; the MD5, SHA-256 and
//! SHA-512 computations are delegated to outside libraries. The output is
//! deliberately literal: no salt mixing, rounds or base64-style alphabet,
//! so it is not wire-compatible with a system crypt(3).

use vstd::prelude::*;

pub mod digest;
pub mod registry;

use crate::digest::{
    md5_digest, md5_of, sha256_digest, sha256_of, sha512_digest, sha512_of, spec_encode, Encrypted,
};
use crate::registry::{resolve_index, spec_resolve};

pub use crate::registry::format_from_magic;

verus! {

/// Why a call to `crypt` could not produce a digest.
#[derive(Clone, Copy, Debug, PartialEq, Eq, Structural)]
pub enum CryptError {
    /// No registry marker matched the salt.
    NoAlgorithmFound,
    /// A marker matched, but no hash primitive is wired up for that entry.
    UnsupportedAlgorithm,
}

/// The digest the dispatcher produces for registry entry `i`, if a
/// primitive is wired up for it. The md5, sha256 and sha512 entries are
/// wired up; blf, nth and des are registered for resolution only.
pub open spec fn spec_digest(i: int, password: Seq<u8>) -> Option<Seq<u8>> {
    if i == 0 {
        Some(md5_of(password))
    } else if i == 3 {
        Some(sha256_of(password))
    } else if i == 4 {
        Some(sha512_of(password))
    } else {
        None
    }
}

/// Whether the salt selects one of the SHA entries, whose primitive
/// counts the input's bit length in a 64-bit counter.
pub open spec fn selects_sha(salt: Seq<u8>) -> bool {
    spec_resolve(salt) == Some(3int) || spec_resolve(salt) == Some(4int)
}

/// What `crypt` returns: the encoded digest of the entry the salt
/// resolves to, or the error that names how the pipeline stopped.
pub open spec fn spec_crypt(password: Seq<u8>, salt: Seq<u8>) -> Result<Seq<u8>, CryptError> {
    match spec_resolve(salt) {
        None => Err(CryptError::NoAlgorithmFound),
        Some(i) => match spec_digest(i, password) {
            None => Err(CryptError::UnsupportedAlgorithm),
            Some(d) => Ok(spec_encode(salt, d)),
        },
    }
}

/// Invoke the hash primitive wired up for registry entry `index` and
/// encode its digest behind the salt.
fn delegate(index: usize, password: &[u8], salt: &[u8]) -> (r: Result<Vec<u8>, CryptError>)
    requires
        index < 6,
        (index == 3 || index == 4) ==> password@.len() * 8 <= u64::MAX,
    ensures
        (match (r, spec_digest(index as int, password@)) {
            (Ok(out), Some(d)) => out@ == spec_encode(salt@, d),
            (Err(e), None) => e == CryptError::UnsupportedAlgorithm,
            _ => false,
        }),
{
    if index == 0 {
        let digest = Encrypted::Md5(md5_digest(password));
        Ok(digest.fill(salt))
    } else if index == 3 {
        let digest = Encrypted::Sha256(sha256_digest(password));
        Ok(digest.fill(salt))
    } else if index == 4 {
        let digest = Encrypted::Sha512(sha512_digest(password));
        Ok(digest.fill(salt))
    } else {
        Err(CryptError::UnsupportedAlgorithm)
    }
}

/// Hash `password` with the algorithm selected by the salt's magic marker
/// and return the salt, a dollar separator, and the raw digest bytes; or
/// the error naming why no digest could be produced.
pub fn crypt(password: &[u8], salt: &[u8]) -> (r: Result<Vec<u8>, CryptError>)
    requires
        selects_sha(salt@) ==> password@.len() * 8 <= u64::MAX,
    ensures
        (match (r, spec_crypt(password@, salt@)) {
            (Ok(out), Ok(d)) => out@ == d,
            (Err(e), Err(se)) => e == se,
            _ => false,
        }),
{
    match resolve_index(salt) {
        Some(i) => delegate(i, password, salt),
        None => Err(CryptError::NoAlgorithmFound),
    }
}

/// The outcome of `crypt` is a function of the password and the salt
/// alone: two results its contract admits for the same inputs are equal,
/// so calling it twice with identical inputs yields identical output.
pub proof fn lemma_crypt_deterministic(
    password: Seq<u8>,
    salt: Seq<u8>,
    r1: Result<Seq<u8>, CryptError>,
    r2: Result<Seq<u8>, CryptError>,
)
    requires
        r1 == spec_crypt(password, salt),
        r2 == spec_crypt(password, salt),
    ensures
        r1 == r2,
{
}

/// Every successful output begins with the exact input salt bytes,
/// followed by a single ASCII dollar separator.
pub proof fn lemma_output_begins_with_salt(password: Seq<u8>, salt: Seq<u8>)
    requires
        spec_crypt(password, salt) is Ok,
    ensures
        spec_crypt(password, salt)->Ok_0.len() > salt.len(),
        spec_crypt(password, salt)->Ok_0.subrange(0, salt.len() as int) == salt,
        spec_crypt(password, salt)->Ok_0[salt.len() as int] == 0x24u8,
{
    let out = spec_crypt(password, salt)->Ok_0;
    assert(out.subrange(0, salt.len() as int) =~= salt);
}

} // verus!
