//! The digest primitives behind the dispatcher, and the encoding of a raw
//! digest into the final output bytes.
//!
//! The hash computations themselves are delegated to outside libraries;
//! each is reached through one wrapper whose contract names its result.

use vstd::prelude::*;
use vstd::slice::slice_to_vec;

verus! {

/// The MD5 digest of a byte sequence: 16 bytes, a function of the input
/// bytes alone.
pub uninterp spec fn md5_of(data: Seq<u8>) -> Seq<u8>;

/// The SHA-256 digest of a byte sequence: 32 bytes, a function of the
/// input bytes alone.
pub uninterp spec fn sha256_of(data: Seq<u8>) -> Seq<u8>;

/// The SHA-512 digest of a byte sequence: 64 bytes, a function of the
/// input bytes alone.
pub uninterp spec fn sha512_of(data: Seq<u8>) -> Seq<u8>;

/// Relies on md5::compute: it returns the 16-byte MD5 digest of the input,
/// a pure function of those bytes.
#[verifier::external_body]
pub(crate) fn md5_digest(data: &[u8]) -> (r: Vec<u8>)
    ensures
        r@ == md5_of(data@),
        r@.len() == 16,
{
    md5::compute(data).to_vec()
}

/// Relies on ring::digest::digest with the SHA256 algorithm: it returns
/// the 32-byte SHA-256 digest of the input, a pure function of those
/// bytes. ring counts the input's length in bits in a 64-bit counter and
/// aborts when it overflows, so such inputs are excluded.
#[verifier::external_body]
pub(crate) fn sha256_digest(data: &[u8]) -> (r: Vec<u8>)
    requires
        data@.len() * 8 <= u64::MAX,
    ensures
        r@ == sha256_of(data@),
        r@.len() == 32,
{
    ring::digest::digest(&ring::digest::SHA256, data).as_ref().to_vec()
}

/// Relies on ring::digest::digest with the SHA512 algorithm: it returns
/// the 64-byte SHA-512 digest of the input, a pure function of those
/// bytes. ring counts the input's length in bits in a 64-bit counter and
/// aborts when it overflows, so such inputs are excluded.
#[verifier::external_body]
pub(crate) fn sha512_digest(data: &[u8]) -> (r: Vec<u8>)
    requires
        data@.len() * 8 <= u64::MAX,
    ensures
        r@ == sha512_of(data@),
        r@.len() == 64,
{
    ring::digest::digest(&ring::digest::SHA512, data).as_ref().to_vec()
}

/// A raw digest, tagged with the algorithm that produced it.
pub enum Encrypted {
    Md5(Vec<u8>),
    Sha256(Vec<u8>),
    Sha512(Vec<u8>),
}

/// The final output bytes: the salt, one ASCII dollar separator (0x24),
/// then the raw digest bytes.
pub open spec fn spec_encode(salt: Seq<u8>, digest: Seq<u8>) -> Seq<u8> {
    salt + seq![0x24u8] + digest
}

impl Encrypted {
    /// The raw digest bytes this value carries.
    pub open spec fn digest_bytes(self) -> Seq<u8> {
        match self {
            Encrypted::Md5(d) => d@,
            Encrypted::Sha256(d) => d@,
            Encrypted::Sha512(d) => d@,
        }
    }

    /// Lay the salt, a dollar separator and the raw digest bytes end to
    /// end.
    pub fn fill(&self, salt: &[u8]) -> (out: Vec<u8>)
        ensures
            out@ == spec_encode(salt@, self.digest_bytes()),
    {
        let mut output = slice_to_vec(salt);
        output.push(0x24);
        let digest: &Vec<u8> = match self {
            Encrypted::Md5(d) => d,
            Encrypted::Sha256(d) => d,
            Encrypted::Sha512(d) => d,
        };
        proof {
            assert(output@ =~= salt@ + seq![0x24u8] + digest@.subrange(0, 0));
        }
        let mut k: usize = 0;
        while k < digest.len()
            invariant
                k <= digest@.len(),
                digest@ == self.digest_bytes(),
                output@ == salt@ + seq![0x24u8] + digest@.subrange(0, k as int),
            decreases digest@.len() - k,
        {
            output.push(digest[k]);
            proof {
                assert(digest@.subrange(0, k + 1) =~= digest@.subrange(0, k as int).push(
                    digest@[k as int],
                ));
                assert(output@ =~= salt@ + seq![0x24u8] + digest@.subrange(0, k + 1));
            }
            k += 1;
        }
        proof {
            assert(digest@.subrange(0, digest@.len() as int) =~= digest@);
        }
        output
    }
}

} // verus!
