//! SHA-256, computed by the `sha2` crate.

use vstd::prelude::*;
use vstd::bytes::{spec_u64_from_le_bytes, u64_from_le_bytes};
use vstd::slice::slice_subrange;
use sha2::Digest;

verus! {

/// The SHA-256 digest of a byte string.
pub uninterp spec fn spec_sha256(data: Seq<u8>) -> Seq<u8>;

/// Calls `sha2::Sha256::digest`. The contract names the digest, which is a
/// function of the data alone, and says that it has 32 bytes; nothing else
/// is claimed of it.
#[verifier::external_body]
pub(crate) fn sha256(data: &[u8]) -> (r: Vec<u8>)
    ensures
        r@ == spec_sha256(data@),
        r@.len() == 32,
{
    sha2::Sha256::digest(data).to_vec()
}

/// The first eight bytes of the SHA-256 digest of the SHA-256 digest of the
/// data, read as a little-endian integer.
pub open spec fn spec_sha256d_to_u64(data: Seq<u8>) -> u64 {
    spec_u64_from_le_bytes(spec_sha256(spec_sha256(data)).subrange(0, 8))
}

/// Hashes the data twice with SHA-256 and reads the first eight bytes of the
/// digest as a little-endian integer.
pub fn sha256d_to_u64(data: &[u8]) -> (r: u64)
    ensures
        r == spec_sha256d_to_u64(data@),
{
    let first = sha256(data);
    let second = sha256(first.as_slice());
    u64_from_le_bytes(slice_subrange(second.as_slice(), 0, 8))
}

} // verus!
