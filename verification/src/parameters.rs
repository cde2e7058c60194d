//! Loading parameters: a buffer is accepted where its size and its checksum
//! are those that its metadata names.

use vstd::prelude::*;
use vstd::slice::slice_to_vec;
use vstd::string::{StrSliceExecFns, StringExecFns};
use crate::sha256::{sha256, spec_sha256};

verus! {

/// Why parameters were refused.
#[derive(Clone, PartialEq, Eq, Debug)]
pub enum ParameterError {
    /// The checksum of the buffer is not the expected one: expected, found.
    ChecksumMismatch(String, String),
    /// The size of the buffer is not the expected one: expected, found.
    SizeMismatch(usize, usize),
}

/// The lower-case hexadecimal digit of a number below 16.
pub open spec fn hex_digit(nibble: u8) -> char {
    if nibble < 10 {
        (0x30u8 + nibble) as char
    } else {
        (0x57u8 + nibble) as char
    }
}

/// The lower-case hexadecimal encoding of a byte string: two digits for each
/// byte, the high one first.
pub open spec fn spec_hex_encode(data: Seq<u8>) -> Seq<char> {
    Seq::new(
        2 * data.len(),
        |i: int|
            if i % 2 == 0 {
                hex_digit(data[i / 2] >> 4)
            } else {
                hex_digit(data[i / 2] & 0x0f)
            },
    )
}

/// Calls `hex::encode`, which writes each byte as two lower-case hexadecimal
/// digits, the high one first.
#[verifier::external_body]
pub(crate) fn hex_encode(data: &[u8]) -> (r: String)
    ensures
        r@ == spec_hex_encode(data@),
{
    hex::encode(data)
}

/// The checksum of a byte string: the hexadecimal encoding of its SHA-256 digest.
pub open spec fn spec_checksum(bytes: Seq<u8>) -> Seq<char> {
    spec_hex_encode(spec_sha256(bytes))
}

/// Returns the checksum of a byte string.
pub fn checksum(bytes: &[u8]) -> (r: String)
    ensures
        r@ == spec_checksum(bytes@),
        r@.len() == 64,
{
    let digest = sha256(bytes);
    hex_encode(digest.as_slice())
}

/// Checks a buffer against the size and the checksum that its metadata
/// names, the size first, and gives the bytes of the buffer.
pub fn load_bytes_local(buffer: &[u8], expected_size: usize, expected_checksum: &str) -> (r: Result<
    Vec<u8>,
    ParameterError,
>)
    ensures
        match r {
            Ok(bytes) => expected_size == buffer@.len() && expected_checksum@ == spec_checksum(
                buffer@,
            ) && bytes@ == buffer@,
            Err(ParameterError::SizeMismatch(expected, found)) => expected == expected_size
                && found == buffer@.len() && expected_size != buffer@.len(),
            Err(ParameterError::ChecksumMismatch(expected, found)) => expected_size
                == buffer@.len() && expected@ == expected_checksum@ && found@ == spec_checksum(
                buffer@,
            ) && expected_checksum@ != spec_checksum(buffer@),
        },
{
    // Ensure the size matches.
    if expected_size != buffer.len() {
        return Err(ParameterError::SizeMismatch(expected_size, buffer.len()));
    }
    // Ensure the checksum matches.
    match verify_checksum(buffer, expected_checksum) {
        Ok(()) => Ok(slice_to_vec(buffer)),
        Err(e) => Err(e),
    }
}

/// Checks the checksum of a buffer that was fetched, before it is stored.
pub fn verify_checksum(buffer: &[u8], expected_checksum: &str) -> (r: Result<(), ParameterError>)
    ensures
        match r {
            Ok(()) => expected_checksum@ == spec_checksum(buffer@),
            Err(ParameterError::ChecksumMismatch(expected, found)) => expected@
                == expected_checksum@ && found@ == spec_checksum(buffer@) && expected_checksum@
                != spec_checksum(buffer@),
            Err(_) => false,
        },
{
    let candidate_checksum = checksum(buffer);
    let expected = expected_checksum.to_owned();
    if expected != candidate_checksum {
        return Err(ParameterError::ChecksumMismatch(expected, candidate_checksum));
    }
    Ok(())
}

/// The name of a parameter file with the version that its checksum gives:
/// the name, a dot, and the first seven characters of the checksum; the name
/// alone where the checksum is shorter or not ASCII.
pub open spec fn spec_versioned_filename(filename: Seq<char>, checksum: Seq<char>) -> Seq<char> {
    if checksum.len() >= 7 && vstd::utf8::is_ascii_chars(checksum) {
        filename + seq!['.'] + checksum.subrange(0, 7)
    } else {
        filename
    }
}

/// Returns the name of a parameter file with the version that its checksum gives.
pub fn versioned_filename(filename: &str, checksum: &str) -> (r: String)
    ensures
        r@ == spec_versioned_filename(filename@, checksum@),
{
    if checksum.is_ascii() && checksum.unicode_len() >= 7 {
        let sum = checksum.substring_ascii(0, 7);
        proof {
            reveal_strlit(".");
        }
        let name = filename.to_owned().concat(".").concat(sum);
        assert(name@ =~= filename@ + seq!['.'] + checksum@.subrange(0, 7));
        name
    } else {
        filename.to_owned()
    }
}

} // verus!
