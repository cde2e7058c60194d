//! Checksums of parameters, the names of their files, and proof targets.

use snarkvm_core::coinbase_puzzle::engine::{G1Affine, KZGCommitment};
use snarkvm_core::coinbase_puzzle::helpers::PartialSolution;
use snarkvm_core::field::{Address, Field, Group};
use snarkvm_core::package::{DeployRequest, DeployResponse, Deployment, Package};
use snarkvm_core::parameters::{
    checksum, load_bytes_local, verify_checksum, versioned_filename, ParameterError,
};
use snarkvm_core::program::{Identifier, ProgramID};
use snarkvm_core::sha256::sha256d_to_u64;

const EMPTY: &str = "e3b0c44298fc1c149afbf4c8996fb92427ae41e4649b934ca495991b7852b855";
const ABC: &str = "ba7816bf8f01cfea414140de5dae2223b00361a396177a9cb410ff61f20015ad";

#[test]
fn the_checksum_is_the_sha256_digest_in_hexadecimal() {
    assert_eq!(checksum(b""), EMPTY);
    assert_eq!(checksum(b"abc"), ABC);
}

#[test]
fn a_buffer_is_checked_against_its_size_and_checksum() {
    assert_eq!(load_bytes_local(b"abc", 3, ABC), Ok(b"abc".to_vec()));
    assert_eq!(load_bytes_local(b"abc", 4, ABC), Err(ParameterError::SizeMismatch(4, 3)));
    // The size is checked first.
    assert_eq!(load_bytes_local(b"abc", 0, EMPTY), Err(ParameterError::SizeMismatch(0, 3)));
    assert_eq!(
        load_bytes_local(b"abd", 3, ABC),
        Err(ParameterError::ChecksumMismatch(ABC.to_string(), checksum(b"abd")))
    );
    assert_eq!(verify_checksum(b"", EMPTY), Ok(()));
    assert_eq!(
        verify_checksum(b"", ABC),
        Err(ParameterError::ChecksumMismatch(ABC.to_string(), EMPTY.to_string()))
    );
    // An upper-case checksum is another checksum.
    assert!(verify_checksum(b"", &EMPTY.to_uppercase()).is_err());
}

#[test]
fn a_file_is_named_by_the_start_of_its_checksum() {
    assert_eq!(versioned_filename("inclusion.prover", ABC), "inclusion.prover.ba7816b");
    assert_eq!(versioned_filename("inclusion.prover", "ba7816b"), "inclusion.prover.ba7816b");
    assert_eq!(versioned_filename("inclusion.prover", "ba7816"), "inclusion.prover");
    assert_eq!(versioned_filename("inclusion.prover", ""), "inclusion.prover");
    assert_eq!(versioned_filename("", ABC), ".ba7816b");
}

#[test]
fn the_target_is_the_largest_number_divided_by_the_hash() {
    // The first eight bytes of sha256(sha256("")), least significant first.
    assert_eq!(sha256d_to_u64(b""), u64::from_le_bytes([0x5d, 0xf6, 0xe0, 0xe2, 0x76, 0x13, 0x59, 0xd3]));
    let commitment = KZGCommitment { point: G1Affine { l0: 1, l1: 2, l2: 3, l3: 4, l4: 5, l5: 6 } };
    let bytes = commitment.point.to_bytes_le();
    assert_eq!(bytes.len(), 48);
    assert_eq!(&bytes[..9], &[1, 0, 0, 0, 0, 0, 0, 0, 2]);
    let solution = PartialSolution::new(
        Address { point: Group { x: Field::from_u64(1) } },
        7,
        commitment,
    );
    assert_eq!(solution.to_target(), u64::MAX / sha256d_to_u64(&bytes));
    assert_eq!(solution.nonce(), 7);
    assert_eq!(solution.commitment(), commitment);
}

fn program_id(name: &str) -> ProgramID {
    ProgramID {
        name: Identifier { name: name.as_bytes().to_vec() },
        network: Identifier { name: b"aleo".to_vec() },
    }
}

fn deployment(name: &str) -> Deployment {
    Deployment { edition: 0, program_id: program_id(name), program: name.as_bytes().to_vec() }
}

#[test]
fn the_deployment_of_the_response_must_be_of_the_program() {
    let computed = deployment("token");
    assert_eq!(computed.edition(), 0);
    assert_eq!(computed.program_id(), &program_id("token"));
    assert_eq!(computed.program(), &b"token".to_vec());
    // Without an endpoint the deployment that was computed is given.
    assert_eq!(Package::deploy(computed.clone(), &program_id("token"), None), Ok(computed.clone()));

    let request = DeployRequest::new(
        computed.clone(),
        Address { point: Group { x: Field::from_u64(1) } },
        program_id("token"),
    );
    assert_eq!(request.deployment(), &computed);
    assert_eq!(request.program_id(), &program_id("token"));
    assert_eq!(request.address().point.x, Field::from_u64(1));

    let mut answered = deployment("token");
    answered.edition = 1;
    let response = DeployResponse::new(answered.clone());
    assert_eq!(response.deployment(), &answered);
    assert_eq!(
        Package::deploy(computed.clone(), &program_id("token"), Some(response)),
        Ok(answered)
    );

    let other = DeployResponse::new(deployment("other"));
    let refused = Package::deploy(computed, &program_id("token"), Some(other)).unwrap_err();
    assert_eq!(refused.found, program_id("other"));
    assert_eq!(refused.expected, program_id("token"));
}
