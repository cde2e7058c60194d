//! The primitives of a network: its hash functions, commitments and constants.

use vstd::prelude::*;
use crate::environment::Environment;
use crate::field::{Field, Group, Scalar};

verus! {

/// The hash functions and constants of a network.
///
/// Each primitive is a function of its input alone, named by a spec function;
/// `None` stands for an input that the primitive rejects. An implementation is
/// trusted to compute these functions; nothing in this crate checks one.
pub trait Network: Environment {
    /// The network ID.
    const ID: u16;

    /// The network edition.
    const EDITION: u16;

    /// The largest number of prover solutions in one coinbase solution.
    const MAX_PROVER_SOLUTIONS: usize;

    /// The degree of the polynomials of the coinbase puzzle.
    const COINBASE_PUZZLE_DEGREE: u32;

    /// The Unix timestamp of the genesis block.
    const GENESIS_TIMESTAMP: i64;

    /// The coinbase target of the genesis block.
    const GENESIS_COINBASE_TARGET: u64;

    /// The proof target of the genesis block.
    const GENESIS_PROOF_TARGET: u64;

    /// The encryption domain.
    spec fn spec_encryption_domain() -> Field;

    /// The graph key domain.
    spec fn spec_graph_key_domain() -> Field;

    /// The serial number domain.
    spec fn spec_serial_number_domain() -> Field;

    /// The BHP hash of up to 1024 bits.
    spec fn spec_hash_bhp1024(input: Seq<bool>) -> Option<Field>;

    /// The BHP commitment to up to 512 bits under a randomizer.
    spec fn spec_commit_bhp512(input: Seq<bool>, randomizer: Scalar) -> Option<Field>;

    /// The Poseidon hash with an input rate of 2.
    spec fn spec_hash_psd2(input: Seq<Field>) -> Option<Field>;

    /// The Poseidon hash with an input rate of 4.
    spec fn spec_hash_psd4(input: Seq<Field>) -> Option<Field>;

    /// The Poseidon hash with an input rate of 8.
    spec fn spec_hash_psd8(input: Seq<Field>) -> Option<Field>;

    /// The extended Poseidon hash with an input rate of 8: `num_outputs` elements.
    spec fn spec_hash_many_psd8(input: Seq<Field>, num_outputs: u16) -> Seq<Field>;

    /// The Poseidon hash with an input rate of 2, to a point of the group.
    spec fn spec_hash_to_group_psd2(input: Seq<Field>) -> Option<Group>;

    /// The Poseidon hash with an input rate of 2, to a scalar.
    spec fn spec_hash_to_scalar_psd2(input: Seq<Field>) -> Option<Scalar>;

    /// The Poseidon hash with an input rate of 4, to a scalar.
    spec fn spec_hash_to_scalar_psd4(input: Seq<Field>) -> Option<Scalar>;

    /// The Poseidon hash with an input rate of 8, to a scalar.
    spec fn spec_hash_to_scalar_psd8(input: Seq<Field>) -> Option<Scalar>;

    /// The root of the BHP Merkle tree of the given depth over the leaves.
    spec fn spec_merkle_root_bhp(depth: u8, leaves: Seq<Seq<bool>>) -> Option<Field>;

    /// Returns the encryption domain as a constant field element.
    fn encryption_domain() -> (r: Field)
        ensures
            r == Self::spec_encryption_domain(),
    ;

    /// Returns the graph key domain as a constant field element.
    fn graph_key_domain() -> (r: Field)
        ensures
            r == Self::spec_graph_key_domain(),
    ;

    /// Returns the serial number domain as a constant field element.
    fn serial_number_domain() -> (r: Field)
        ensures
            r == Self::spec_serial_number_domain(),
    ;

    /// Returns the scalar multiplication on the generator `G`.
    fn g_scalar_multiply(scalar: &Scalar) -> (r: Group)
        ensures
            r == Self::point(scalar.value() % Self::scalar_modulus()),
    ;

    /// Returns the BHP hash with an input hasher of 1024-bits.
    fn hash_bhp1024(input: &Vec<bool>) -> (r: Option<Field>)
        ensures
            r == Self::spec_hash_bhp1024(input@),
    ;

    /// Returns a BHP commitment with an input hasher of 512-bits.
    fn commit_bhp512(input: &Vec<bool>, randomizer: &Scalar) -> (r: Option<Field>)
        ensures
            r == Self::spec_commit_bhp512(input@, *randomizer),
    ;

    /// Returns the Poseidon hash with an input rate of 2.
    fn hash_psd2(input: &Vec<Field>) -> (r: Option<Field>)
        ensures
            r == Self::spec_hash_psd2(input@),
    ;

    /// Returns the Poseidon hash with an input rate of 4.
    fn hash_psd4(input: &Vec<Field>) -> (r: Option<Field>)
        ensures
            r == Self::spec_hash_psd4(input@),
    ;

    /// Returns the Poseidon hash with an input rate of 8.
    fn hash_psd8(input: &Vec<Field>) -> (r: Option<Field>)
        ensures
            r == Self::spec_hash_psd8(input@),
    ;

    /// Returns the extended Poseidon hash with an input rate of 8.
    fn hash_many_psd8(input: &Vec<Field>, num_outputs: u16) -> (r: Vec<Field>)
        ensures
            r@ == Self::spec_hash_many_psd8(input@, num_outputs),
            r@.len() == num_outputs,
    ;

    /// Returns the Poseidon hash with an input rate of 2 on the affine curve.
    fn hash_to_group_psd2(input: &Vec<Field>) -> (r: Option<Group>)
        ensures
            r == Self::spec_hash_to_group_psd2(input@),
    ;

    /// Returns the Poseidon hash with an input rate of 2 on the scalar field.
    fn hash_to_scalar_psd2(input: &Vec<Field>) -> (r: Option<Scalar>)
        ensures
            r == Self::spec_hash_to_scalar_psd2(input@),
    ;

    /// Returns the Poseidon hash with an input rate of 4 on the scalar field.
    fn hash_to_scalar_psd4(input: &Vec<Field>) -> (r: Option<Scalar>)
        ensures
            r == Self::spec_hash_to_scalar_psd4(input@),
    ;

    /// Returns the Poseidon hash with an input rate of 8 on the scalar field.
    fn hash_to_scalar_psd8(input: &Vec<Field>) -> (r: Option<Scalar>)
        ensures
            r == Self::spec_hash_to_scalar_psd8(input@),
    ;

    /// Returns the root of the Merkle tree with a BHP leaf hasher of 1024-bits
    /// and a BHP path hasher of 512-bits.
    fn merkle_root_bhp(depth: u8, leaves: &Vec<Vec<bool>>) -> (r: Option<Field>)
        ensures
            r == Self::spec_merkle_root_bhp(depth, leaves.deep_view()),
    ;
}

} // verus!
