//! The pairing-based primitives of the coinbase puzzle: the polynomial
//! commitment scheme, the evaluation domain and the puzzle's hashes.

use vstd::prelude::*;
use vstd::bytes::{spec_u64_to_le_bytes, u64_to_le_bytes};
use crate::field::Field;
use crate::network::Network;

verus! {

/// A point of the first group of the pairing curve, held as the six
/// little-endian limbs of its 48-byte encoding.
#[derive(Clone, Copy, PartialEq, Eq, Structural, Debug, Hash)]
pub struct G1Affine {
    pub l0: u64,
    pub l1: u64,
    pub l2: u64,
    pub l3: u64,
    pub l4: u64,
    pub l5: u64,
}

impl G1Affine {
    /// The 48 bytes of the encoding.
    pub open spec fn bytes_le(self) -> Seq<u8> {
        spec_u64_to_le_bytes(self.l0) + spec_u64_to_le_bytes(self.l1) + spec_u64_to_le_bytes(
            self.l2,
        ) + spec_u64_to_le_bytes(self.l3) + spec_u64_to_le_bytes(self.l4) + spec_u64_to_le_bytes(
            self.l5,
        )
    }

    /// The all-zero encoding.
    pub fn zero() -> (r: G1Affine)
        ensures
            r == (G1Affine { l0: 0, l1: 0, l2: 0, l3: 0, l4: 0, l5: 0 }),
    {
        G1Affine { l0: 0, l1: 0, l2: 0, l3: 0, l4: 0, l5: 0 }
    }

    /// Returns the 48 bytes of the encoding.
    pub fn to_bytes_le(&self) -> (r: Vec<u8>)
        ensures
            r@ == self.bytes_le(),
    {
        let mut out = u64_to_le_bytes(self.l0);
        let mut b1 = u64_to_le_bytes(self.l1);
        let mut b2 = u64_to_le_bytes(self.l2);
        let mut b3 = u64_to_le_bytes(self.l3);
        let mut b4 = u64_to_le_bytes(self.l4);
        let mut b5 = u64_to_le_bytes(self.l5);
        out.append(&mut b1);
        out.append(&mut b2);
        out.append(&mut b3);
        out.append(&mut b4);
        out.append(&mut b5);
        assert(out@ =~= self.bytes_le());
        out
    }
}

/// A point of the second group of the pairing curve, held as the two halves
/// of its encoding.
#[derive(Clone, Copy, PartialEq, Eq, Structural, Debug, Hash)]
pub struct G2Affine {
    pub c0: G1Affine,
    pub c1: G1Affine,
}

/// A commitment to a polynomial.
#[derive(Clone, Copy, PartialEq, Eq, Structural, Debug, Hash)]
pub struct KZGCommitment {
    pub point: G1Affine,
}

/// A proof that a committed polynomial takes a value at a point. A proof
/// with `random_v` is hiding.
#[derive(Clone, Copy, PartialEq, Eq, Structural, Debug)]
pub struct KZGProof {
    pub w: G1Affine,
    pub random_v: Option<Field>,
}

impl KZGProof {
    /// Returns `true` if the proof is hiding.
    pub fn is_hiding(&self) -> (r: bool)
        ensures
            r == self.random_v is Some,
    {
        self.random_v.is_some()
    }
}

/// The key that a coinbase solution is verified with.
#[derive(Clone, Copy, PartialEq, Eq, Structural, Debug)]
pub struct CoinbaseVerifyingKey {
    /// The generator of G1.
    pub g: G1Affine,
    /// The generator of G1 that is used for making a commitment hiding.
    pub gamma_g: G1Affine,
    /// The generator of G2.
    pub h: G2Affine,
    /// `beta` times the above generator of G2.
    pub beta_h: G2Affine,
}

/// The pairing-based primitives of a network.
///
/// Each primitive is a function of its input alone, named by a spec function;
/// `None` stands for an input that the primitive rejects. An implementation is
/// trusted to compute these functions; nothing in this crate checks one.
pub trait PairingEngine: Network {
    /// The largest `k` for which there is an evaluation domain of size `2^k`.
    const TWO_ADICITY: u32;

    /// The coefficients of the polynomial of the given degree that an input
    /// is hashed to.
    spec fn spec_hash_to_polynomial(input: Seq<u8>, degree: u32) -> Seq<Field>;

    /// The evaluation point that a commitment is hashed to.
    spec fn spec_hash_commitment(commitment: G1Affine) -> Option<Field>;

    /// The challenges that a list of commitments is hashed to.
    spec fn spec_hash_commitments(commitments: Seq<G1Affine>) -> Option<Seq<Field>>;

    /// The elements of the evaluation domain of the given size.
    spec fn spec_domain_elements(size: u64) -> Seq<Field>;

    /// The evaluations of a polynomial over the evaluation domain.
    spec fn spec_fft(size: u64, coefficients: Seq<Field>) -> Seq<Field>;

    /// The evaluations of the product of two polynomials over the evaluation
    /// domain, from their evaluations.
    spec fn spec_mul_polynomials_in_evaluation_domain(
        size: u64,
        left: Seq<Field>,
        right: Seq<Field>,
    ) -> Seq<Field>;

    /// The Lagrange basis over the evaluation domain, from the powers of the
    /// reference string.
    spec fn spec_lagrange_basis(powers_of_beta_g: Seq<G1Affine>, size: u64) -> Option<
        Seq<G1Affine>,
    >;

    /// The commitment to the polynomial with the given evaluations.
    spec fn spec_commit_lagrange(lagrange_basis: Seq<G1Affine>, evaluations: Seq<Field>) -> Option<
        G1Affine,
    >;

    /// The proof that the polynomial with the given evaluations takes a value
    /// at a point.
    spec fn spec_open_lagrange(
        lagrange_basis: Seq<G1Affine>,
        domain_elements: Seq<Field>,
        evaluations: Seq<Field>,
        point: Field,
        value: Field,
    ) -> Option<KZGProof>;

    /// Whether a proof shows that the committed polynomial takes a value at a
    /// point.
    spec fn spec_check(
        verifying_key: CoinbaseVerifyingKey,
        commitment: G1Affine,
        point: Field,
        value: Field,
        proof: KZGProof,
    ) -> Option<bool>;

    /// The sum of the bases, each multiplied by the scalar at its place.
    spec fn spec_msm(bases: Seq<G1Affine>, scalars: Seq<Field>) -> G1Affine;

    /// Hashes an input to the coefficients of a polynomial of the given degree.
    fn hash_to_polynomial(input: &Vec<u8>, degree: u32) -> (r: Vec<Field>)
        ensures
            r@ == Self::spec_hash_to_polynomial(input@, degree),
    ;

    /// Hashes a commitment to an evaluation point.
    fn hash_commitment(commitment: &KZGCommitment) -> (r: Option<Field>)
        ensures
            r == Self::spec_hash_commitment(commitment.point),
    ;

    /// Hashes a list of commitments to challenges.
    fn hash_commitments(commitments: &Vec<G1Affine>) -> (r: Option<Vec<Field>>)
        ensures
            match r {
                Some(challenges) => Self::spec_hash_commitments(commitments@) == Some(
                    challenges@,
                ),
                None => Self::spec_hash_commitments(commitments@) is None,
            },
    ;

    /// Returns the elements of the evaluation domain of the given size.
    fn domain_elements(size: u64) -> (r: Vec<Field>)
        ensures
            r@ == Self::spec_domain_elements(size),
    ;

    /// Evaluates a polynomial over the evaluation domain of the given size.
    fn in_order_fft(size: u64, coefficients: &Vec<Field>) -> (r: Vec<Field>)
        ensures
            r@ == Self::spec_fft(size, coefficients@),
    ;

    /// Multiplies two polynomials in the evaluation domain.
    fn mul_polynomials_in_evaluation_domain(size: u64, left: &Vec<Field>, right: &Vec<Field>) -> (r:
        Vec<Field>)
        ensures
            r@ == Self::spec_mul_polynomials_in_evaluation_domain(size, left@, right@),
    ;

    /// Computes the Lagrange basis over the evaluation domain of the given size.
    fn lagrange_basis(powers_of_beta_g: &Vec<G1Affine>, size: u64) -> (r: Option<Vec<G1Affine>>)
        ensures
            match r {
                Some(basis) => Self::spec_lagrange_basis(powers_of_beta_g@, size) == Some(basis@),
                None => Self::spec_lagrange_basis(powers_of_beta_g@, size) is None,
            },
    ;

    /// Commits to the polynomial with the given evaluations, without hiding.
    fn commit_lagrange(lagrange_basis: &Vec<G1Affine>, evaluations: &Vec<Field>) -> (r: Option<
        KZGCommitment,
    >)
        ensures
            match r {
                Some(commitment) => Self::spec_commit_lagrange(lagrange_basis@, evaluations@)
                    == Some(commitment.point),
                None => Self::spec_commit_lagrange(lagrange_basis@, evaluations@) is None,
            },
    ;

    /// Opens the polynomial with the given evaluations at a point.
    fn open_lagrange(
        lagrange_basis: &Vec<G1Affine>,
        domain_elements: &Vec<Field>,
        evaluations: &Vec<Field>,
        point: Field,
        value: Field,
    ) -> (r: Option<KZGProof>)
        ensures
            r == Self::spec_open_lagrange(
                lagrange_basis@,
                domain_elements@,
                evaluations@,
                point,
                value,
            ),
    ;

    /// Checks that a proof shows the value of the committed polynomial at a point.
    fn check(
        verifying_key: &CoinbaseVerifyingKey,
        commitment: &KZGCommitment,
        point: Field,
        value: Field,
        proof: &KZGProof,
    ) -> (r: Option<bool>)
        ensures
            r == Self::spec_check(*verifying_key, commitment.point, point, value, *proof),
    ;

    /// Computes the sum of the bases, each multiplied by the scalar at its place.
    fn msm(bases: &Vec<G1Affine>, scalars: &Vec<Field>) -> (r: G1Affine)
        ensures
            r == Self::spec_msm(bases@, scalars@),
    ;
}

} // verus!
