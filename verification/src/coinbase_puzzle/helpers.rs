//! The values of the coinbase puzzle: challenges, solutions and keys, and the
//! arithmetic of polynomials.

use vstd::prelude::*;
use vstd::bytes::{spec_u64_to_le_bytes, u64_to_le_bytes};
use crate::coinbase_puzzle::engine::{
    CoinbaseVerifyingKey, G1Affine, G2Affine, KZGCommitment, KZGProof, PairingEngine,
};
use crate::environment::Environment;
use crate::field::{Address, Field};
use crate::sha256::{sha256d_to_u64, spec_sha256d_to_u64};

verus! {

/// The value of a polynomial at a point, by Horner's rule.
pub open spec fn spec_evaluate<E: Environment>(coefficients: Seq<Field>, point: Field) -> Field
    decreases coefficients.len(),
{
    if coefficients.len() == 0 {
        Field { l0: 0, l1: 0, l2: 0, l3: 0 }
    } else {
        E::field_sum(
            coefficients[0],
            E::field_product(point, spec_evaluate::<E>(coefficients.skip(1), point)),
        )
    }
}

/// A polynomial with each coefficient multiplied by a factor.
pub open spec fn spec_scale<E: Environment>(coefficients: Seq<Field>, factor: Field) -> Seq<Field> {
    Seq::new(coefficients.len(), |i: int| E::field_product(coefficients[i], factor))
}

/// The sum of two polynomials, coefficient by coefficient.
pub open spec fn spec_add<E: Environment>(left: Seq<Field>, right: Seq<Field>) -> Seq<Field> {
    Seq::new(
        if left.len() >= right.len() {
            left.len()
        } else {
            right.len()
        },
        |i: int|
            if i < left.len() && i < right.len() {
                E::field_sum(left[i], right[i])
            } else if i < left.len() {
                left[i]
            } else {
                right[i]
            },
    )
}

/// Evaluates a polynomial at a point.
pub fn evaluate_polynomial<E: Environment>(coefficients: &Vec<Field>, point: &Field) -> (r: Field)
    ensures
        r == spec_evaluate::<E>(coefficients@, *point),
{
    let mut value = Field::zero();
    let mut i: usize = coefficients.len();
    assert(coefficients@.skip(i as int) =~= Seq::<Field>::empty());
    while i > 0
        invariant
            i <= coefficients.len(),
            value == spec_evaluate::<E>(coefficients@.skip(i as int), *point),
        decreases i,
    {
        i -= 1;
        value = E::field_add(&coefficients[i], &E::field_mul(point, &value));
        assert(coefficients@.skip(i as int).skip(1) =~= coefficients@.skip(i + 1));
    }
    assert(coefficients@.skip(0) =~= coefficients@);
    value
}

/// Multiplies each coefficient of a polynomial by a factor.
pub fn scale_polynomial<E: Environment>(coefficients: &Vec<Field>, factor: &Field) -> (r: Vec<Field>)
    ensures
        r@ == spec_scale::<E>(coefficients@, *factor),
{
    let mut out: Vec<Field> = Vec::new();
    let mut i: usize = 0;
    while i < coefficients.len()
        invariant
            i <= coefficients.len(),
            out@ == spec_scale::<E>(coefficients@, *factor).take(i as int),
        decreases coefficients.len() - i,
    {
        out.push(E::field_mul(&coefficients[i], factor));
        assert(out@ =~= spec_scale::<E>(coefficients@, *factor).take(i + 1));
        i += 1;
    }
    assert(out@ =~= spec_scale::<E>(coefficients@, *factor));
    out
}

/// Adds two polynomials, coefficient by coefficient.
pub fn add_polynomials<E: Environment>(left: &Vec<Field>, right: &Vec<Field>) -> (r: Vec<Field>)
    ensures
        r@ == spec_add::<E>(left@, right@),
{
    let len = if left.len() >= right.len() {
        left.len()
    } else {
        right.len()
    };
    let mut out: Vec<Field> = Vec::new();
    let mut i: usize = 0;
    while i < len
        invariant
            i <= len,
            len == if left.len() >= right.len() {
                left.len()
            } else {
                right.len()
            },
            out@ == spec_add::<E>(left@, right@).take(i as int),
        decreases len - i,
    {
        let coefficient = if i < left.len() && i < right.len() {
            E::field_add(&left[i], &right[i])
        } else if i < left.len() {
            left[i]
        } else {
            right[i]
        };
        out.push(coefficient);
        assert(out@ =~= spec_add::<E>(left@, right@).take(i + 1));
        i += 1;
    }
    assert(out@ =~= spec_add::<E>(left@, right@));
    out
}

/// The degree of the polynomials of a puzzle.
#[derive(Clone, Copy, PartialEq, Eq, Structural, Debug)]
pub struct PuzzleConfig {
    /// The maximum degree of the polynomial.
    pub degree: u32,
}

/// The reference string that the keys of the puzzle are cut from.
#[derive(Clone, PartialEq, Eq, Debug)]
pub struct UniversalSrs {
    /// The powers of `beta` times the generator of G1.
    pub powers_of_beta_g: Vec<G1Affine>,
    /// The generator of G2.
    pub h: G2Affine,
    /// `beta` times the above generator of G2.
    pub beta_h: G2Affine,
}

/// An evaluation domain: its size, a power of two, and the logarithm of the size.
#[derive(Clone, Copy, PartialEq, Eq, Structural, Debug)]
pub struct EvaluationDomain {
    pub size: u64,
    pub log_size_of_group: u32,
}

/// The key that solutions are proved and accumulated with.
#[derive(Clone, PartialEq, Eq, Debug)]
pub struct CoinbaseProvingKey {
    /// The evaluation domain of the product of two polynomials.
    pub product_domain: EvaluationDomain,
    /// The elements of the product domain.
    pub product_domain_elements: Vec<Field>,
    /// The Lagrange basis over the product domain.
    pub lagrange_basis_at_beta_g: Vec<G1Affine>,
    /// The verifying key.
    pub verifying_key: CoinbaseVerifyingKey,
}

impl CoinbaseProvingKey {
    /// The Lagrange basis over the product domain.
    pub fn lagrange_basis(&self) -> (r: &Vec<G1Affine>)
        ensures
            r == &self.lagrange_basis_at_beta_g,
    {
        &self.lagrange_basis_at_beta_g
    }

    /// The elements of the product domain.
    pub fn product_domain_elements(&self) -> (r: &Vec<Field>)
        ensures
            r == &self.product_domain_elements,
    {
        &self.product_domain_elements
    }
}

/// The bytes that the polynomial of an epoch is hashed from: the epoch
/// number, then the hash of the epoch's block.
pub open spec fn epoch_input(epoch_number: u32, epoch_block_hash: Field) -> Seq<u8> {
    spec_u64_to_le_bytes(epoch_number as u64).subrange(0, 4) + epoch_block_hash.bytes_le()
}

/// The bytes that the polynomial of a prover is hashed from: the epoch
/// number, the hash of the epoch's block, the address and the nonce.
pub open spec fn prover_input(
    epoch_number: u32,
    epoch_block_hash: Field,
    address: Address,
    nonce: u64,
) -> Seq<u8> {
    spec_u64_to_le_bytes(epoch_number as u64).subrange(0, 4) + epoch_block_hash.bytes_le()
        + address.point.x.bytes_le() + spec_u64_to_le_bytes(nonce)
}

/// The challenge of an epoch: a polynomial that is fixed for the epoch.
#[derive(Clone, PartialEq, Eq, Debug)]
pub struct EpochChallenge {
    /// The epoch number.
    pub epoch_number: u32,
    /// The epoch block hash, defined as the block hash right before the epoch updated.
    pub epoch_block_hash: Field,
    /// The degree of the epoch polynomial.
    pub degree: u32,
    /// The epoch polynomial.
    pub epoch_polynomial: Vec<Field>,
    /// The evaluations of the epoch polynomial over the product domain.
    pub epoch_polynomial_evaluations: Vec<Field>,
}

impl EpochChallenge {
    /// Returns the epoch number for the solution.
    pub fn epoch_number(&self) -> (r: u32)
        ensures
            r == self.epoch_number,
    {
        self.epoch_number
    }

    /// Returns the epoch block hash for the solution.
    pub fn epoch_block_hash(&self) -> (r: Field)
        ensures
            r == self.epoch_block_hash,
    {
        self.epoch_block_hash
    }

    /// Returns the degree of the epoch polynomial.
    pub fn degree(&self) -> (r: u32)
        ensures
            r == self.degree,
    {
        self.degree
    }

    /// Returns the epoch polynomial for the solution.
    pub fn epoch_polynomial(&self) -> (r: &Vec<Field>)
        ensures
            r == &self.epoch_polynomial,
    {
        &self.epoch_polynomial
    }

    /// Returns the evaluations of the epoch polynomial over the product domain.
    pub fn epoch_polynomial_evaluations(&self) -> (r: &Vec<Field>)
        ensures
            r == &self.epoch_polynomial_evaluations,
    {
        &self.epoch_polynomial_evaluations
    }
}

/// Appends the first four bytes of the little-endian encoding of a 32-bit number.
pub fn push_u32_le(out: &mut Vec<u8>, x: u32)
    ensures
        final(out)@ == old(out)@ + spec_u64_to_le_bytes(x as u64).subrange(0, 4),
{
    let bytes = u64_to_le_bytes(x as u64);
    out.push(bytes[0]);
    out.push(bytes[1]);
    out.push(bytes[2]);
    out.push(bytes[3]);
    assert(out@ =~= old(out)@ + spec_u64_to_le_bytes(x as u64).subrange(0, 4));
}

/// The proof target of a commitment: `u64::MAX` divided by the hash of the
/// commitment, and `u64::MAX` where the hash is zero.
pub open spec fn spec_to_target(commitment: KZGCommitment) -> u64 {
    let hash_to_u64 = spec_sha256d_to_u64(commitment.point.bytes_le());
    if hash_to_u64 == 0 {
        u64::MAX
    } else {
        (u64::MAX / hash_to_u64) as u64
    }
}

/// The sum of the proof targets of the commitments.
pub open spec fn spec_cumulative_target(solutions: Seq<PartialSolution>) -> int
    decreases solutions.len(),
{
    if solutions.len() == 0 {
        0
    } else {
        spec_cumulative_target(solutions.drop_last()) + spec_to_target(solutions.last().commitment)
    }
}

/// The partial solution for the coinbase puzzle from a prover.
#[derive(Clone, Copy, PartialEq, Eq, Structural, Debug)]
pub struct PartialSolution {
    /// The address of the prover.
    pub address: Address,
    /// The nonce for the solution.
    pub nonce: u64,
    /// The commitment for the solution.
    pub commitment: KZGCommitment,
}

impl PartialSolution {
    /// Initializes a new instance of the partial solution.
    pub fn new(address: Address, nonce: u64, commitment: KZGCommitment) -> (r: PartialSolution)
        ensures
            r == (PartialSolution { address, nonce, commitment }),
    {
        PartialSolution { address, nonce, commitment }
    }

    /// Returns the address of the prover.
    pub fn address(&self) -> (r: Address)
        ensures
            r == self.address,
    {
        self.address
    }

    /// Returns the nonce for the solution.
    pub fn nonce(&self) -> (r: u64)
        ensures
            r == self.nonce,
    {
        self.nonce
    }

    /// Returns the commitment for the solution.
    pub fn commitment(&self) -> (r: KZGCommitment)
        ensures
            r == self.commitment,
    {
        self.commitment
    }

    /// Returns the target of the solution.
    pub fn to_target(&self) -> (r: u64)
        ensures
            r == spec_to_target(self.commitment),
    {
        let bytes = self.commitment.point.to_bytes_le();
        let hash_to_u64 = sha256d_to_u64(bytes.as_slice());
        if hash_to_u64 == 0 {
            u64::MAX
        } else {
            u64::MAX / hash_to_u64
        }
    }

    /// Returns the prover polynomial of the solution.
    pub fn to_prover_polynomial<N: PairingEngine>(&self, epoch_challenge: &EpochChallenge) -> (r:
        Vec<Field>)
        ensures
            r@ == spec_prover_polynomial::<N>(
                epoch_challenge.epoch_number,
                epoch_challenge.epoch_block_hash,
                epoch_challenge.degree,
                self.address,
                self.nonce,
            ),
    {
        prover_polynomial::<N>(epoch_challenge, self.address, self.nonce)
    }
}

/// The prover polynomial: the polynomial that the epoch, the address and the
/// nonce are hashed to.
pub open spec fn spec_prover_polynomial<N: PairingEngine>(
    epoch_number: u32,
    epoch_block_hash: Field,
    degree: u32,
    address: Address,
    nonce: u64,
) -> Seq<Field> {
    N::spec_hash_to_polynomial(
        prover_input(epoch_number, epoch_block_hash, address, nonce),
        degree,
    )
}

/// Returns the prover polynomial for the coinbase puzzle.
pub fn prover_polynomial<N: PairingEngine>(
    epoch_challenge: &EpochChallenge,
    address: Address,
    nonce: u64,
) -> (r: Vec<Field>)
    ensures
        r@ == spec_prover_polynomial::<N>(
            epoch_challenge.epoch_number,
            epoch_challenge.epoch_block_hash,
            epoch_challenge.degree,
            address,
            nonce,
        ),
{
    let mut input: Vec<u8> = Vec::new();
    push_u32_le(&mut input, epoch_challenge.epoch_number());
    Field::write_le(&epoch_challenge.epoch_block_hash(), &mut input);
    Field::write_le(&address.to_field(), &mut input);
    let mut nonce_bytes = u64_to_le_bytes(nonce);
    input.append(&mut nonce_bytes);
    assert(input@ =~= prover_input(
        epoch_challenge.epoch_number,
        epoch_challenge.epoch_block_hash,
        address,
        nonce,
    ));
    N::hash_to_polynomial(&input, epoch_challenge.degree())
}

/// The prover solution for the coinbase puzzle from a prover.
#[derive(Clone, Copy, PartialEq, Eq, Structural, Debug)]
pub struct ProverSolution {
    /// The core data of the prover solution.
    pub partial_solution: PartialSolution,
    /// The proof for the solution.
    pub proof: KZGProof,
}

impl ProverSolution {
    /// Initializes a new instance of the prover solution.
    pub fn new(partial_solution: PartialSolution, proof: KZGProof) -> (r: ProverSolution)
        ensures
            r == (ProverSolution { partial_solution, proof }),
    {
        ProverSolution { partial_solution, proof }
    }

    /// Returns the address of the prover.
    pub fn address(&self) -> (r: Address)
        ensures
            r == self.partial_solution.address,
    {
        self.partial_solution.address
    }

    /// Returns the nonce for the solution.
    pub fn nonce(&self) -> (r: u64)
        ensures
            r == self.partial_solution.nonce,
    {
        self.partial_solution.nonce
    }

    /// Returns the commitment for the solution.
    pub fn commitment(&self) -> (r: KZGCommitment)
        ensures
            r == self.partial_solution.commitment,
    {
        self.partial_solution.commitment
    }

    /// Returns the proof for the solution.
    pub fn kzg_proof(&self) -> (r: KZGProof)
        ensures
            r == self.proof,
    {
        self.proof
    }

    /// Returns the target of the solution.
    pub fn to_target(&self) -> (r: u64)
        ensures
            r == spec_to_target(self.partial_solution.commitment),
    {
        self.partial_solution.to_target()
    }
}

/// The coinbase puzzle solution is composed of individual prover solutions.
#[derive(Clone, PartialEq, Eq, Debug)]
pub struct CoinbaseSolution {
    /// The partial solutions of the coinbase puzzle, which are aggregated into a single solution.
    pub partial_solutions: Vec<PartialSolution>,
    /// The KZG proof of the coinbase solution.
    pub proof: KZGProof,
}

impl CoinbaseSolution {
    /// Initializes a new instance of a coinbase solution.
    pub fn new(partial_solutions: Vec<PartialSolution>, proof: KZGProof) -> (r: CoinbaseSolution)
        ensures
            r.partial_solutions@ == partial_solutions@,
            r.proof == proof,
    {
        CoinbaseSolution { partial_solutions, proof }
    }

    /// Returns the partial solutions.
    pub fn partial_solutions(&self) -> (r: &Vec<PartialSolution>)
        ensures
            r == &self.partial_solutions,
    {
        &self.partial_solutions
    }

    /// Returns the KZG proof.
    pub fn kzg_proof(&self) -> (r: KZGProof)
        ensures
            r == self.proof,
    {
        self.proof
    }

    /// Returns the number of partial solutions.
    pub fn len(&self) -> (r: usize)
        ensures
            r == self.partial_solutions@.len(),
    {
        self.partial_solutions.len()
    }

    /// Returns `true` if there are no partial solutions.
    pub fn is_empty(&self) -> (r: bool)
        ensures
            r == (self.partial_solutions@.len() == 0),
    {
        self.partial_solutions.len() == 0
    }

    /// Returns the puzzle commitments.
    pub fn puzzle_commitments(&self) -> (r: Vec<G1Affine>)
        ensures
            r@ == commitment_points(self.partial_solutions@),
    {
        commitments_of(&self.partial_solutions)
    }

    /// Returns the cumulative target of the individual prover solutions;
    /// `None` where the sum does not fit in 128 bits.
    pub fn to_cumulative_proof_target(&self) -> (r: Option<u128>)
        ensures
            match r {
                Some(sum) => sum == spec_cumulative_target(self.partial_solutions@),
                None => spec_cumulative_target(self.partial_solutions@) > u128::MAX,
            },
    {
        let mut cumulative: u128 = 0;
        let mut i: usize = 0;
        assert(self.partial_solutions@.take(0) =~= Seq::<PartialSolution>::empty());
        while i < self.partial_solutions.len()
            invariant
                i <= self.partial_solutions.len(),
                cumulative == spec_cumulative_target(self.partial_solutions@.take(i as int)),
            decreases self.partial_solutions.len() - i,
        {
            let target = self.partial_solutions[i].to_target();
            proof {
                let next = self.partial_solutions@.take(i + 1);
                assert(next.drop_last() =~= self.partial_solutions@.take(i as int));
                assert(next.last() == self.partial_solutions@[i as int]);
                lemma_cumulative_target_grows(self.partial_solutions@, (i + 1) as nat);
            }
            cumulative = match cumulative.checked_add(target as u128) {
                Some(sum) => sum,
                None => {
                    return None;
                },
            };
            i += 1;
        }
        assert(self.partial_solutions@.take(i as int) =~= self.partial_solutions@);
        Some(cumulative)
    }
}

/// The cumulative target of the first `n` solutions is at most that of all.
pub proof fn lemma_cumulative_target_grows(solutions: Seq<PartialSolution>, n: nat)
    requires
        n <= solutions.len(),
    ensures
        0 <= spec_cumulative_target(solutions.take(n as int)) <= spec_cumulative_target(
            solutions,
        ),
    decreases solutions.len(),
{
    if n == solutions.len() {
        assert(solutions.take(n as int) =~= solutions);
        lemma_cumulative_target_nonnegative(solutions);
    } else {
        lemma_cumulative_target_grows(solutions.drop_last(), n);
        assert(solutions.drop_last().take(n as int) =~= solutions.take(n as int));
    }
}

/// A cumulative target is not negative.
pub proof fn lemma_cumulative_target_nonnegative(solutions: Seq<PartialSolution>)
    ensures
        0 <= spec_cumulative_target(solutions),
    decreases solutions.len(),
{
    if solutions.len() > 0 {
        lemma_cumulative_target_nonnegative(solutions.drop_last());
    }
}

/// The commitments of a list of partial solutions, in order.
pub open spec fn commitment_points(solutions: Seq<PartialSolution>) -> Seq<G1Affine> {
    Seq::new(solutions.len(), |i: int| solutions[i].commitment.point)
}

/// Returns the commitments of a list of partial solutions, in order.
pub fn commitments_of(solutions: &Vec<PartialSolution>) -> (r: Vec<G1Affine>)
    ensures
        r@ == commitment_points(solutions@),
{
    let mut out: Vec<G1Affine> = Vec::new();
    let mut i: usize = 0;
    while i < solutions.len()
        invariant
            i <= solutions.len(),
            out@ == commitment_points(solutions@).take(i as int),
        decreases solutions.len() - i,
    {
        out.push(solutions[i].commitment.point);
        assert(out@ =~= commitment_points(solutions@).take(i + 1));
        i += 1;
    }
    assert(out@ =~= commitment_points(solutions@));
    out
}

} // verus!
