//! Proving, accumulating and verifying solutions of the coinbase puzzle.

use vstd::prelude::*;
use vstd::arithmetic::power2::{
    lemma2_to64, lemma_pow2_strictly_increases, lemma_pow2_unfold, pow2,
};
use crate::coinbase_puzzle::engine::{
    CoinbaseVerifyingKey, G1Affine, KZGCommitment, KZGProof, PairingEngine,
};
use crate::coinbase_puzzle::helpers::{
    add_polynomials, commitment_points, commitments_of, evaluate_polynomial, prover_polynomial,
    scale_polynomial, spec_add,
    spec_cumulative_target, spec_evaluate, spec_prover_polynomial, spec_scale, spec_to_target,
    CoinbaseProvingKey, CoinbaseSolution, EpochChallenge, EvaluationDomain, PartialSolution,
    ProverSolution, PuzzleConfig, UniversalSrs,
};
use crate::field::{Address, Field};

verus! {

/// Why the coinbase puzzle refused.
#[derive(Clone, Copy, PartialEq, Eq, Structural, Debug)]
pub enum PuzzleError {
    /// Degree cannot be zero.
    DegreeZero,
    /// Degree is too large.
    DegreeTooLarge,
    /// There is no evaluation domain for the degree.
    InvalidDegree,
    /// The reference string holds no power of `beta`.
    MissingPowers,
    /// A primitive rejected its input.
    Primitive,
    /// Cannot prove the coinbase puzzle with a verifier.
    CannotProveWithVerifier,
    /// Cannot accumulate the coinbase puzzle with a verifier.
    CannotAccumulateWithVerifier,
    /// Cannot fetch the coinbase proving key with a verifier.
    CannotFetchProvingKey,
    /// Prover solution was below the necessary proof target.
    BelowTarget { proof_target: u64, minimum_target: u64 },
    /// The proof must be non-hiding.
    HidingProof,
    /// Cannot accumulate an empty list of prover solutions.
    NoProverSolutions,
    /// Cannot accumulate beyond the largest number of prover solutions.
    TooManyProverSolutions { found: usize },
    /// Cannot accumulate duplicate prover solutions.
    DuplicateProverSolutions,
    /// Invalid number of challenge points.
    InvalidChallengePoints,
    /// The coinbase solution does not contain any partial solutions.
    NoPartialSolutions,
    /// The coinbase solution exceeds the allowed number of partial solutions.
    TooManyPartialSolutions { found: usize },
    /// The cumulative proof target does not fit in 128 bits.
    TargetOverflow,
    /// The coinbase proof does not meet the coinbase target.
    BelowCoinbaseTarget,
    /// The coinbase solution contains duplicate puzzle commitments.
    DuplicateCommitments,
    /// Prover puzzle does not meet the proof target requirements.
    BelowProofTarget,
}

/// The coinbase puzzle, in one of two modes that is fixed when it is made.
#[derive(Clone, PartialEq, Eq, Debug)]
pub enum CoinbasePuzzle {
    /// The prover contains the coinbase puzzle proving key.
    Prover(CoinbaseProvingKey),
    /// The verifier contains the coinbase puzzle verifying key.
    Verifier(CoinbaseVerifyingKey),
}

/// Whether `size` is `2^log`, and the least power of two that is at least `n`.
pub open spec fn least_power_of_two(size: u64, log: u32, n: int) -> bool {
    &&& size == pow2(log as nat)
    &&& n <= size
    &&& log == 0 || pow2((log - 1) as nat) < n
}

/// The least power of two that is at least `n`, with its logarithm.
pub fn next_power_of_two(n: u32) -> (r: (u64, u32))
    ensures
        least_power_of_two(r.0, r.1, n as int),
        r.1 <= 32,
{
    let mut size: u64 = 1;
    let mut log: u32 = 0;
    proof {
        lemma2_to64();
    }
    while size < n as u64
        invariant
            size == pow2(log as nat),
            log <= 32,
            log == 0 || pow2((log - 1) as nat) < n,
            1 <= size <= 0x1_0000_0000,
            pow2(32) == 0x1_0000_0000,
        decreases 0x2_0000_0000 - size,
    {
        proof {
            lemma_pow2_unfold((log + 1) as nat);
            if log + 1 < 32 {
                lemma_pow2_strictly_increases((log + 1) as nat, 32);
            }
        }
        size = size * 2;
        log = log + 1;
    }
    (size, log)
}

/// The prover solutions that are not hiding, as partial solutions, in order.
pub open spec fn non_hiding(solutions: Seq<ProverSolution>) -> Seq<PartialSolution>
    decreases solutions.len(),
{
    if solutions.len() == 0 {
        Seq::empty()
    } else if solutions.last().proof.random_v is Some {
        non_hiding(solutions.drop_last())
    } else {
        non_hiding(solutions.drop_last()).push(solutions.last().partial_solution)
    }
}

/// Whether two prover solutions of a list are equal.
pub open spec fn has_duplicate_solutions(solutions: Seq<ProverSolution>) -> bool {
    exists|i: int, j: int| 0 <= i < j < solutions.len() && solutions[i] == solutions[j]
}

/// Whether two partial solutions of a list hold the same commitment.
pub open spec fn has_duplicate_commitments(solutions: Seq<PartialSolution>) -> bool {
    exists|i: int, j: int|
        0 <= i < j < solutions.len() && solutions[i].commitment == solutions[j].commitment
}

/// The sum of the prover polynomials of the first `n` partial solutions, each
/// multiplied by the challenge at its place.
pub open spec fn spec_accumulated_polynomial<N: PairingEngine>(
    epoch_challenge: EpochChallenge,
    solutions: Seq<PartialSolution>,
    challenges: Seq<Field>,
    n: nat,
) -> Seq<Field>
    decreases n,
{
    if n == 0 {
        Seq::empty()
    } else {
        spec_add::<N>(
            spec_accumulated_polynomial::<N>(
                epoch_challenge,
                solutions,
                challenges,
                (n - 1) as nat,
            ),
            spec_scale::<N>(
                spec_prover_polynomial::<N>(
                    epoch_challenge.epoch_number,
                    epoch_challenge.epoch_block_hash,
                    epoch_challenge.degree,
                    solutions[n - 1].address,
                    solutions[n - 1].nonce,
                ),
                challenges[n - 1],
            ),
        )
    }
}

/// The sum of the values at a point of the prover polynomials of the first
/// `n` partial solutions, each multiplied by the challenge at its place.
pub open spec fn spec_accumulated_evaluation<N: PairingEngine>(
    epoch_challenge: EpochChallenge,
    solutions: Seq<PartialSolution>,
    challenges: Seq<Field>,
    point: Field,
    n: nat,
) -> Field
    decreases n,
{
    if n == 0 {
        Field { l0: 0, l1: 0, l2: 0, l3: 0 }
    } else {
        N::field_sum(
            spec_accumulated_evaluation::<N>(
                epoch_challenge,
                solutions,
                challenges,
                point,
                (n - 1) as nat,
            ),
            N::field_product(
                spec_evaluate::<N>(
                    spec_prover_polynomial::<N>(
                        epoch_challenge.epoch_number,
                        epoch_challenge.epoch_block_hash,
                        epoch_challenge.degree,
                        solutions[n - 1].address,
                        solutions[n - 1].nonce,
                    ),
                    point,
                ),
                challenges[n - 1],
            ),
        )
    }
}

/// The evaluations over the product domain of the product of a polynomial
/// and the epoch polynomial.
pub open spec fn spec_product_evaluations<N: PairingEngine>(
    size: u64,
    polynomial: Seq<Field>,
    epoch_challenge: EpochChallenge,
) -> Seq<Field> {
    N::spec_mul_polynomials_in_evaluation_domain(
        size,
        N::spec_fft(size, polynomial),
        epoch_challenge.epoch_polynomial_evaluations@,
    )
}

/// The value at a point of the product of a polynomial and the epoch polynomial.
pub open spec fn spec_product_evaluation<N: PairingEngine>(
    polynomial: Seq<Field>,
    epoch_challenge: EpochChallenge,
    point: Field,
) -> Field {
    N::field_product(
        spec_evaluate::<N>(polynomial, point),
        spec_evaluate::<N>(epoch_challenge.epoch_polynomial@, point),
    )
}

/// The prover solution that is made from the evaluations of the product
/// polynomial, or the error that proving fails with: the commitment must
/// meet the minimum target where one is given, and the opening at the
/// point that the commitment is hashed to must not be hiding.
pub open spec fn spec_prove_inner<N: PairingEngine>(
    pk: CoinbaseProvingKey,
    polynomial: Seq<Field>,
    epoch_challenge: EpochChallenge,
    address: Address,
    nonce: u64,
    minimum_proof_target: Option<u64>,
    product_evaluations: Seq<Field>,
) -> Result<ProverSolution, PuzzleError> {
    match N::spec_commit_lagrange(pk.lagrange_basis_at_beta_g@, product_evaluations) {
        None => Err(PuzzleError::Primitive),
        Some(point) => {
            let commitment = KZGCommitment { point };
            if minimum_proof_target matches Some(minimum_target) && spec_to_target(commitment)
                < minimum_target {
                Err(
                    PuzzleError::BelowTarget {
                        proof_target: spec_to_target(commitment),
                        minimum_target: minimum_proof_target.unwrap(),
                    },
                )
            } else {
                match N::spec_hash_commitment(point) {
                    None => Err(PuzzleError::Primitive),
                    Some(at) => match N::spec_open_lagrange(
                        pk.lagrange_basis_at_beta_g@,
                        pk.product_domain_elements@,
                        product_evaluations,
                        at,
                        spec_product_evaluation::<N>(polynomial, epoch_challenge, at),
                    ) {
                        None => Err(PuzzleError::Primitive),
                        Some(proof) => if proof.random_v is Some {
                            Err(PuzzleError::HidingProof)
                        } else {
                            Ok(
                                ProverSolution {
                                    partial_solution: PartialSolution { address, nonce, commitment },
                                    proof,
                                },
                            )
                        },
                    },
                }
            }
        },
    }
}

/// The prover solution for an epoch, an address and a nonce, or the error
/// that proving fails with.
pub open spec fn spec_prove<N: PairingEngine>(
    puzzle: CoinbasePuzzle,
    epoch_challenge: EpochChallenge,
    address: Address,
    nonce: u64,
    minimum_proof_target: Option<u64>,
) -> Result<ProverSolution, PuzzleError> {
    match puzzle {
        CoinbasePuzzle::Verifier(_) => Err(PuzzleError::CannotProveWithVerifier),
        CoinbasePuzzle::Prover(pk) => {
            let polynomial = spec_prover_polynomial::<N>(
                epoch_challenge.epoch_number,
                epoch_challenge.epoch_block_hash,
                epoch_challenge.degree,
                address,
                nonce,
            );
            spec_prove_inner::<N>(
                pk,
                polynomial,
                epoch_challenge,
                address,
                nonce,
                minimum_proof_target,
                spec_product_evaluations::<N>(pk.product_domain.size, polynomial, epoch_challenge),
            )
        },
    }
}

/// The partial solutions and the proof of the coinbase solution that
/// accumulating gives, or the error that it fails with. The prover solutions
/// are not checked against a proof target.
pub open spec fn spec_accumulate<N: PairingEngine>(
    puzzle: CoinbasePuzzle,
    epoch_challenge: EpochChallenge,
    prover_solutions: Seq<ProverSolution>,
) -> Result<(Seq<PartialSolution>, KZGProof), PuzzleError> {
    if prover_solutions.len() == 0 {
        Err(PuzzleError::NoProverSolutions)
    } else if prover_solutions.len() > N::MAX_PROVER_SOLUTIONS {
        Err(PuzzleError::TooManyProverSolutions { found: prover_solutions.len() as usize })
    } else {
        match puzzle {
            CoinbasePuzzle::Verifier(_) => Err(PuzzleError::CannotAccumulateWithVerifier),
            CoinbasePuzzle::Prover(pk) => if has_duplicate_solutions(prover_solutions) {
                Err(PuzzleError::DuplicateProverSolutions)
            } else {
                let partial_solutions = non_hiding(prover_solutions);
                match N::spec_hash_commitments(commitment_points(partial_solutions)) {
                    None => Err(PuzzleError::Primitive),
                    Some(challenges) => if challenges.len() != partial_solutions.len() + 1 {
                        Err(PuzzleError::InvalidChallengePoints)
                    } else {
                        let accumulator_point = challenges.last();
                        let accumulated = spec_accumulated_polynomial::<N>(
                            epoch_challenge,
                            partial_solutions,
                            challenges,
                            partial_solutions.len(),
                        );
                        match N::spec_open_lagrange(
                            pk.lagrange_basis_at_beta_g@,
                            pk.product_domain_elements@,
                            spec_product_evaluations::<N>(
                                pk.product_domain.size,
                                accumulated,
                                epoch_challenge,
                            ),
                            accumulator_point,
                            spec_product_evaluation::<N>(
                                accumulated,
                                epoch_challenge,
                                accumulator_point,
                            ),
                        ) {
                            None => Err(PuzzleError::Primitive),
                            Some(proof) => if proof.random_v is Some {
                                Err(PuzzleError::HidingProof)
                            } else {
                                Ok((partial_solutions, proof))
                            },
                        }
                    },
                }
            },
        }
    }
}

/// Whether each of the first `n` partial solutions meets the proof target.
pub open spec fn all_meet_target(solutions: Seq<PartialSolution>, proof_target: u64, n: nat) -> bool {
    forall|i: int| 0 <= i < n ==> spec_to_target(#[trigger] solutions[i].commitment) >= proof_target
}

/// The verifying key of a puzzle.
pub open spec fn spec_verifying_key(puzzle: CoinbasePuzzle) -> CoinbaseVerifyingKey {
    match puzzle {
        CoinbasePuzzle::Prover(pk) => pk.verifying_key,
        CoinbasePuzzle::Verifier(vk) => vk,
    }
}

/// Whether a coinbase solution is valid, or the error that it is refused
/// with: a solution that is empty, too long, hiding, below the coinbase
/// target, with a commitment twice, or with a partial solution below the
/// proof target is an error.
pub open spec fn spec_verify<N: PairingEngine>(
    puzzle: CoinbasePuzzle,
    partial_solutions: Seq<PartialSolution>,
    proof: KZGProof,
    epoch_challenge: EpochChallenge,
    coinbase_target: u64,
    proof_target: u64,
) -> Result<bool, PuzzleError> {
    if partial_solutions.len() == 0 {
        Err(PuzzleError::NoPartialSolutions)
    } else if partial_solutions.len() > N::MAX_PROVER_SOLUTIONS {
        Err(PuzzleError::TooManyPartialSolutions { found: partial_solutions.len() as usize })
    } else if proof.random_v is Some {
        Err(PuzzleError::HidingProof)
    } else if spec_cumulative_target(partial_solutions) > u128::MAX {
        Err(PuzzleError::TargetOverflow)
    } else if spec_cumulative_target(partial_solutions) < coinbase_target {
        Err(PuzzleError::BelowCoinbaseTarget)
    } else if has_duplicate_commitments(partial_solutions) {
        Err(PuzzleError::DuplicateCommitments)
    } else if !all_meet_target(partial_solutions, proof_target, partial_solutions.len()) {
        Err(PuzzleError::BelowProofTarget)
    } else {
        match N::spec_hash_commitments(commitment_points(partial_solutions)) {
            None => Err(PuzzleError::Primitive),
            Some(challenge_points) => if challenge_points.len() != partial_solutions.len() + 1 {
                Err(PuzzleError::InvalidChallengePoints)
            } else {
                let accumulator_point = challenge_points.last();
                let accumulator_evaluation = N::field_product(
                    spec_accumulated_evaluation::<N>(
                        epoch_challenge,
                        partial_solutions,
                        challenge_points,
                        accumulator_point,
                        partial_solutions.len(),
                    ),
                    spec_evaluate::<N>(epoch_challenge.epoch_polynomial@, accumulator_point),
                );
                let accumulator_commitment = N::spec_msm(
                    commitment_points(partial_solutions),
                    challenge_points.drop_last(),
                );
                match N::spec_check(
                    spec_verifying_key(puzzle),
                    accumulator_commitment,
                    accumulator_point,
                    accumulator_evaluation,
                    proof,
                ) {
                    None => Err(PuzzleError::Primitive),
                    Some(valid) => Ok(valid),
                }
            },
        }
    }
}

/// Tells whether two prover solutions of a list are equal.
pub fn find_duplicate_solutions(solutions: &Vec<ProverSolution>) -> (r: bool)
    ensures
        r == has_duplicate_solutions(solutions@),
{
    let mut j: usize = 0;
    while j < solutions.len()
        invariant
            j <= solutions.len(),
            forall|a: int, b: int| 0 <= a < b < j ==> solutions@[a] != solutions@[b],
        decreases solutions.len() - j,
    {
        let mut i: usize = 0;
        while i < j
            invariant
                i <= j < solutions.len(),
                forall|a: int| 0 <= a < i ==> solutions@[a] != solutions@[j as int],
            decreases j - i,
        {
            if solutions[i] == solutions[j] {
                return true;
            }
            i += 1;
        }
        j += 1;
    }
    false
}

/// Tells whether two partial solutions of a list hold the same commitment.
pub fn find_duplicate_commitments(solutions: &Vec<PartialSolution>) -> (r: bool)
    ensures
        r == has_duplicate_commitments(solutions@),
{
    let mut j: usize = 0;
    while j < solutions.len()
        invariant
            j <= solutions.len(),
            forall|a: int, b: int|
                0 <= a < b < j ==> solutions@[a].commitment != solutions@[b].commitment,
        decreases solutions.len() - j,
    {
        let mut i: usize = 0;
        while i < j
            invariant
                i <= j < solutions.len(),
                forall|a: int|
                    0 <= a < i ==> solutions@[a].commitment != solutions@[j as int].commitment,
            decreases j - i,
        {
            if solutions[i].commitment == solutions[j].commitment {
                return true;
            }
            i += 1;
        }
        j += 1;
    }
    false
}

/// Makes the prover solution from the evaluations of the product polynomial.
pub fn prove_ex_inner<N: PairingEngine>(
    pk: &CoinbaseProvingKey,
    polynomial: &Vec<Field>,
    epoch_challenge: &EpochChallenge,
    address: &Address,
    nonce: u64,
    minimum_proof_target: Option<u64>,
    product_evaluations: &Vec<Field>,
) -> (r: Result<ProverSolution, PuzzleError>)
    ensures
        r == spec_prove_inner::<N>(
            *pk,
            polynomial@,
            *epoch_challenge,
            *address,
            nonce,
            minimum_proof_target,
            product_evaluations@,
        ),
{
    let commitment = match N::commit_lagrange(pk.lagrange_basis(), product_evaluations) {
        Some(commitment) => commitment,
        None => return Err(PuzzleError::Primitive),
    };

    let partial_solution = PartialSolution::new(*address, nonce, commitment);

    // Check that the minimum target is met.
    if let Some(minimum_target) = minimum_proof_target {
        let proof_target = partial_solution.to_target();
        if proof_target < minimum_target {
            return Err(PuzzleError::BelowTarget { proof_target, minimum_target });
        }
    }

    let point = match N::hash_commitment(&commitment) {
        Some(point) => point,
        None => return Err(PuzzleError::Primitive),
    };
    let product_eval_at_point = N::field_mul(
        &evaluate_polynomial::<N>(polynomial, &point),
        &evaluate_polynomial::<N>(epoch_challenge.epoch_polynomial(), &point),
    );

    let proof = match N::open_lagrange(
        pk.lagrange_basis(),
        pk.product_domain_elements(),
        product_evaluations,
        point,
        product_eval_at_point,
    ) {
        Some(proof) => proof,
        None => return Err(PuzzleError::Primitive),
    };
    if proof.is_hiding() {
        return Err(PuzzleError::HidingProof);
    }

    Ok(ProverSolution::new(partial_solution, proof))
}

impl CoinbasePuzzle {
    /// Checks that the degree for the epoch and prover polynomial is within bounds,
    /// and returns the evaluation domain for the product polynomial: the
    /// least power of two that holds `2 * degree + 1` coefficients.
    pub fn product_domain<N: PairingEngine>(degree: u32) -> (r: Result<
        EvaluationDomain,
        PuzzleError,
    >)
        ensures
            match r {
                Ok(domain) => domain_error::<N>(degree) is None && least_power_of_two(
                    domain.size,
                    domain.log_size_of_group,
                    2 * degree + 1,
                ),
                Err(e) => domain_error::<N>(degree) == Some(e),
            },
    {
        if degree == 0 {
            return Err(PuzzleError::DegreeZero);
        }
        let num_coefficients = match degree.checked_add(1) {
            Some(num_coefficients) => num_coefficients,
            None => return Err(PuzzleError::DegreeTooLarge),
        };
        let product_num_coefficients = match num_coefficients.checked_mul(2) {
            Some(twice) => twice - 1,
            None => return Err(PuzzleError::DegreeTooLarge),
        };
        assert(product_num_coefficients == 2 * degree + 1);
        let (size, log_size_of_group) = next_power_of_two(product_num_coefficients);
        proof {
            assert forall|other: u64, log: u32| #[trigger]
                least_power_of_two(other, log, 2 * degree + 1) implies log
                == log_size_of_group by {
                lemma_least_power_of_two_unique(
                    size,
                    log_size_of_group,
                    other,
                    log,
                    2 * degree + 1,
                );
            }
        }
        if log_size_of_group > N::TWO_ADICITY {
            return Err(PuzzleError::InvalidDegree);
        }
        Ok(EvaluationDomain { size, log_size_of_group })
    }

    /// The number of powers that the reference string of a puzzle needs: the
    /// product of two polynomials of degree `n` has degree `2n - 1`.
    pub fn setup_degree(config: PuzzleConfig) -> (r: Option<u32>)
        ensures
            match r {
                Some(total_degree) => total_degree == 2 * config.degree - 1,
                None => config.degree == 0 || 2 * config.degree > u32::MAX,
            },
    {
        match config.degree.checked_mul(2) {
            Some(twice) => if twice == 0 {
                None
            } else {
                Some(twice - 1)
            },
            None => None,
        }
    }

    /// Cuts the proving and verifying keys of the puzzle from the reference string.
    pub fn trim<N: PairingEngine>(srs: &UniversalSrs, config: PuzzleConfig) -> (r: Result<
        CoinbasePuzzle,
        PuzzleError,
    >)
        ensures
            match r {
                Ok(puzzle) => is_trimmed::<N>(*srs, config.degree, puzzle),
                Err(e) => is_trim_error::<N>(*srs, config.degree, e),
            },
    {
        // As above, we must support committing to the product of two degree `n` polynomials.
        // Thus, the SRS must support committing to a polynomial of degree `2n - 1`.
        // Since the upper bound to `srs.powers_of_beta_g` takes as input the number
        // of coefficients. The degree of the product has `2n - 1` coefficients.
        //
        // Hence, we request the powers of beta for the interval [0, 2n].
        let product_domain = match Self::product_domain::<N>(config.degree) {
            Ok(product_domain) => product_domain,
            Err(e) => return Err(e),
        };
        proof {
            assert forall|size: u64, log: u32| #[trigger]
                least_power_of_two(size, log, 2 * config.degree + 1) implies size
                == product_domain.size by {
                lemma_least_power_of_two_unique(
                    product_domain.size,
                    product_domain.log_size_of_group,
                    size,
                    log,
                    2 * config.degree + 1,
                );
            }
        }

        let lagrange_basis_at_beta_g = match N::lagrange_basis(
            &srs.powers_of_beta_g,
            product_domain.size,
        ) {
            Some(basis) => basis,
            None => return Err(PuzzleError::Primitive),
        };
        let product_domain_elements = N::domain_elements(product_domain.size);

        if srs.powers_of_beta_g.len() == 0 {
            return Err(PuzzleError::MissingPowers);
        }
        let vk = CoinbaseVerifyingKey {
            g: srs.powers_of_beta_g[0],
            // We don't use gamma_g later on since we are not hiding.
            gamma_g: G1Affine::zero(),
            h: srs.h,
            beta_h: srs.beta_h,
        };

        let pk = CoinbaseProvingKey {
            product_domain,
            product_domain_elements,
            lagrange_basis_at_beta_g,
            verifying_key: vk,
        };

        Ok(CoinbasePuzzle::Prover(pk))
    }

    /// Returns the coinbase proving key.
    pub fn coinbase_proving_key(&self) -> (r: Result<&CoinbaseProvingKey, PuzzleError>)
        ensures
            match self {
                CoinbasePuzzle::Prover(pk) => r == Ok::<&CoinbaseProvingKey, PuzzleError>(pk),
                CoinbasePuzzle::Verifier(_) => r == Err::<&CoinbaseProvingKey, PuzzleError>(
                    PuzzleError::CannotFetchProvingKey,
                ),
            },
    {
        match self {
            Self::Prover(coinbase_proving_key) => Ok(coinbase_proving_key),
            Self::Verifier(_) => Err(PuzzleError::CannotFetchProvingKey),
        }
    }

    /// Returns the coinbase verifying key.
    pub fn coinbase_verifying_key(&self) -> (r: &CoinbaseVerifyingKey)
        ensures
            *r == spec_verifying_key(*self),
    {
        match self {
            Self::Prover(coinbase_proving_key) => &coinbase_proving_key.verifying_key,
            Self::Verifier(coinbase_verifying_key) => coinbase_verifying_key,
        }
    }
}

/// The error that a degree is refused with, if it is refused: a degree of
/// zero, a degree whose product polynomial has more coefficients than 32
/// bits count, or one whose product domain is larger than the field allows.
pub open spec fn domain_error<N: PairingEngine>(degree: u32) -> Option<PuzzleError> {
    if degree == 0 {
        Some(PuzzleError::DegreeZero)
    } else if 2 * degree + 2 > u32::MAX {
        Some(PuzzleError::DegreeTooLarge)
    } else if forall|size: u64, log: u32| #[trigger]
        least_power_of_two(size, log, 2 * degree + 1) ==> log > N::TWO_ADICITY {
        Some(PuzzleError::InvalidDegree)
    } else {
        None
    }
}

/// Whether a puzzle holds the keys that are cut from a reference string for
/// a degree: the product domain of the degree, the Lagrange basis over the
/// domain, the elements of the domain, and the verifying key, which is not
/// hiding.
pub open spec fn is_trimmed<N: PairingEngine>(
    srs: UniversalSrs,
    degree: u32,
    puzzle: CoinbasePuzzle,
) -> bool {
    match puzzle {
        CoinbasePuzzle::Verifier(_) => false,
        CoinbasePuzzle::Prover(pk) => {
            &&& domain_error::<N>(degree) is None
            &&& least_power_of_two(
                pk.product_domain.size,
                pk.product_domain.log_size_of_group,
                2 * degree + 1,
            )
            &&& srs.powers_of_beta_g@.len() > 0
            &&& N::spec_lagrange_basis(srs.powers_of_beta_g@, pk.product_domain.size) == Some(
                pk.lagrange_basis_at_beta_g@,
            )
            &&& pk.product_domain_elements@ == N::spec_domain_elements(pk.product_domain.size)
            &&& pk.verifying_key == (CoinbaseVerifyingKey {
                g: srs.powers_of_beta_g@[0],
                gamma_g: G1Affine { l0: 0, l1: 0, l2: 0, l3: 0, l4: 0, l5: 0 },
                h: srs.h,
                beta_h: srs.beta_h,
            })
        },
    }
}

/// Whether cutting the keys fails with the given error: that of the degree,
/// or that the Lagrange basis is refused, or else that the reference string
/// holds no power.
pub open spec fn is_trim_error<N: PairingEngine>(
    srs: UniversalSrs,
    degree: u32,
    e: PuzzleError,
) -> bool {
    match domain_error::<N>(degree) {
        Some(refused) => e == refused,
        None => forall|size: u64, log: u32| #[trigger]
            least_power_of_two(size, log, 2 * degree + 1) ==> (if N::spec_lagrange_basis(
                srs.powers_of_beta_g@,
                size,
            ) is None {
                e == PuzzleError::Primitive
            } else {
                e == PuzzleError::MissingPowers && srs.powers_of_beta_g@.len() == 0
            }),
    }
}

/// The least power of two that is at least `n` is one number.
pub proof fn lemma_least_power_of_two_unique(size: u64, log: u32, other: u64, other_log: u32, n: int)
    requires
        least_power_of_two(size, log, n),
        least_power_of_two(other, other_log, n),
    ensures
        size == other,
        log == other_log,
{
    if log < other_log {
        if log < other_log - 1 {
            lemma_pow2_strictly_increases(log as nat, (other_log - 1) as nat);
        }
    } else if other_log < log {
        if other_log < log - 1 {
            lemma_pow2_strictly_increases(other_log as nat, (log - 1) as nat);
        }
    }
}

/// Among the first `n` solutions, one below the proof target keeps all from
/// meeting it.
pub proof fn lemma_all_meet_target_prefix(solutions: Seq<PartialSolution>, proof_target: u64, n: nat)
    requires
        n <= solutions.len(),
        !all_meet_target(solutions, proof_target, n),
    ensures
        !all_meet_target(solutions, proof_target, solutions.len()),
{
}

/// No more solutions are kept than were given.
pub proof fn lemma_non_hiding_len(solutions: Seq<ProverSolution>)
    ensures
        non_hiding(solutions).len() <= solutions.len(),
    decreases solutions.len(),
{
    if solutions.len() > 0 {
        lemma_non_hiding_len(solutions.drop_last());
    }
}

impl CoinbasePuzzle {
    /// Load the coinbase puzzle proving and verifying keys: trims the
    /// universal reference string to the degree of the network's puzzle.
    pub fn load<N: PairingEngine>(universal_srs: &UniversalSrs) -> (r: Result<
        CoinbasePuzzle,
        PuzzleError,
    >)
        ensures
            match r {
                Ok(puzzle) => is_trimmed::<N>(*universal_srs, N::COINBASE_PUZZLE_DEGREE, puzzle),
                Err(e) => is_trim_error::<N>(*universal_srs, N::COINBASE_PUZZLE_DEGREE, e),
            },
    {
        let max_degree = N::COINBASE_PUZZLE_DEGREE;
        // Trim the universal SRS to the maximum degree.
        Self::trim::<N>(universal_srs, PuzzleConfig { degree: max_degree })
    }

    /// Returns a prover solution to the coinbase puzzle.
    pub fn prove<N: PairingEngine>(
        &self,
        epoch_challenge: &EpochChallenge,
        address: Address,
        nonce: u64,
        minimum_proof_target: Option<u64>,
    ) -> (r: Result<ProverSolution, PuzzleError>)
        ensures
            r == spec_prove::<N>(*self, *epoch_challenge, address, nonce, minimum_proof_target),
    {
        // Retrieve the coinbase proving key.
        let pk = match self {
            Self::Prover(coinbase_proving_key) => coinbase_proving_key,
            Self::Verifier(_) => return Err(PuzzleError::CannotProveWithVerifier),
        };

        let polynomial = prover_polynomial::<N>(epoch_challenge, address, nonce);

        let product_evaluations = {
            let polynomial_evaluations = N::in_order_fft(pk.product_domain.size, &polynomial);
            N::mul_polynomials_in_evaluation_domain(
                pk.product_domain.size,
                &polynomial_evaluations,
                epoch_challenge.epoch_polynomial_evaluations(),
            )
        };

        prove_ex_inner::<N>(
            pk,
            &polynomial,
            epoch_challenge,
            &address,
            nonce,
            minimum_proof_target,
            &product_evaluations,
        )
    }

    /// Returns a coinbase solution for the given epoch challenge and prover solutions.
    ///
    /// # Note
    /// This method does *not* check that the prover solutions are valid.
    pub fn accumulate_unchecked<N: PairingEngine>(
        &self,
        epoch_challenge: &EpochChallenge,
        prover_solutions: &Vec<ProverSolution>,
    ) -> (r: Result<CoinbaseSolution, PuzzleError>)
        ensures
            match r {
                Ok(solution) => spec_accumulate::<N>(*self, *epoch_challenge, prover_solutions@)
                    == Ok::<(Seq<PartialSolution>, KZGProof), PuzzleError>(
                    (solution.partial_solutions@, solution.proof),
                ),
                Err(e) => spec_accumulate::<N>(*self, *epoch_challenge, prover_solutions@) == Err::<
                    (Seq<PartialSolution>, KZGProof),
                    PuzzleError,
                >(e),
            },
    {
        // Ensure there exists prover solutions.
        if prover_solutions.len() == 0 {
            return Err(PuzzleError::NoProverSolutions);
        }
        // Ensure the number of prover solutions does not exceed `MAX_PROVER_SOLUTIONS`.
        if prover_solutions.len() > N::MAX_PROVER_SOLUTIONS {
            return Err(PuzzleError::TooManyProverSolutions { found: prover_solutions.len() });
        }
        // Retrieve the coinbase proving key.
        let pk = match self {
            Self::Prover(coinbase_proving_key) => coinbase_proving_key,
            Self::Verifier(_) => return Err(PuzzleError::CannotAccumulateWithVerifier),
        };
        if find_duplicate_solutions(prover_solutions) {
            return Err(PuzzleError::DuplicateProverSolutions);
        }

        // Keep the solutions whose proof is not hiding.
        let mut partial_solutions: Vec<PartialSolution> = Vec::new();
        let mut i: usize = 0;
        assert(prover_solutions@.take(0) =~= Seq::<ProverSolution>::empty());
        while i < prover_solutions.len()
            invariant
                i <= prover_solutions.len(),
                partial_solutions@ == non_hiding(prover_solutions@.take(i as int)),
            decreases prover_solutions.len() - i,
        {
            let solution = &prover_solutions[i];
            proof {
                let next = prover_solutions@.take(i + 1);
                assert(next.drop_last() =~= prover_solutions@.take(i as int));
                assert(next.last() == prover_solutions@[i as int]);
            }
            if !solution.kzg_proof().is_hiding() {
                partial_solutions.push(
                    PartialSolution::new(
                        solution.address(),
                        solution.nonce(),
                        solution.commitment(),
                    ),
                );
            }
            i += 1;
        }
        assert(prover_solutions@.take(i as int) =~= prover_solutions@);

        // Compute the challenge points.
        let commitments = commitments_of(&partial_solutions);
        let mut challenges = match N::hash_commitments(&commitments) {
            Some(challenges) => challenges,
            None => return Err(PuzzleError::Primitive),
        };
        if challenges.len() == 0 || challenges.len() - 1 != partial_solutions.len() {
            return Err(PuzzleError::InvalidChallengePoints);
        }
        let ghost all_challenges = challenges@;

        // Pop the last challenge as the accumulator challenge point.
        let accumulator_point = match challenges.pop() {
            Some(point) => point,
            None => return Err(PuzzleError::InvalidChallengePoints),
        };

        // Construct the provers polynomial.
        let mut accumulated_prover_polynomial: Vec<Field> = Vec::new();
        let mut k: usize = 0;
        while k < partial_solutions.len()
            invariant
                k <= partial_solutions.len(),
                challenges@.len() == partial_solutions.len(),
                challenges@ == all_challenges.drop_last(),
                all_challenges.len() == partial_solutions.len() + 1,
                accumulated_prover_polynomial@ == spec_accumulated_polynomial::<N>(
                    *epoch_challenge,
                    partial_solutions@,
                    all_challenges,
                    k as nat,
                ),
            decreases partial_solutions.len() - k,
        {
            let prover_polynomial = partial_solutions[k].to_prover_polynomial::<N>(epoch_challenge);
            let scaled = scale_polynomial::<N>(&prover_polynomial, &challenges[k]);
            accumulated_prover_polynomial = add_polynomials::<N>(&accumulated_prover_polynomial, &scaled);
            k += 1;
        }
        let product_eval_at_challenge_point = N::field_mul(
            &evaluate_polynomial::<N>(&accumulated_prover_polynomial, &accumulator_point),
            &evaluate_polynomial::<N>(epoch_challenge.epoch_polynomial(), &accumulator_point),
        );

        // Compute the accumulator polynomial.
        let product_evals = {
            let accumulated_polynomial_evaluations = N::in_order_fft(
                pk.product_domain.size,
                &accumulated_prover_polynomial,
            );
            N::mul_polynomials_in_evaluation_domain(
                pk.product_domain.size,
                &accumulated_polynomial_evaluations,
                epoch_challenge.epoch_polynomial_evaluations(),
            )
        };

        // Compute the coinbase proof.
        let proof = match N::open_lagrange(
            pk.lagrange_basis(),
            pk.product_domain_elements(),
            &product_evals,
            accumulator_point,
            product_eval_at_challenge_point,
        ) {
            Some(proof) => proof,
            None => return Err(PuzzleError::Primitive),
        };

        // Ensure the coinbase proof is non-hiding.
        if proof.is_hiding() {
            return Err(PuzzleError::HidingProof);
        }

        // Return the accumulated proof.
        Ok(CoinbaseSolution::new(partial_solutions, proof))
    }

    /// Returns `true` if the coinbase solution is valid.
    pub fn verify<N: PairingEngine>(
        &self,
        coinbase_solution: &CoinbaseSolution,
        epoch_challenge: &EpochChallenge,
        coinbase_target: u64,
        proof_target: u64,
    ) -> (r: Result<bool, PuzzleError>)
        ensures
            r == spec_verify::<N>(
                *self,
                coinbase_solution.partial_solutions@,
                coinbase_solution.proof,
                *epoch_challenge,
                coinbase_target,
                proof_target,
            ),
    {
        // Ensure the coinbase solution is not empty.
        if coinbase_solution.is_empty() {
            return Err(PuzzleError::NoPartialSolutions);
        }
        // Ensure the number of partial solutions does not exceed `MAX_PROVER_SOLUTIONS`.
        if coinbase_solution.len() > N::MAX_PROVER_SOLUTIONS {
            return Err(PuzzleError::TooManyPartialSolutions { found: coinbase_solution.len() });
        }
        // Ensure the coinbase proof is non-hiding.
        if coinbase_solution.kzg_proof().is_hiding() {
            return Err(PuzzleError::HidingProof);
        }
        // Ensure the coinbase proof meets the required coinbase target.
        match coinbase_solution.to_cumulative_proof_target() {
            None => return Err(PuzzleError::TargetOverflow),
            Some(cumulative) => if cumulative < coinbase_target as u128 {
                return Err(PuzzleError::BelowCoinbaseTarget);
            },
        }
        // Ensure the puzzle commitments are unique.
        if find_duplicate_commitments(coinbase_solution.partial_solutions()) {
            return Err(PuzzleError::DuplicateCommitments);
        }
        let solutions = coinbase_solution.partial_solutions();

        // Ensure that each of the prover solutions meets the required proof target.
        let mut i: usize = 0;
        while i < solutions.len()
            invariant
                i <= solutions.len(),
                solutions@ == coinbase_solution.partial_solutions@,
                0 < solutions@.len() <= N::MAX_PROVER_SOLUTIONS,
                coinbase_solution.proof.random_v is None,
                coinbase_target <= spec_cumulative_target(solutions@) <= u128::MAX,
                !has_duplicate_commitments(solutions@),
                all_meet_target(solutions@, proof_target, i as nat),
            decreases solutions.len() - i,
        {
            if solutions[i].to_target() < proof_target {
                proof {
                    assert(!all_meet_target(solutions@, proof_target, (i + 1) as nat)) by {
                        assert(spec_to_target(solutions@[i as int].commitment) < proof_target);
                    }
                    lemma_all_meet_target_prefix(solutions@, proof_target, (i + 1) as nat);
                }
                return Err(PuzzleError::BelowProofTarget);
            }
            i += 1;
        }

        // Compute the challenge points.
        let commitments = commitments_of(solutions);
        let mut challenge_points = match N::hash_commitments(&commitments) {
            Some(challenge_points) => challenge_points,
            None => return Err(PuzzleError::Primitive),
        };
        if challenge_points.len() == 0 || challenge_points.len() - 1 != solutions.len() {
            return Err(PuzzleError::InvalidChallengePoints);
        }
        let ghost all_points = challenge_points@;

        // Pop the last challenge point as the accumulator challenge point.
        let accumulator_point = match challenge_points.pop() {
            Some(point) => point,
            None => return Err(PuzzleError::InvalidChallengePoints),
        };

        // Compute the accumulator evaluation.
        let mut accumulator_evaluation = Field::zero();
        let mut k: usize = 0;
        while k < solutions.len()
            invariant
                k <= solutions.len(),
                solutions@ == coinbase_solution.partial_solutions@,
                challenge_points@.len() == solutions.len(),
                challenge_points@ == all_points.drop_last(),
                all_points.len() == solutions.len() + 1,
                accumulator_evaluation == spec_accumulated_evaluation::<N>(
                    *epoch_challenge,
                    solutions@,
                    all_points,
                    accumulator_point,
                    k as nat,
                ),
            decreases solutions.len() - k,
        {
            let prover_polynomial = solutions[k].to_prover_polynomial::<N>(epoch_challenge);
            accumulator_evaluation = N::field_add(
                &accumulator_evaluation,
                &N::field_mul(
                    &evaluate_polynomial::<N>(&prover_polynomial, &accumulator_point),
                    &challenge_points[k],
                ),
            );
            k += 1;
        }
        accumulator_evaluation = N::field_mul(
            &accumulator_evaluation,
            &evaluate_polynomial::<N>(epoch_challenge.epoch_polynomial(), &accumulator_point),
        );

        // Compute the accumulator commitment.
        let accumulator_commitment = KZGCommitment { point: N::msm(&commitments, &challenge_points) };

        // Retrieve the coinbase verifying key.
        let coinbase_verifying_key = self.coinbase_verifying_key();

        // Return the verification result.
        match N::check(
            coinbase_verifying_key,
            &accumulator_commitment,
            accumulator_point,
            accumulator_evaluation,
            &coinbase_solution.kzg_proof(),
        ) {
            Some(valid) => Ok(valid),
            None => Err(PuzzleError::Primitive),
        }
    }
}

/// Cumulative target: a coinbase solution that accumulating gives, with at
/// least one partial solution, whose targets sum below the coinbase target is
/// refused by the check of the cumulative target.
pub proof fn law_cumulative_target_is_checked<N: PairingEngine>(
    puzzle: CoinbasePuzzle,
    verifier: CoinbasePuzzle,
    epoch_challenge: EpochChallenge,
    prover_solutions: Seq<ProverSolution>,
    coinbase_target: u64,
    proof_target: u64,
)
    requires
        spec_accumulate::<N>(puzzle, epoch_challenge, prover_solutions) matches Ok(solution)
            && solution.0.len() > 0 && spec_cumulative_target(solution.0) < coinbase_target,
    ensures
        spec_verify::<N>(
            verifier,
            spec_accumulate::<N>(puzzle, epoch_challenge, prover_solutions).unwrap().0,
            spec_accumulate::<N>(puzzle, epoch_challenge, prover_solutions).unwrap().1,
            epoch_challenge,
            coinbase_target,
            proof_target,
        ) == Err::<bool, PuzzleError>(PuzzleError::BelowCoinbaseTarget),
{
    lemma_non_hiding_len(prover_solutions);
}

/// Soundness, duplicates: a coinbase solution that holds one commitment
/// twice is refused.
pub proof fn law_duplicate_commitment_is_refused<N: PairingEngine>(
    puzzle: CoinbasePuzzle,
    partial_solutions: Seq<PartialSolution>,
    proof: KZGProof,
    epoch_challenge: EpochChallenge,
    coinbase_target: u64,
    proof_target: u64,
)
    requires
        has_duplicate_commitments(partial_solutions),
    ensures
        spec_verify::<N>(
            puzzle,
            partial_solutions,
            proof,
            epoch_challenge,
            coinbase_target,
            proof_target,
        ) is Err,
{
}

/// Soundness, duplicates: prover solutions of which two are equal are not
/// accumulated.
pub proof fn law_duplicate_solution_is_refused<N: PairingEngine>(
    puzzle: CoinbasePuzzle,
    epoch_challenge: EpochChallenge,
    prover_solutions: Seq<ProverSolution>,
)
    requires
        has_duplicate_solutions(prover_solutions),
    ensures
        spec_accumulate::<N>(puzzle, epoch_challenge, prover_solutions) is Err,
{
}

/// Whether an epoch challenge is that of an epoch number, an epoch block
/// hash and a degree: its polynomial is hashed from the number and the hash,
/// and evaluated over the product domain of the degree.
pub open spec fn is_epoch_challenge<N: PairingEngine>(
    epoch_number: u32,
    epoch_block_hash: Field,
    degree: u32,
    challenge: EpochChallenge,
) -> bool {
    &&& domain_error::<N>(degree) is None
    &&& challenge.epoch_number == epoch_number
    &&& challenge.epoch_block_hash == epoch_block_hash
    &&& challenge.degree == degree
    &&& challenge.epoch_polynomial@ == N::spec_hash_to_polynomial(
        crate::coinbase_puzzle::helpers::epoch_input(epoch_number, epoch_block_hash),
        degree,
    )
    &&& forall|size: u64, log: u32| #[trigger]
        least_power_of_two(size, log, 2 * degree + 1)
            ==> challenge.epoch_polynomial_evaluations@ == N::spec_fft(
            size,
            challenge.epoch_polynomial@,
        )
}

impl EpochChallenge {
    /// Initializes a new epoch challenge: the epoch polynomial is hashed
    /// from the epoch number and the epoch block hash, and evaluated over
    /// the product domain of the degree.
    pub fn new<N: PairingEngine>(epoch_number: u32, epoch_block_hash: Field, degree: u32) -> (r:
        Result<EpochChallenge, PuzzleError>)
        ensures
            match r {
                Ok(challenge) => is_epoch_challenge::<N>(
                    epoch_number,
                    epoch_block_hash,
                    degree,
                    challenge,
                ),
                Err(e) => domain_error::<N>(degree) == Some(e),
            },
    {
        // Construct the 'input' as '( epoch_number || epoch_block_hash )'
        let product_domain = match CoinbasePuzzle::product_domain::<N>(degree) {
            Ok(product_domain) => product_domain,
            Err(e) => return Err(e),
        };
        proof {
            assert forall|size: u64, log: u32| #[trigger]
                least_power_of_two(size, log, 2 * degree + 1) implies size
                == product_domain.size by {
                lemma_least_power_of_two_unique(
                    product_domain.size,
                    product_domain.log_size_of_group,
                    size,
                    log,
                    2 * degree + 1,
                );
            }
        }
        let mut input: Vec<u8> = Vec::new();
        crate::coinbase_puzzle::helpers::push_u32_le(&mut input, epoch_number);
        Field::write_le(&epoch_block_hash, &mut input);
        assert(input@ =~= crate::coinbase_puzzle::helpers::epoch_input(
            epoch_number,
            epoch_block_hash,
        ));
        let epoch_polynomial = N::hash_to_polynomial(&input, degree);
        let epoch_polynomial_evaluations = N::in_order_fft(product_domain.size, &epoch_polynomial);
        Ok(
            EpochChallenge {
                epoch_number,
                epoch_block_hash,
                degree,
                epoch_polynomial,
                epoch_polynomial_evaluations,
            },
        )
    }
}

} // verus!
