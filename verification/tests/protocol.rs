//! Requests, transitions and the coinbase puzzle, run on a small network
//! whose field has 65537 elements and whose group has 65521.

use snarkvm_core::account::{ComputeKey, PrivateKey, Signature};
use snarkvm_core::block::metadata::Metadata;
use snarkvm_core::bytes::DecodeError;
use snarkvm_core::coinbase_puzzle::engine::{
    CoinbaseVerifyingKey, G1Affine, G2Affine, KZGCommitment, KZGProof, PairingEngine,
};
use snarkvm_core::coinbase_puzzle::helpers::{
    add_polynomials, evaluate_polynomial, scale_polynomial, CoinbaseSolution, EpochChallenge,
    PartialSolution, ProverSolution, PuzzleConfig, UniversalSrs,
};
use snarkvm_core::coinbase_puzzle::puzzle::{CoinbasePuzzle, PuzzleError};
use snarkvm_core::environment::Environment;
use snarkvm_core::field::{Address, Field, Group, Scalar};
use snarkvm_core::network::Network;
use snarkvm_core::program::{
    Identifier, Plaintext, ProgramID, Record, Register, Value, ValueType,
};
use snarkvm_core::request::sign::private_hash;
use snarkvm_core::request::{function_id, value_hash, InputID, Request, RequestError};
use snarkvm_core::testnet3::Testnet3;
use snarkvm_core::transition::input::Input;
use snarkvm_core::transition::output::Output;
use snarkvm_core::transition::{OutputID, Proof, Response, Transition, TransitionError};
use vstd::prelude::int;
use vstd::seq::Seq;

/// The modulus of the field: a prime with roots of unity of order `2^16`.
const P: u64 = 65537;

/// The order of the group.
const Q: u64 = 65521;

/// The secret of the reference string.
const BETA: u64 = 12345;

fn field(v: u64) -> Field {
    Field { l0: v % P, l1: 0, l2: 0, l3: 0 }
}

fn scalar(v: u64) -> Scalar {
    Scalar { repr: Field { l0: v % Q, l1: 0, l2: 0, l3: 0 } }
}

fn group(k: u64) -> Group {
    Group { x: Field { l0: k % Q, l1: 0, l2: 0, l3: 0 } }
}

fn g1(v: u64) -> G1Affine {
    G1Affine { l0: v % P, l1: 0, l2: 0, l3: 0, l4: 0, l5: 0 }
}

fn power(mut base: u64, mut exponent: u64, modulus: u64) -> u64 {
    let mut result = 1;
    base %= modulus;
    while exponent > 0 {
        if exponent & 1 == 1 {
            result = result * base % modulus;
        }
        base = base * base % modulus;
        exponent >>= 1;
    }
    result
}

fn inverse(v: u64) -> u64 {
    power(v, P - 2, P)
}

fn mix(tag: u64, words: &[u64]) -> u64 {
    let mut h = 0xcbf2_9ce4_8422_2325u64 ^ tag.wrapping_mul(0x9e37_79b9_7f4a_7c15);
    for w in words {
        h ^= *w;
        h = h.wrapping_mul(0x0000_0100_0000_01b3);
        h ^= h >> 29;
    }
    h ^ (h >> 32)
}

fn words(fields: &[Field]) -> Vec<u64> {
    let mut out = vec![fields.len() as u64];
    for f in fields {
        out.extend([f.l0, f.l1, f.l2, f.l3]);
    }
    out
}

fn bit_words(bits: &[bool]) -> Vec<u64> {
    let mut out = vec![bits.len() as u64];
    for chunk in bits.chunks(64) {
        let mut w = 0u64;
        for (i, bit) in chunk.iter().enumerate() {
            w |= (*bit as u64) << i;
        }
        out.push(w);
    }
    out
}

fn domain(size: u64) -> Vec<u64> {
    let omega = power(3, (P - 1) / size, P);
    (0..size).map(|i| power(omega, i, P)).collect()
}

/// A network small enough to compute by hand.
struct Small;

impl Environment for Small {
    fn scalar_modulus() -> int {
        unreachable!()
    }

    fn point(_k: int) -> Group {
        unreachable!()
    }

    fn dlog(_p: Group) -> int {
        unreachable!()
    }

    fn field_sum(_a: Field, _b: Field) -> Field {
        unreachable!()
    }

    fn field_product(_a: Field, _b: Field) -> Field {
        unreachable!()
    }

    fn curve_hash(_message: Seq<char>) -> Group {
        unreachable!()
    }

    fn group_model() {}

    fn field_add(a: &Field, b: &Field) -> Field {
        field((a.l0 % P + b.l0 % P) % P)
    }

    fn field_mul(a: &Field, b: &Field) -> Field {
        field((a.l0 % P) * (b.l0 % P) % P)
    }

    fn scalar_add(a: &Scalar, b: &Scalar) -> Scalar {
        scalar((a.repr.l0 % Q + b.repr.l0 % Q) % Q)
    }

    fn scalar_sub(a: &Scalar, b: &Scalar) -> Scalar {
        scalar((a.repr.l0 % Q + Q - b.repr.l0 % Q) % Q)
    }

    fn scalar_mul(a: &Scalar, b: &Scalar) -> Scalar {
        scalar((a.repr.l0 % Q) * (b.repr.l0 % Q) % Q)
    }

    fn group_zero() -> Group {
        group(0)
    }

    fn group_add(p: &Group, q: &Group) -> Group {
        group((p.x.l0 % Q + q.x.l0 % Q) % Q)
    }

    fn group_scale(p: &Group, s: &Scalar) -> Group {
        group((p.x.l0 % Q) * (s.repr.l0 % Q) % Q)
    }

    fn hash_to_curve(message: &str) -> Group {
        let bytes: Vec<u64> = message.bytes().map(u64::from).collect();
        group(1 + mix(1, &bytes) % (Q - 1))
    }
}

impl Network for Small {
    const ID: u16 = 3;
    const EDITION: u16 = 0;
    const MAX_PROVER_SOLUTIONS: usize = 4;
    const COINBASE_PUZZLE_DEGREE: u32 = 3;
    const GENESIS_TIMESTAMP: i64 = 1_663_718_400;
    const GENESIS_COINBASE_TARGET: u64 = 1 << 5;
    const GENESIS_PROOF_TARGET: u64 = 8;

    fn spec_encryption_domain() -> Field {
        unreachable!()
    }

    fn spec_graph_key_domain() -> Field {
        unreachable!()
    }

    fn spec_serial_number_domain() -> Field {
        unreachable!()
    }

    fn spec_hash_bhp1024(_input: Seq<bool>) -> Option<Field> {
        unreachable!()
    }

    fn spec_commit_bhp512(_input: Seq<bool>, _randomizer: Scalar) -> Option<Field> {
        unreachable!()
    }

    fn spec_hash_psd2(_input: Seq<Field>) -> Option<Field> {
        unreachable!()
    }

    fn spec_hash_psd4(_input: Seq<Field>) -> Option<Field> {
        unreachable!()
    }

    fn spec_hash_psd8(_input: Seq<Field>) -> Option<Field> {
        unreachable!()
    }

    fn spec_hash_many_psd8(_input: Seq<Field>, _num_outputs: u16) -> Seq<Field> {
        unreachable!()
    }

    fn spec_hash_to_group_psd2(_input: Seq<Field>) -> Option<Group> {
        unreachable!()
    }

    fn spec_hash_to_scalar_psd2(_input: Seq<Field>) -> Option<Scalar> {
        unreachable!()
    }

    fn spec_hash_to_scalar_psd4(_input: Seq<Field>) -> Option<Scalar> {
        unreachable!()
    }

    fn spec_hash_to_scalar_psd8(_input: Seq<Field>) -> Option<Scalar> {
        unreachable!()
    }

    fn spec_merkle_root_bhp(_depth: u8, _leaves: Seq<Seq<bool>>) -> Option<Field> {
        unreachable!()
    }

    fn encryption_domain() -> Field {
        field(101)
    }

    fn graph_key_domain() -> Field {
        field(102)
    }

    fn serial_number_domain() -> Field {
        field(103)
    }

    fn g_scalar_multiply(scalar: &Scalar) -> Group {
        group(scalar.repr.l0 % Q)
    }

    fn hash_bhp1024(input: &Vec<bool>) -> Option<Field> {
        // The hash takes no more than 4096 bits here.
        if input.len() > 4096 {
            return None;
        }
        Some(field(mix(10, &bit_words(input))))
    }

    fn commit_bhp512(input: &Vec<bool>, randomizer: &Scalar) -> Option<Field> {
        let mut w = bit_words(input);
        w.push(randomizer.repr.l0);
        Some(field(mix(11, &w)))
    }

    fn hash_psd2(input: &Vec<Field>) -> Option<Field> {
        Some(field(mix(2, &words(input))))
    }

    fn hash_psd4(input: &Vec<Field>) -> Option<Field> {
        Some(field(mix(4, &words(input))))
    }

    fn hash_psd8(input: &Vec<Field>) -> Option<Field> {
        Some(field(mix(8, &words(input))))
    }

    fn hash_many_psd8(input: &Vec<Field>, num_outputs: u16) -> Vec<Field> {
        let w = words(input);
        (0..num_outputs).map(|i| field(mix(80 + u64::from(i), &w))).collect()
    }

    fn hash_to_group_psd2(input: &Vec<Field>) -> Option<Group> {
        Some(group(1 + mix(22, &words(input)) % (Q - 1)))
    }

    fn hash_to_scalar_psd2(input: &Vec<Field>) -> Option<Scalar> {
        Some(scalar(mix(32, &words(input))))
    }

    fn hash_to_scalar_psd4(input: &Vec<Field>) -> Option<Scalar> {
        Some(scalar(mix(34, &words(input))))
    }

    fn hash_to_scalar_psd8(input: &Vec<Field>) -> Option<Scalar> {
        Some(scalar(mix(38, &words(input))))
    }

    fn merkle_root_bhp(depth: u8, leaves: &Vec<Vec<bool>>) -> Option<Field> {
        if leaves.len() > 1usize << depth {
            return None;
        }
        let mut w = vec![u64::from(depth)];
        for leaf in leaves {
            w.extend(bit_words(leaf));
        }
        Some(field(mix(12, &w)))
    }
}

impl PairingEngine for Small {
    const TWO_ADICITY: u32 = 16;

    fn spec_hash_to_polynomial(_input: Seq<u8>, _degree: u32) -> Seq<Field> {
        unreachable!()
    }

    fn spec_hash_commitment(_commitment: G1Affine) -> Option<Field> {
        unreachable!()
    }

    fn spec_hash_commitments(_commitments: Seq<G1Affine>) -> Option<Seq<Field>> {
        unreachable!()
    }

    fn spec_domain_elements(_size: u64) -> Seq<Field> {
        unreachable!()
    }

    fn spec_fft(_size: u64, _coefficients: Seq<Field>) -> Seq<Field> {
        unreachable!()
    }

    fn spec_mul_polynomials_in_evaluation_domain(
        _size: u64,
        _left: Seq<Field>,
        _right: Seq<Field>,
    ) -> Seq<Field> {
        unreachable!()
    }

    fn spec_lagrange_basis(_powers_of_beta_g: Seq<G1Affine>, _size: u64) -> Option<Seq<G1Affine>> {
        unreachable!()
    }

    fn spec_commit_lagrange(
        _lagrange_basis: Seq<G1Affine>,
        _evaluations: Seq<Field>,
    ) -> Option<G1Affine> {
        unreachable!()
    }

    fn spec_open_lagrange(
        _lagrange_basis: Seq<G1Affine>,
        _domain_elements: Seq<Field>,
        _evaluations: Seq<Field>,
        _point: Field,
        _value: Field,
    ) -> Option<KZGProof> {
        unreachable!()
    }

    fn spec_check(
        _verifying_key: CoinbaseVerifyingKey,
        _commitment: G1Affine,
        _point: Field,
        _value: Field,
        _proof: KZGProof,
    ) -> Option<bool> {
        unreachable!()
    }

    fn spec_msm(_bases: Seq<G1Affine>, _scalars: Seq<Field>) -> G1Affine {
        unreachable!()
    }

    fn hash_to_polynomial(input: &Vec<u8>, degree: u32) -> Vec<Field> {
        let w: Vec<u64> = input.iter().map(|b| u64::from(*b)).collect();
        (0..=u64::from(degree)).map(|i| field(1 + mix(50 + i, &w) % (P - 1))).collect()
    }

    fn hash_commitment(commitment: &KZGCommitment) -> Option<Field> {
        // A point outside the domain, so that the opening is defined.
        Some(field(mix(60, &[commitment.point.l0]) % (P - 1) + 1)).map(off_domain)
    }

    fn hash_commitments(commitments: &Vec<G1Affine>) -> Option<Vec<Field>> {
        let w: Vec<u64> = commitments.iter().map(|c| c.l0).collect();
        let n = commitments.len() as u64;
        Some(
            (0..=n)
                .map(|i| {
                    let challenge = field(mix(70 + i, &w) % (P - 1) + 1);
                    if i == n {
                        off_domain(challenge)
                    } else {
                        challenge
                    }
                })
                .collect(),
        )
    }

    fn domain_elements(size: u64) -> Vec<Field> {
        domain(size).into_iter().map(field).collect()
    }

    fn in_order_fft(size: u64, coefficients: &Vec<Field>) -> Vec<Field> {
        domain(size)
            .into_iter()
            .map(|d| {
                let mut value = 0;
                for c in coefficients.iter().rev() {
                    value = (value * d + c.l0) % P;
                }
                field(value)
            })
            .collect()
    }

    fn mul_polynomials_in_evaluation_domain(
        _size: u64,
        left: &Vec<Field>,
        right: &Vec<Field>,
    ) -> Vec<Field> {
        left.iter().zip(right.iter()).map(|(a, b)| field(a.l0 * b.l0 % P)).collect()
    }

    fn lagrange_basis(powers_of_beta_g: &Vec<G1Affine>, size: u64) -> Option<Vec<G1Affine>> {
        if (powers_of_beta_g.len() as u64) < size {
            return None;
        }
        let beta = powers_of_beta_g[1].l0;
        let elements = domain(size);
        Some(
            (0..elements.len())
                .map(|i| {
                    let mut value = 1;
                    for j in 0..elements.len() {
                        if i != j {
                            let numerator = (beta + P - elements[j]) % P;
                            let denominator = (elements[i] + P - elements[j]) % P;
                            value = value * numerator % P * inverse(denominator) % P;
                        }
                    }
                    g1(value)
                })
                .collect(),
        )
    }

    fn commit_lagrange(
        lagrange_basis: &Vec<G1Affine>,
        evaluations: &Vec<Field>,
    ) -> Option<KZGCommitment> {
        if evaluations.len() > lagrange_basis.len() {
            return None;
        }
        Some(KZGCommitment { point: Self::msm(lagrange_basis, evaluations) })
    }

    fn open_lagrange(
        lagrange_basis: &Vec<G1Affine>,
        domain_elements: &Vec<Field>,
        evaluations: &Vec<Field>,
        point: Field,
        value: Field,
    ) -> Option<KZGProof> {
        let mut witness = Vec::new();
        for (evaluation, element) in evaluations.iter().zip(domain_elements.iter()) {
            if element.l0 == point.l0 {
                return None;
            }
            let numerator = (evaluation.l0 + P - value.l0) % P;
            let denominator = (element.l0 + P - point.l0) % P;
            witness.push(field(numerator * inverse(denominator) % P));
        }
        Some(KZGProof { w: Self::msm(lagrange_basis, &witness), random_v: None })
    }

    fn check(
        verifying_key: &CoinbaseVerifyingKey,
        commitment: &KZGCommitment,
        point: Field,
        value: Field,
        proof: &KZGProof,
    ) -> Option<bool> {
        let beta = verifying_key.beta_h.c0.l0;
        let left = (commitment.point.l0 + P - value.l0 * verifying_key.g.l0 % P) % P;
        let right = proof.w.l0 * ((beta + P - point.l0) % P) % P;
        Some(left == right)
    }

    fn msm(bases: &Vec<G1Affine>, scalars: &Vec<Field>) -> G1Affine {
        let mut sum = 0;
        for (base, s) in bases.iter().zip(scalars.iter()) {
            sum = (sum + base.l0 * s.l0) % P;
        }
        g1(sum)
    }
}

/// Moves a point off the evaluation domains of the tests, whose elements are
/// the powers of a root of unity of order 8.
fn off_domain(point: Field) -> Field {
    if power(point.l0, 8, P) == 1 {
        field(point.l0 * 3 % P)
    } else {
        point
    }
}

fn identifier(name: &str) -> Identifier {
    Identifier { name: name.as_bytes().to_vec() }
}

fn program_id(name: &str) -> ProgramID {
    ProgramID { name: identifier(name), network: identifier("aleo") }
}

fn private_key(seed: u64) -> PrivateKey {
    PrivateKey { seed: field(seed), sk_sig: scalar(mix(90, &[seed])), r_sig: scalar(mix(91, &[seed])) }
}

fn address_of(private_key: &PrivateKey) -> Address {
    ComputeKey::from_private_key::<Small>(private_key).unwrap().to_address::<Small>()
}

/// `{ token_amount: 9876543210u128 }`, packed into one field element.
fn amount() -> Value {
    Value::Plaintext(Plaintext { fields: vec![field(9_876_543_210 % P)] })
}

/// `{ owner, gates: 5u64, token_amount: 100u64, _nonce: 0group }`.
fn token(owner: Address, gates: u64) -> Record {
    Record { owner, gates, data: vec![field(100)], nonce: group(0) }
}

fn input_types() -> Vec<ValueType> {
    vec![
        ValueType::Constant,
        ValueType::Public,
        ValueType::Private,
        ValueType::Record(identifier("token")),
        ValueType::ExternalRecord,
    ]
}

fn inputs(owner: Address) -> Vec<Value> {
    vec![amount(), amount(), amount(), Value::Record(token(owner, 5)), Value::Record(token(owner, 5))]
}

fn sign(seed: u64) -> Request {
    let private_key = private_key(seed);
    let owner = address_of(&private_key);
    Request::sign::<Small>(
        &private_key,
        program_id("token"),
        identifier("transfer"),
        inputs(owner),
        &input_types(),
        field(7_000 + seed),
    )
    .unwrap()
}

fn tpk_of(request: &Request) -> Group {
    Small::g_scalar_multiply(&request.tsk)
}

/// Signs fifty requests and checks each, with and without the signature.
fn check_verify() {
    for i in 0..50 {
        let request = sign(i);
        assert_eq!(request.verify::<Small>(&input_types(), &tpk_of(&request)), Ok(true));
        assert_eq!(request.to_tpk::<Small>(), tpk_of(&request));

        let (candidate, message) = Request::check_input_ids::<Small>(
            request.network_id,
            &request.program_id,
            &request.function_name,
            &request.input_ids,
            &request.inputs,
            &input_types(),
            &request.caller,
            &request.sk_tag,
            &request.tvk,
            &request.tcm,
            None,
        )
        .unwrap();
        assert!(candidate);
        assert!(message.is_none());
    }
}

#[test]
fn test_sign_and_verify_constant() {
    check_verify()
}

#[test]
fn test_sign_and_verify_public() {
    check_verify()
}

#[test]
fn test_sign_and_verify_private() {
    check_verify()
}

#[test]
fn sign_derives_the_request_from_the_private_key() {
    let private_key = private_key(1);
    let request = sign(1);
    let compute_key = ComputeKey::from_private_key::<Small>(&private_key).unwrap();
    assert_eq!(request.caller, compute_key.to_address::<Small>());
    assert_eq!(request.network_id, 3);
    assert_eq!(request.signature.compute_key, compute_key);
    assert_eq!(request.tvk, Small::group_scale(&request.caller.point, &request.tsk).x);
    assert_eq!(Some(request.tcm), Small::hash_psd2(&vec![request.tvk]));
    assert_eq!(
        request.signature.response,
        Small::scalar_sub(
            &request.tsk,
            &Small::scalar_mul(&request.signature.challenge, &private_key.sk_sig)
        )
    );
    assert_eq!(request.input_ids.len(), 5);
    assert!(matches!(request.input_ids[0], InputID::Constant(_)));
    assert!(matches!(request.input_ids[1], InputID::Public(_)));
    assert!(matches!(request.input_ids[2], InputID::Private(_)));
    assert!(matches!(request.input_ids[3], InputID::Record(..)));
    assert!(matches!(request.input_ids[4], InputID::ExternalRecord(_)));
}

#[test]
fn input_hashes_follow_the_formulas() {
    let request = sign(2);
    let id = function_id::<Small>(3, &request.program_id, &request.function_name).unwrap();
    let plaintext = vec![field(9_876_543_210 % P)];
    // Hash(function ID || input || tcm || index), with rate 8.
    let constant = Small::hash_psd8(&vec![id, plaintext[0], request.tcm, field(0)]).unwrap();
    assert_eq!(request.input_ids[0], InputID::Constant(constant));
    assert_eq!(value_hash::<Small>(id, plaintext.clone(), request.tcm, 0), Some(constant));
    let public = Small::hash_psd8(&vec![id, plaintext[0], request.tcm, field(1)]).unwrap();
    assert_eq!(request.input_ids[1], InputID::Public(public));
    // The ciphertext adds to each element a randomizer hashed from the view key.
    let view_key = Small::hash_psd4(&vec![id, request.tvk, field(2)]).unwrap();
    let randomizers = Small::hash_many_psd8(&vec![field(101), view_key], 1);
    let ciphertext = vec![Small::field_add(&plaintext[0], &randomizers[0])];
    let private = Small::hash_psd8(&ciphertext).unwrap();
    assert_eq!(request.input_ids[2], InputID::Private(private));
    assert_eq!(private_hash::<Small>(id, &plaintext, request.tvk, 2), Some(private));
}

#[test]
fn sign_rejects_a_wrong_number_of_inputs() {
    let private_key = private_key(3);
    let result = Request::sign::<Small>(
        &private_key,
        program_id("token"),
        identifier("transfer"),
        vec![amount()],
        &input_types(),
        field(1),
    );
    assert_eq!(result, Err(RequestError::InputCountMismatch { expected: 5, found: 1 }));
}

#[test]
fn sign_rejects_a_value_of_the_wrong_kind() {
    let private_key = private_key(4);
    let owner = address_of(&private_key);
    let record = Request::sign::<Small>(
        &private_key,
        program_id("token"),
        identifier("transfer"),
        vec![Value::Record(token(owner, 5))],
        &vec![ValueType::Public],
        field(1),
    );
    assert_eq!(record, Err(RequestError::ExpectedPlaintext { index: 0 }));
    let plaintext = Request::sign::<Small>(
        &private_key,
        program_id("token"),
        identifier("transfer"),
        vec![amount(), amount()],
        &vec![ValueType::Private, ValueType::ExternalRecord],
        field(1),
    );
    assert_eq!(plaintext, Err(RequestError::ExpectedRecord { index: 1 }));
}

#[test]
fn a_record_with_gates_of_two_to_the_52_is_rejected() {
    let private_key = private_key(5);
    let owner = address_of(&private_key);
    let types = vec![ValueType::Record(identifier("token"))];
    let signed = Request::sign::<Small>(
        &private_key,
        program_id("token"),
        identifier("transfer"),
        vec![Value::Record(token(owner, 1 << 52))],
        &types,
        field(1),
    );
    assert_eq!(signed, Err(RequestError::InvalidGates { index: 0 }));

    // The largest balance is accepted.
    let mut request = Request::sign::<Small>(
        &private_key,
        program_id("token"),
        identifier("transfer"),
        vec![Value::Record(token(owner, (1 << 52) - 1))],
        &types,
        field(1),
    )
    .unwrap();
    assert_eq!(request.verify::<Small>(&types, &tpk_of(&request)), Ok(true));
    // With the balance raised in the request, it is not valid.
    request.inputs[0] = Value::Record(token(owner, 1 << 52));
    assert_eq!(request.verify::<Small>(&types, &tpk_of(&request)), Ok(false));
}

#[test]
fn a_record_of_another_owner_is_rejected() {
    let private_key = private_key(6);
    let stranger = address_of(&self::private_key(7));
    let signed = Request::sign::<Small>(
        &private_key,
        program_id("token"),
        identifier("transfer"),
        vec![Value::Record(token(stranger, 5))],
        &vec![ValueType::Record(identifier("token"))],
        field(1),
    );
    assert_eq!(signed, Err(RequestError::OwnerMismatch { index: 0 }));
}

#[test]
fn a_tampered_request_is_rejected() {
    let request = sign(8);
    let tpk = tpk_of(&request);
    let types = input_types();
    let flip = |f: Field| Field { l0: f.l0 ^ 1, ..f };

    let mut tcm = request.clone();
    tcm.tcm = flip(tcm.tcm);
    assert_eq!(tcm.verify::<Small>(&types, &tpk), Ok(false));

    let mut tvk = request.clone();
    tvk.tvk = flip(tvk.tvk);
    assert_eq!(tvk.verify::<Small>(&types, &tpk), Ok(false));

    for index in 0..request.input_ids.len() {
        let mut hash = request.clone();
        hash.input_ids[index] = match hash.input_ids[index] {
            InputID::Constant(h) => InputID::Constant(flip(h)),
            InputID::Public(h) => InputID::Public(flip(h)),
            InputID::Private(h) => InputID::Private(flip(h)),
            InputID::Record(commitment, gamma, serial_number, tag) => {
                InputID::Record(commitment, gamma, flip(serial_number), tag)
            }
            InputID::ExternalRecord(h) => InputID::ExternalRecord(flip(h)),
        };
        assert_eq!(hash.verify::<Small>(&types, &tpk), Ok(false));
    }

    let mut challenge = request.clone();
    challenge.signature = Signature {
        challenge: Scalar { repr: flip(request.signature.challenge.repr) },
        ..request.signature
    };
    assert_eq!(challenge.verify::<Small>(&types, &tpk), Ok(false));

    let mut response = request.clone();
    response.signature = Signature {
        response: Scalar { repr: flip(request.signature.response.repr) },
        ..request.signature
    };
    assert_eq!(response.verify::<Small>(&types, &tpk), Ok(false));

    assert_eq!(request.verify::<Small>(&types, &group(tpk.x.l0 + 1)), Ok(false));
}

#[test]
fn verify_reports_a_malformed_request_as_an_error() {
    let mut request = sign(9);
    let tpk = tpk_of(&request);
    assert_eq!(
        request.verify::<Small>(&vec![ValueType::Constant], &tpk),
        Err(RequestError::InputCountMismatch { expected: 1, found: 5 })
    );
    let mut types = input_types();
    types[3] = ValueType::Public;
    assert_eq!(
        request.verify::<Small>(&types, &tpk),
        Err(RequestError::ExpectedRecordType { index: 3 })
    );
    request.inputs[0] = Value::Record(token(request.caller, 5));
    assert_eq!(
        request.verify::<Small>(&input_types(), &tpk),
        Err(RequestError::ExpectedPlaintext { index: 0 })
    );
    request.input_ids.pop();
    assert_eq!(
        request.verify::<Small>(&input_types(), &tpk),
        Err(RequestError::InputIDCountMismatch { expected: 5, found: 4 })
    );
}

#[test]
fn sign_reports_a_primitive_that_rejects_its_input() {
    let private_key = private_key(10);
    let long = Identifier { name: vec![b'a'; 600] };
    let signed = Request::sign::<Small>(
        &private_key,
        program_id("token"),
        long,
        vec![amount()],
        &vec![ValueType::Public],
        field(1),
    );
    assert_eq!(signed, Err(RequestError::Primitive));
}

#[test]
fn an_input_index_above_16_bits_is_rejected() {
    let private_key = private_key(10);
    let count = usize::from(u16::MAX) + 2;
    let signed = Request::sign::<Small>(
        &private_key,
        program_id("token"),
        identifier("transfer"),
        vec![amount(); count],
        &vec![ValueType::Constant; count],
        field(1),
    );
    assert_eq!(signed, Err(RequestError::IndexOverflow { index: 65536 }));
}

/// The response of a function that gives one output of each kind.
fn respond(request: &Request) -> (Response, Vec<ValueType>, Vec<Register>) {
    let id = function_id::<Small>(3, &request.program_id, &request.function_name).unwrap();
    let num_inputs = request.inputs.len() as u16;
    let plaintext = vec![field(42)];
    let registers: Vec<Register> = (0..5).map(|i| Register { locator: 10 + i }).collect();

    // The record's nonce is the randomizer that its register gives, times G.
    let randomizer =
        Small::hash_to_scalar_psd2(&vec![request.tvk, Field::from_u64(registers[3].locator)])
            .unwrap();
    let record =
        Record { nonce: Small::g_scalar_multiply(&randomizer), ..token(request.caller, 9) };
    let commitment =
        record.to_commitment::<Small>(&request.program_id, &identifier("token")).unwrap();
    let checksum =
        record.encrypt::<Small>(&randomizer).unwrap().to_checksum::<Small>().unwrap();

    let output_ids = vec![
        OutputID::Constant(value_hash::<Small>(id, plaintext.clone(), request.tcm, num_inputs).unwrap()),
        OutputID::Public(
            value_hash::<Small>(id, plaintext.clone(), request.tcm, num_inputs + 1).unwrap(),
        ),
        OutputID::Private(private_hash::<Small>(id, &plaintext, request.tvk, num_inputs + 2).unwrap()),
        OutputID::Record(commitment, checksum),
        OutputID::ExternalRecord(
            value_hash::<Small>(id, record.to_fields(), request.tvk, num_inputs + 4).unwrap(),
        ),
    ];
    let outputs = vec![
        Value::Plaintext(Plaintext { fields: plaintext.clone() }),
        Value::Plaintext(Plaintext { fields: plaintext.clone() }),
        Value::Plaintext(Plaintext { fields: plaintext }),
        Value::Record(record.clone()),
        Value::Record(record),
    ];
    let types = vec![
        ValueType::Constant,
        ValueType::Public,
        ValueType::Private,
        ValueType::Record(identifier("token")),
        ValueType::ExternalRecord,
    ];
    (Response { output_ids, outputs }, types, registers)
}

fn sample_transition() -> Transition {
    let request = sign(11);
    let (response, types, registers) = respond(&request);
    Transition::from::<Small>(
        &request,
        &response,
        Some(vec![amount()]),
        &types,
        &registers,
        Proof { bytes: vec![1, 2, 3] },
        -5,
    )
    .unwrap()
}

#[test]
fn a_transition_is_assembled_from_a_request_and_its_response() {
    let request = sign(11);
    let transition = sample_transition();
    assert_eq!(transition.program_id, request.program_id);
    assert_eq!(transition.function_name, request.function_name);
    assert_eq!(transition.tpk, tpk_of(&request));
    assert_eq!(transition.tcm, request.tcm);
    assert_eq!(transition.fee, -5);
    assert_eq!(transition.inputs.len(), 5);
    assert_eq!(transition.outputs.len(), 5);
    assert_eq!(
        Some(transition.id),
        Transition::function_tree_root::<Small>(&transition.inputs, &transition.outputs)
    );
    let ids: Vec<Field> = request
        .input_ids
        .iter()
        .map(|id| match id {
            InputID::Constant(h) | InputID::Public(h) | InputID::Private(h) => *h,
            InputID::Record(_, _, serial_number, _) => *serial_number,
            InputID::ExternalRecord(h) => *h,
        })
        .collect();
    assert_eq!(transition.input_ids(), ids);
    assert!(matches!(transition.inputs[2], Input::Private(_, Some(_))));
    assert!(matches!(transition.outputs[3], Output::Record(_, _, Some(_))));
    assert_eq!(transition.serial_numbers().len(), 1);
    assert!(transition.contains_serial_number(&transition.serial_numbers()[0]));
    assert!(!transition.contains_serial_number(&field(1)));
    assert_eq!(transition.commitments().len(), 1);
    assert!(transition.contains_commitment(&transition.commitments()[0]));
    assert!(transition.find_record(&transition.commitments()[0]).is_some());
    assert!(transition.find_record(&field(1)).is_none());
    assert_eq!(transition.tags().len(), 1);
    assert_eq!(transition.nonces().len(), 1);
}

#[test]
fn a_transition_is_not_built_from_wrong_hashes() {
    let request = sign(11);
    let (response, types, registers) = respond(&request);
    let build = |request: &Request, response: &Response, types: &Vec<ValueType>| {
        Transition::from::<Small>(
            request,
            response,
            None,
            types,
            &registers,
            Proof { bytes: vec![] },
            0,
        )
    };
    let flip = |f: Field| Field { l0: f.l0 ^ 1, ..f };

    let mut constant = request.clone();
    constant.input_ids[0] = InputID::Constant(field(1));
    assert_eq!(
        build(&constant, &response, &types),
        Err(TransitionError::MalformedConstantInput { index: 0 })
    );
    let mut private = request.clone();
    private.input_ids[2] = InputID::Private(field(1));
    assert_eq!(
        build(&private, &response, &types),
        Err(TransitionError::IncorrectInputCiphertextHash { index: 2 })
    );
    let mut kind = request.clone();
    kind.input_ids[4] = InputID::Public(field(1));
    assert_eq!(
        build(&kind, &response, &types),
        Err(TransitionError::MalformedRequestInput { index: 4 })
    );

    // Each hash of a record input and of an external record input is derived anew.
    let (cm, gamma, sn, tag) = match request.input_ids[3] {
        InputID::Record(cm, gamma, sn, tag) => (cm, gamma, sn, tag),
        _ => unreachable!(),
    };
    let mut serial = request.clone();
    serial.input_ids[3] = InputID::Record(cm, gamma, flip(sn), tag);
    assert_eq!(
        build(&serial, &response, &types),
        Err(TransitionError::IncorrectSerialNumber { index: 3 })
    );
    let mut tagged = request.clone();
    tagged.input_ids[3] = InputID::Record(cm, gamma, sn, flip(tag));
    assert_eq!(
        build(&tagged, &response, &types),
        Err(TransitionError::IncorrectTag { index: 3 })
    );
    let mut committed = request.clone();
    committed.input_ids[3] = InputID::Record(flip(cm), gamma, sn, tag);
    assert_eq!(
        build(&committed, &response, &types),
        Err(TransitionError::IncorrectSerialNumber { index: 3 })
    );
    let mut external = request.clone();
    external.input_ids[4] = InputID::ExternalRecord(field(1));
    assert_eq!(
        build(&external, &response, &types),
        Err(TransitionError::IncorrectExternalInputHash { index: 4 })
    );

    let mut public = response.clone();
    public.output_ids[1] = OutputID::Public(field(1));
    assert_eq!(
        build(&request, &public, &types),
        Err(TransitionError::MalformedPublicOutput { index: 1 })
    );
    let (commitment, checksum) = match response.output_ids[3] {
        OutputID::Record(commitment, checksum) => (commitment, checksum),
        _ => unreachable!(),
    };
    let mut record = response.clone();
    record.output_ids[3] = OutputID::Record(flip(commitment), checksum);
    assert_eq!(
        build(&request, &record, &types),
        Err(TransitionError::IncorrectCommitment { index: 3 })
    );
    record.output_ids[3] = OutputID::Record(commitment, flip(checksum));
    assert_eq!(
        build(&request, &record, &types),
        Err(TransitionError::IncorrectChecksum { index: 3 })
    );
    let mut declared = types.clone();
    declared[3] = ValueType::Private;
    assert_eq!(
        build(&request, &response, &declared),
        Err(TransitionError::ExpectedRecordType { index: 3 })
    );
    let mut external = response.clone();
    external.output_ids[4] = OutputID::ExternalRecord(field(1));
    assert_eq!(
        build(&request, &external, &types),
        Err(TransitionError::IncorrectExternalHash { index: 4 })
    );
    let mut short = response.clone();
    short.outputs.pop();
    assert_eq!(build(&request, &short, &types), Err(TransitionError::OutputCountMismatch));

    let mut fewer = request.clone();
    fewer.input_ids.pop();
    assert_eq!(build(&fewer, &response, &types), Err(TransitionError::InputCountMismatch));
    let mut public = request.clone();
    public.input_ids[1] = InputID::Public(field(1));
    assert_eq!(
        build(&public, &response, &types),
        Err(TransitionError::MalformedPublicInput { index: 1 })
    );
    let mut constant = response.clone();
    constant.output_ids[0] = OutputID::Constant(field(1));
    assert_eq!(
        build(&request, &constant, &types),
        Err(TransitionError::MalformedConstantOutput { index: 0 })
    );
    let mut private = response.clone();
    private.output_ids[2] = OutputID::Private(field(1));
    assert_eq!(
        build(&request, &private, &types),
        Err(TransitionError::IncorrectOutputCiphertextHash { index: 2 })
    );
    let mut kind = response.clone();
    kind.output_ids[4] = OutputID::Public(field(1));
    assert_eq!(
        build(&request, &kind, &types),
        Err(TransitionError::MalformedResponseOutput { index: 4 })
    );
    // A record whose nonce is not that of its register is not encrypted.
    let mut nonce = response.clone();
    if let Value::Record(record) = &mut nonce.outputs[3] {
        record.nonce = group(record.nonce.x.l0 + 1);
        let commitment =
            record.to_commitment::<Small>(&request.program_id, &identifier("token")).unwrap();
        nonce.output_ids[3] = OutputID::Record(commitment, checksum);
    }
    assert_eq!(build(&request, &nonce, &types), Err(TransitionError::Primitive));
}

#[test]
fn a_transition_with_more_leaves_than_the_tree_holds_is_not_built() {
    // Twelve inputs and five outputs are more than sixteen leaves.
    let private_key = private_key(12);
    let request = Request::sign::<Small>(
        &private_key,
        program_id("token"),
        identifier("transfer"),
        vec![amount(); 12],
        &vec![ValueType::Public; 12],
        field(1),
    )
    .unwrap();
    let (response, types, registers) = respond(&request);
    let built = Transition::from::<Small>(
        &request,
        &response,
        None,
        &types,
        &registers,
        Proof { bytes: vec![] },
        0,
    );
    assert_eq!(built, Err(TransitionError::InvalidTree));

    // Written with an ID all the same, it is not read.
    let sample = sample_transition();
    let mut wide = sample.clone();
    wide.inputs = vec![Input::ExternalRecord(field(1)); 17];
    assert_eq!(
        Transition::read_le::<Small>(&wide.to_bytes_le()),
        Err(DecodeError::InvalidTransition)
    );
}

#[test]
fn the_parts_of_a_transition_are_given_out() {
    let transition = sample_transition();
    assert_eq!(transition.id(), &transition.id);
    assert_eq!(transition.program_id(), &program_id("token"));
    assert_eq!(transition.function_name(), &identifier("transfer"));
    assert_eq!(transition.inputs(), &transition.inputs);
    assert_eq!(transition.outputs(), &transition.outputs);
    assert_eq!(transition.finalize(), Some(&vec![amount()]));
    assert_eq!(transition.finalize_iter(), vec![&amount()]);
    assert_eq!(transition.transition_proof(), &Proof { bytes: vec![1, 2, 3] });
    assert_eq!(transition.tpk(), &transition.tpk);
    assert_eq!(transition.tcm(), &transition.tcm);
    assert_eq!(transition.fee(), &-5);
    let ids: Vec<Field> = transition.outputs.iter().map(Output::id).collect();
    assert_eq!(transition.output_ids(), ids);
    let records = transition.records();
    assert_eq!(records.len(), 1);
    assert_eq!(records[0].0, transition.commitments()[0]);
    assert_eq!(Some(&records[0].1), transition.find_record(&records[0].0));
    assert_eq!(transition.nonces(), vec![records[0].1.nonce]);

    assert_eq!(transition.clone().into_id(), transition.id);
    assert_eq!(transition.clone().into_tpk(), transition.tpk);
    assert_eq!(transition.clone().into_finalize(), Some(vec![amount()]));
    assert_eq!(transition.clone().into_serial_numbers(), transition.serial_numbers());
    assert_eq!(transition.clone().into_tags(), transition.tags());
    assert_eq!(transition.clone().into_commitments(), transition.commitments());
    assert_eq!(transition.clone().into_nonces(), transition.nonces());
    assert_eq!(transition.clone().into_records(), records);
    let mut none = transition;
    none.finalize = None;
    assert!(none.finalize_iter().is_empty());
}

#[test]
fn test_bytes() {
    // Sample the transition.
    let expected = sample_transition();

    // Check the byte representation.
    let expected_bytes = expected.to_bytes_le();
    assert_eq!(expected, Transition::read_le::<Small>(&expected_bytes[..]).unwrap());
    assert!(Transition::read_le::<Small>(&expected_bytes[1..]).is_err());
}

#[test]
fn a_transition_with_a_wrong_version_or_id_is_not_read() {
    let expected = sample_transition();
    let bytes = expected.to_bytes_le();
    assert_eq!(&bytes[..2], &[0, 0]);
    assert_eq!(&bytes[2..10], &expected.id.l0.to_le_bytes());

    let mut version = bytes.clone();
    version[0] = 1;
    assert_eq!(Transition::read_le::<Small>(&version), Err(DecodeError::InvalidVersion));

    let mut id = bytes.clone();
    id[2] ^= 1;
    assert_eq!(Transition::read_le::<Small>(&id), Err(DecodeError::IncorrectTransitionID));

    assert_eq!(
        Transition::read_le::<Small>(&bytes[..bytes.len() - 1]),
        Err(DecodeError::UnexpectedEnd)
    );

    // Without inputs for finalize the variant is 0, and a variant of 2 is refused.
    let mut none = expected.clone();
    none.finalize = None;
    let none_bytes = none.to_bytes_le();
    assert_eq!(Transition::read_le::<Small>(&none_bytes), Ok(none));
    let at = none_bytes.len() - (2 + 3) - 32 - 32 - 8 - 1;
    assert_eq!(none_bytes[at], 0);
    let mut finalize = none_bytes.clone();
    finalize[at] = 2;
    assert_eq!(Transition::read_le::<Small>(&finalize), Err(DecodeError::InvalidFinalizeVariant));
}

#[test]
fn test_g_scalar_multiply() {
    // Compute G^r.
    for seed in 0..20 {
        let scalar = scalar(mix(5, &[seed]));
        let group = Testnet3::g_scalar_multiply::<Small>(&scalar);
        assert_eq!(group, Small::group_scale(&Testnet3::g_powers::<Small>()[0], &scalar));
    }
}

#[test]
fn the_generator_table_holds_the_doublings_of_the_base() {
    let bases = Testnet3::new_bases::<Small>("AleoAccountEncryptionAndSignatureScheme0");
    assert_eq!(bases.len(), 256);
    assert_eq!(bases, Testnet3::g_powers::<Small>());
    assert_eq!(bases[0], Small::hash_to_curve("AleoAccountEncryptionAndSignatureScheme0"));
    for i in 1..bases.len() {
        assert_eq!(bases[i], Small::group_add(&bases[i - 1], &bases[i - 1]));
    }
    assert_eq!(Testnet3::scalar_multiply::<Small>(&bases, &scalar(0)), group(0));
    assert_eq!(Testnet3::scalar_multiply::<Small>(&bases, &scalar(5)), group(bases[0].x.l0 * 5));
    assert_eq!(Testnet3::ID, 3);
    assert_eq!(Testnet3::EDITION, 0);
    assert_eq!(Testnet3::name(), "Aleo Testnet 3");
}

#[test]
fn metadata_is_valid_at_genesis_and_after() {
    let t = Small::GENESIS_TIMESTAMP;
    let genesis = Metadata::new::<Small>(3, 0, 0, 32, 8, 32, t, t).unwrap();
    assert!(genesis.is_genesis::<Small>());
    assert!(genesis.is_valid::<Small>());
    let next = Metadata::new::<Small>(3, 1, 1, 40, 9, 32, t, t + 1).unwrap();
    assert!(!next.is_genesis::<Small>());
    assert_eq!(next.round(), 1);
    assert_eq!(next.height(), 1);
    assert_eq!(next.coinbase_target(), 40);
    assert_eq!(next.proof_target(), 9);
    assert_eq!(next.last_coinbase_target(), 32);
    assert_eq!(next.last_coinbase_timestamp(), t);
    assert_eq!(next.timestamp(), t + 1);
    assert_eq!(next.network(), 3);

    // At height 0 only the genesis metadata is valid.
    assert!(Metadata::new::<Small>(3, 1, 0, 32, 8, 32, t, t).is_err());
    // Another network.
    assert!(Metadata::new::<Small>(4, 1, 1, 40, 9, 32, t, t + 1).is_err());
    // A round of zero.
    assert!(Metadata::new::<Small>(3, 0, 1, 40, 9, 32, t, t + 1).is_err());
    // A coinbase target below the genesis target.
    assert!(Metadata::new::<Small>(3, 1, 1, 31, 9, 32, t, t + 1).is_err());
    // A proof target below the genesis target.
    assert!(Metadata::new::<Small>(3, 1, 1, 40, 7, 32, t, t + 1).is_err());
    // A coinbase target that is not above the proof target.
    assert!(Metadata::new::<Small>(3, 1, 1, 40, 40, 32, t, t + 1).is_err());
    // A last coinbase target below the genesis target.
    assert!(Metadata::new::<Small>(3, 1, 1, 40, 9, 31, t, t + 1).is_err());
    // A last coinbase timestamp before the genesis.
    assert!(Metadata::new::<Small>(3, 1, 1, 40, 9, 32, t - 1, t + 1).is_err());
    // A timestamp that is not after the genesis.
    let refused = Metadata::new::<Small>(3, 1, 1, 40, 9, 32, t, t).unwrap_err();
    assert_eq!(refused.metadata.timestamp, t);
}

fn srs(degree: u64) -> UniversalSrs {
    UniversalSrs {
        powers_of_beta_g: (0..2 * degree + 2).map(|i| g1(power(BETA, i, P))).collect(),
        h: G2Affine { c0: g1(1), c1: g1(0) },
        beta_h: G2Affine { c0: g1(BETA), c1: g1(0) },
    }
}

fn puzzle() -> CoinbasePuzzle {
    CoinbasePuzzle::load::<Small>(&srs(3)).unwrap()
}

fn epoch() -> EpochChallenge {
    EpochChallenge::new::<Small>(7, field(1234), 3).unwrap()
}

fn prove(puzzle: &CoinbasePuzzle, nonce: u64) -> ProverSolution {
    puzzle.prove::<Small>(&epoch(), address_of(&private_key(1)), nonce, None).unwrap()
}

#[test]
fn the_product_domain_is_the_least_power_of_two() {
    for (degree, size, log) in [(1u32, 4u64, 2u32), (2, 8, 3), (3, 8, 3), (4, 16, 4), (7, 16, 4), (8, 32, 5)] {
        let domain = CoinbasePuzzle::product_domain::<Small>(degree).unwrap();
        assert_eq!((domain.size, domain.log_size_of_group), (size, log));
    }
    assert_eq!(CoinbasePuzzle::product_domain::<Small>(0), Err(PuzzleError::DegreeZero));
    assert_eq!(
        CoinbasePuzzle::product_domain::<Small>(u32::MAX),
        Err(PuzzleError::DegreeTooLarge)
    );
    assert_eq!(
        CoinbasePuzzle::product_domain::<Small>((1 << 31) - 1),
        Err(PuzzleError::DegreeTooLarge)
    );
    // `2^16` is the largest domain of the field.
    assert_eq!(
        CoinbasePuzzle::product_domain::<Small>((1 << 15) - 1).map(|d| d.size),
        Ok(1 << 16)
    );
    assert_eq!(CoinbasePuzzle::product_domain::<Small>(1 << 15), Err(PuzzleError::InvalidDegree));
    assert_eq!(CoinbasePuzzle::setup_degree(PuzzleConfig { degree: 3 }), Some(5));
    assert_eq!(CoinbasePuzzle::setup_degree(PuzzleConfig { degree: 0 }), None);
}

#[test]
fn the_keys_are_cut_from_the_reference_string() {
    let puzzle = puzzle();
    let pk = puzzle.coinbase_proving_key().unwrap();
    assert_eq!(pk.product_domain.size, 8);
    assert_eq!(pk.product_domain_elements, Small::domain_elements(8));
    assert_eq!(pk.lagrange_basis_at_beta_g.len(), 8);
    let vk = *puzzle.coinbase_verifying_key();
    assert_eq!(vk.g, g1(1));
    assert_eq!(vk.gamma_g, G1Affine::zero());
    assert_eq!(vk.beta_h.c0, g1(BETA));
    let verifier = CoinbasePuzzle::Verifier(vk);
    assert_eq!(verifier.coinbase_proving_key(), Err(PuzzleError::CannotFetchProvingKey));
    assert_eq!(
        CoinbasePuzzle::trim::<Small>(&srs(3), PuzzleConfig { degree: 0 }),
        Err(PuzzleError::DegreeZero)
    );
    let empty = UniversalSrs { powers_of_beta_g: vec![], ..srs(3) };
    assert_eq!(
        CoinbasePuzzle::trim::<Small>(&empty, PuzzleConfig { degree: 3 }),
        Err(PuzzleError::Primitive)
    );
}

#[test]
fn polynomials_are_evaluated_scaled_and_added() {
    // 2 + 3x + 5x^2 at 7 is 268.
    let p = vec![field(2), field(3), field(5)];
    assert_eq!(evaluate_polynomial::<Small>(&p, &field(7)), field(268));
    assert_eq!(evaluate_polynomial::<Small>(&vec![], &field(7)), field(0));
    assert_eq!(scale_polynomial::<Small>(&p, &field(10)), vec![field(20), field(30), field(50)]);
    assert_eq!(
        add_polynomials::<Small>(&p, &vec![field(1)]),
        vec![field(3), field(3), field(5)]
    );
    assert_eq!(
        add_polynomials::<Small>(&vec![field(1)], &p),
        vec![field(3), field(3), field(5)]
    );
}

#[test]
fn a_solution_that_was_proved_is_verified() {
    let puzzle = puzzle();
    let epoch = epoch();
    for nonce in 0..10 {
        let solution = prove(&puzzle, nonce);
        let target = solution.to_target();
        // The prover's own opening is valid for the commitment.
        let point = Small::hash_commitment(&solution.commitment()).unwrap();
        let polynomial = solution.partial_solution.to_prover_polynomial::<Small>(&epoch);
        let value = Small::field_mul(
            &evaluate_polynomial::<Small>(&polynomial, &point),
            &evaluate_polynomial::<Small>(&epoch.epoch_polynomial, &point),
        );
        assert_eq!(
            Small::check(
                puzzle.coinbase_verifying_key(),
                &solution.commitment(),
                point,
                value,
                &solution.kzg_proof()
            ),
            Some(true)
        );

        let coinbase = puzzle.accumulate_unchecked::<Small>(&epoch, &vec![solution]).unwrap();
        assert_eq!(coinbase.partial_solutions, vec![solution.partial_solution]);
        assert_eq!(coinbase.to_cumulative_proof_target(), Some(u128::from(target)));
        assert_eq!(puzzle.verify::<Small>(&coinbase, &epoch, target, target), Ok(true));
        // A verifier needs no proving key.
        let verifier = CoinbasePuzzle::Verifier(*puzzle.coinbase_verifying_key());
        assert_eq!(verifier.verify::<Small>(&coinbase, &epoch, target, target), Ok(true));
    }
}

#[test]
fn several_solutions_are_accumulated_and_verified() {
    let puzzle = puzzle();
    let epoch = epoch();
    let solutions: Vec<ProverSolution> = (0..4).map(|nonce| prove(&puzzle, nonce)).collect();
    let coinbase = puzzle.accumulate_unchecked::<Small>(&epoch, &solutions).unwrap();
    assert_eq!(coinbase.len(), 4);
    let sum: u128 = solutions.iter().map(|s| u128::from(s.to_target())).sum();
    assert_eq!(coinbase.to_cumulative_proof_target(), Some(sum));
    assert_eq!(puzzle.verify::<Small>(&coinbase, &epoch, 0, 0), Ok(true));
}

#[test]
fn a_proof_below_the_minimum_target_is_refused() {
    let puzzle = puzzle();
    let solution = prove(&puzzle, 1);
    let target = solution.to_target();
    assert!(target < u64::MAX);
    assert_eq!(
        puzzle.prove::<Small>(&epoch(), address_of(&private_key(1)), 1, Some(target)),
        Ok(solution)
    );
    assert_eq!(
        puzzle.prove::<Small>(&epoch(), address_of(&private_key(1)), 1, Some(target + 1)),
        Err(PuzzleError::BelowTarget { proof_target: target, minimum_target: target + 1 })
    );
    let verifier = CoinbasePuzzle::Verifier(*puzzle.coinbase_verifying_key());
    assert_eq!(
        verifier.prove::<Small>(&epoch(), address_of(&private_key(1)), 1, None),
        Err(PuzzleError::CannotProveWithVerifier)
    );
    assert_eq!(
        verifier.accumulate_unchecked::<Small>(&epoch(), &vec![solution]),
        Err(PuzzleError::CannotAccumulateWithVerifier)
    );
}

#[test]
fn a_coinbase_solution_that_was_changed_is_rejected() {
    let puzzle = puzzle();
    let epoch = epoch();
    let solutions = vec![prove(&puzzle, 1), prove(&puzzle, 2)];
    let coinbase = puzzle.accumulate_unchecked::<Small>(&epoch, &solutions).unwrap();
    assert_eq!(puzzle.verify::<Small>(&coinbase, &epoch, 0, 0), Ok(true));

    // Another commitment.
    let mut commitment = coinbase.clone();
    commitment.partial_solutions[0].commitment.point.l0 ^= 1;
    assert_eq!(puzzle.verify::<Small>(&commitment, &epoch, 0, 0), Ok(false));

    // Another opening proof.
    let mut proof = coinbase.clone();
    proof.proof.w.l0 ^= 1;
    assert_eq!(puzzle.verify::<Small>(&proof, &epoch, 0, 0), Ok(false));

    // A hiding proof.
    let mut hiding = coinbase.clone();
    hiding.proof.random_v = Some(field(1));
    assert_eq!(puzzle.verify::<Small>(&hiding, &epoch, 0, 0), Err(PuzzleError::HidingProof));

    // A partial solution twice.
    let mut twice = coinbase.clone();
    twice.partial_solutions.push(coinbase.partial_solutions[0]);
    assert_eq!(
        puzzle.verify::<Small>(&twice, &epoch, 0, 0),
        Err(PuzzleError::DuplicateCommitments)
    );
    assert_eq!(
        puzzle.accumulate_unchecked::<Small>(&epoch, &vec![solutions[0], solutions[0]]),
        Err(PuzzleError::DuplicateProverSolutions)
    );

    // No partial solution, and more than the network allows.
    let none = CoinbaseSolution::new(vec![], coinbase.proof);
    assert_eq!(puzzle.verify::<Small>(&none, &epoch, 0, 0), Err(PuzzleError::NoPartialSolutions));
    assert_eq!(
        puzzle.accumulate_unchecked::<Small>(&epoch, &vec![]),
        Err(PuzzleError::NoProverSolutions)
    );
    let many: Vec<ProverSolution> = (0..5).map(|nonce| prove(&puzzle, nonce)).collect();
    assert_eq!(
        puzzle.accumulate_unchecked::<Small>(&epoch, &many),
        Err(PuzzleError::TooManyProverSolutions { found: 5 })
    );
    let long = CoinbaseSolution::new(
        many.iter().map(|s| s.partial_solution).collect(),
        coinbase.proof,
    );
    assert_eq!(
        puzzle.verify::<Small>(&long, &epoch, 0, 0),
        Err(PuzzleError::TooManyPartialSolutions { found: 5 })
    );
}

#[test]
fn a_coinbase_solution_below_the_targets_is_rejected() {
    let puzzle = puzzle();
    let epoch = epoch();
    let solutions = vec![prove(&puzzle, 1), prove(&puzzle, 2)];
    let coinbase = puzzle.accumulate_unchecked::<Small>(&epoch, &solutions).unwrap();
    let targets: Vec<u64> = solutions.iter().map(|s| s.to_target()).collect();
    let sum = targets[0] + targets[1];
    let least = targets[0].min(targets[1]);
    assert_eq!(puzzle.verify::<Small>(&coinbase, &epoch, sum, least), Ok(true));
    assert_eq!(
        puzzle.verify::<Small>(&coinbase, &epoch, sum + 1, least),
        Err(PuzzleError::BelowCoinbaseTarget)
    );
    assert_eq!(
        puzzle.verify::<Small>(&coinbase, &epoch, sum, least + 1),
        Err(PuzzleError::BelowProofTarget)
    );
}

#[test]
fn hiding_solutions_are_left_out_of_the_accumulation() {
    let puzzle = puzzle();
    let epoch = epoch();
    let shown = prove(&puzzle, 1);
    let hidden = ProverSolution::new(
        PartialSolution::new(shown.address(), 2, prove(&puzzle, 2).commitment()),
        KZGProof { w: g1(1), random_v: Some(field(1)) },
    );
    let coinbase = puzzle.accumulate_unchecked::<Small>(&epoch, &vec![hidden, shown]).unwrap();
    assert_eq!(coinbase.partial_solutions, vec![shown.partial_solution]);
    assert_eq!(coinbase.puzzle_commitments(), vec![shown.commitment().point]);
}
