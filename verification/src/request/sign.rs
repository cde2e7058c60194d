//! Signing a request.

use vstd::prelude::*;
use crate::account::{
    spec_address, spec_compute_key, spec_sk_tag, spec_view_key, ComputeKey, GraphKey, PrivateKey,
    Signature, ViewKey,
};
use crate::environment::{
    generator_multiple, group_multiple, scalar_difference, scalar_product,
};
use crate::field::{Address, Field, Scalar};
use crate::network::Network;
use crate::program::{
    Identifier, ProgramID, ProgramIDView, Record, Value, ValueType, ValueTypeView, ValueView,
};
use crate::record::{
    spec_record_commitment, spec_record_generator, spec_serial_number, spec_tag,
};
use crate::request::{
    encrypt_symmetric, function_id, spec_function_id, spec_private_hash, spec_value_hash,
    value_hash, InputID, Request, RequestError, RequestView,
};

verus! {

/// What the signer has derived before it turns to the inputs.
#[derive(Clone, Copy, PartialEq, Eq, Structural, Debug)]
pub struct SignerState {
    /// The function ID.
    pub function_id: Field,
    /// The address of the signer.
    pub caller: Address,
    /// The signing scalar.
    pub sk_sig: Scalar,
    /// The tag key.
    pub sk_tag: Field,
    /// The transition secret key `r`.
    pub tsk: Scalar,
    /// The transition view key `(r * caller).x`.
    pub tvk: Field,
    /// The transition commitment `Hash(tvk)`.
    pub tcm: Field,
}

/// The ID of one input and what it adds to the signed message, or the error
/// that the input is refused with.
pub open spec fn spec_sign_input<N: Network>(
    state: SignerState,
    program_id: ProgramIDView,
    index: int,
    input: ValueView,
    input_type: ValueTypeView,
) -> Result<(InputID, Seq<Field>), RequestError> {
    match input_type {
        ValueTypeView::Constant => match input {
            ValueView::Record(_) => Err(RequestError::ExpectedPlaintext { index: index as usize }),
            ValueView::Plaintext(fields) => if index > u16::MAX {
                Err(RequestError::IndexOverflow { index: index as usize })
            } else {
                match spec_value_hash::<N>(state.function_id, fields, state.tcm, index as u16) {
                    Some(hash) => Ok((InputID::Constant(hash), seq![hash])),
                    None => Err(RequestError::Primitive),
                }
            },
        },
        ValueTypeView::Public => match input {
            ValueView::Record(_) => Err(RequestError::ExpectedPlaintext { index: index as usize }),
            ValueView::Plaintext(fields) => if index > u16::MAX {
                Err(RequestError::IndexOverflow { index: index as usize })
            } else {
                match spec_value_hash::<N>(state.function_id, fields, state.tcm, index as u16) {
                    Some(hash) => Ok((InputID::Public(hash), seq![hash])),
                    None => Err(RequestError::Primitive),
                }
            },
        },
        ValueTypeView::Private => match input {
            ValueView::Record(_) => Err(RequestError::ExpectedPlaintext { index: index as usize }),
            ValueView::Plaintext(fields) => if index > u16::MAX {
                Err(RequestError::IndexOverflow { index: index as usize })
            } else {
                match spec_private_hash::<N>(state.function_id, fields, state.tvk, index as u16) {
                    Some(hash) => Ok((InputID::Private(hash), seq![hash])),
                    None => Err(RequestError::Primitive),
                }
            },
        },
        ValueTypeView::Record(record_name) => match input {
            ValueView::Plaintext(_) => Err(RequestError::ExpectedRecord { index: index as usize }),
            ValueView::Record(record) => match spec_record_commitment::<N>(
                record,
                program_id,
                record_name,
            ) {
                None => Err(RequestError::Primitive),
                Some(commitment) => if record.owner != state.caller {
                    Err(RequestError::OwnerMismatch { index: index as usize })
                } else if !record.gates_in_range() {
                    Err(RequestError::InvalidGates { index: index as usize })
                } else {
                    match spec_record_generator::<N>(commitment) {
                        None => Err(RequestError::Primitive),
                        Some(h) => {
                            let h_r = group_multiple::<N>(h, state.tsk);
                            let gamma = group_multiple::<N>(h, state.sk_sig);
                            match spec_serial_number::<N>(gamma, commitment) {
                                None => Err(RequestError::Primitive),
                                Some(serial_number) => match spec_tag::<N>(
                                    state.sk_tag,
                                    commitment,
                                ) {
                                    None => Err(RequestError::Primitive),
                                    Some(tag) => Ok(
                                        (
                                            InputID::Record(commitment, gamma, serial_number, tag),
                                            seq![h.x, h_r.x, gamma.x, tag],
                                        ),
                                    ),
                                },
                            }
                        },
                    }
                },
            },
        },
        ValueTypeView::ExternalRecord => match input {
            ValueView::Plaintext(_) => Err(RequestError::ExpectedRecord { index: index as usize }),
            ValueView::Record(record) => if index > u16::MAX {
                Err(RequestError::IndexOverflow { index: index as usize })
            } else {
                match spec_value_hash::<N>(
                    state.function_id,
                    record.fields(),
                    state.tvk,
                    index as u16,
                ) {
                    Some(hash) => Ok((InputID::ExternalRecord(hash), seq![hash])),
                    None => Err(RequestError::Primitive),
                }
            },
        },
    }
}

/// The IDs of the first `n` inputs and what they add to the signed message, or
/// the error of the first input that is refused.
pub open spec fn spec_sign_inputs<N: Network>(
    state: SignerState,
    program_id: ProgramIDView,
    inputs: Seq<ValueView>,
    input_types: Seq<ValueTypeView>,
    n: nat,
) -> Result<(Seq<InputID>, Seq<Field>), RequestError>
    decreases n,
{
    if n == 0 {
        Ok((Seq::empty(), Seq::empty()))
    } else {
        match spec_sign_inputs::<N>(state, program_id, inputs, input_types, (n - 1) as nat) {
            Err(e) => Err(e),
            Ok((ids, message)) => match spec_sign_input::<N>(
                state,
                program_id,
                n - 1,
                inputs[n - 1],
                input_types[n - 1],
            ) {
                Err(e) => Err(e),
                Ok((id, part)) => Ok((ids.push(id), message + part)),
            },
        }
    }
}

/// An input that is refused stays refused, with the same error, however many
/// more inputs follow it.
pub proof fn lemma_sign_inputs_error_stays<N: Network>(
    state: SignerState,
    program_id: ProgramIDView,
    inputs: Seq<ValueView>,
    input_types: Seq<ValueTypeView>,
    n: nat,
    m: nat,
)
    requires
        n <= m,
        spec_sign_inputs::<N>(state, program_id, inputs, input_types, n) is Err,
    ensures
        spec_sign_inputs::<N>(state, program_id, inputs, input_types, m) == spec_sign_inputs::<N>(
            state,
            program_id,
            inputs,
            input_types,
            n,
        ),
    decreases m,
{
    if n < m {
        lemma_sign_inputs_error_stays::<N>(
            state,
            program_id,
            inputs,
            input_types,
            n,
            (m - 1) as nat,
        );
    }
}

/// The transition secret key `r`: `HashToScalar(domain, sk_sig, nonce)`.
pub open spec fn spec_tsk<N: Network>(sk_sig: Scalar, nonce: Field) -> Option<Scalar> {
    N::spec_hash_to_scalar_psd4(seq![N::spec_serial_number_domain(), sk_sig.repr, nonce])
}

/// What the signer derives from the private key, the function and the nonce,
/// with the compute key; `None` where a primitive rejects its input.
pub open spec fn spec_signer_state<N: Network>(
    private_key: PrivateKey,
    program_id: ProgramIDView,
    function_name: Seq<u8>,
    nonce: Field,
) -> Option<(SignerState, ComputeKey)> {
    match (
        spec_view_key::<N>(private_key),
        spec_compute_key::<N>(private_key),
        spec_tsk::<N>(private_key.sk_sig, nonce),
        spec_function_id::<N>(N::ID, program_id, function_name),
    ) {
        (Some(view_key), Some(compute_key), Some(tsk), Some(function_id)) => {
            let caller = spec_address::<N>(compute_key);
            let tvk = group_multiple::<N>(caller.point, tsk).x;
            match (spec_sk_tag::<N>(view_key), N::spec_hash_psd2(seq![tvk])) {
                (Some(sk_tag), Some(tcm)) => Some(
                    (
                        SignerState {
                            function_id,
                            caller,
                            sk_sig: private_key.sk_sig,
                            sk_tag,
                            tsk,
                            tvk,
                            tcm,
                        },
                        compute_key,
                    ),
                ),
                _ => None,
            }
        },
        _ => None,
    }
}

/// The head of the signed message:
/// `(r * G, pk_sig, pr_sig, caller, tvk, tcm, function ID)`.
pub open spec fn message_head<N: Network>(state: SignerState, compute_key: ComputeKey) -> Seq<
    Field,
> {
    seq![
        generator_multiple::<N>(state.tsk).x,
        compute_key.pk_sig.x,
        compute_key.pr_sig.x,
        state.caller.point.x,
        state.tvk,
        state.tcm,
        state.function_id,
    ]
}

/// The request that signing gives, or the error it fails with, where:
///     challenge := HashToScalar(r * G, pk_sig, pr_sig, caller, \[tvk, tcm, function ID, input IDs\])
///     response := r - challenge * sk_sig
pub open spec fn spec_sign<N: Network>(
    private_key: PrivateKey,
    program_id: ProgramIDView,
    function_name: Seq<u8>,
    inputs: Seq<ValueView>,
    input_types: Seq<ValueTypeView>,
    nonce: Field,
) -> Result<RequestView, RequestError> {
    if input_types.len() != inputs.len() {
        Err(
            RequestError::InputCountMismatch {
                expected: input_types.len() as usize,
                found: inputs.len() as usize,
            },
        )
    } else {
        match spec_signer_state::<N>(private_key, program_id, function_name, nonce) {
            None => Err(RequestError::Primitive),
            Some((state, compute_key)) => match spec_sign_inputs::<N>(
                state,
                program_id,
                inputs,
                input_types,
                inputs.len(),
            ) {
                Err(e) => Err(e),
                Ok((input_ids, message)) => match N::spec_hash_to_scalar_psd8(
                    message_head::<N>(state, compute_key) + message,
                ) {
                    None => Err(RequestError::Primitive),
                    Some(challenge) => Ok(
                        RequestView {
                            caller: state.caller,
                            network_id: N::ID,
                            program_id,
                            function_name,
                            input_ids,
                            inputs,
                            signature: Signature {
                                challenge,
                                response: scalar_difference::<N>(
                                    state.tsk,
                                    scalar_product::<N>(challenge, state.sk_sig),
                                ),
                                compute_key,
                            },
                            sk_tag: state.sk_tag,
                            tvk: state.tvk,
                            tsk: state.tsk,
                            tcm: state.tcm,
                        },
                    ),
                },
            },
        }
    }
}

/// Derives what the signer needs before it turns to the inputs.
pub fn signer_state<N: Network>(
    private_key: &PrivateKey,
    program_id: &ProgramID,
    function_name: &Identifier,
    nonce: Field,
) -> (r: Option<(SignerState, ComputeKey)>)
    ensures
        r == spec_signer_state::<N>(
            *private_key,
            program_id.deep_view(),
            function_name.deep_view(),
            nonce,
        ),
{
    // Retrieve `sk_sig`.
    let sk_sig = private_key.sk_sig();
    // Derive the view key.
    let view_key = match ViewKey::from_private_key::<N>(private_key) {
        Some(view_key) => view_key,
        None => return None,
    };
    // Derive `sk_tag` from the graph key.
    let sk_tag = match GraphKey::from_view_key::<N>(&view_key) {
        Some(graph_key) => graph_key.sk_tag(),
        None => return None,
    };
    // Derive the compute key.
    let compute_key = match ComputeKey::from_private_key::<N>(private_key) {
        Some(compute_key) => compute_key,
        None => return None,
    };
    // Compute `r` as `HashToScalar(sk_sig || nonce)`: the transition secret key `tsk`.
    let mut preimage: Vec<Field> = Vec::new();
    preimage.push(N::serial_number_domain());
    preimage.push(sk_sig.to_field());
    preimage.push(nonce);
    assert(preimage@ =~= seq![N::spec_serial_number_domain(), sk_sig.repr, nonce]);
    let tsk = match N::hash_to_scalar_psd4(&preimage) {
        Some(tsk) => tsk,
        None => return None,
    };
    // Derive the caller from the compute key.
    let caller = compute_key.to_address::<N>();
    // Compute the transition view key `tvk` as `r * caller`.
    let tvk = N::group_scale(&caller.point, &tsk).to_x_coordinate();
    // Compute the transition commitment `tcm` as `Hash(tvk)`.
    let mut tvk_preimage: Vec<Field> = Vec::new();
    tvk_preimage.push(tvk);
    assert(tvk_preimage@ =~= seq![tvk]);
    let tcm = match N::hash_psd2(&tvk_preimage) {
        Some(tcm) => tcm,
        None => return None,
    };
    // Compute the function ID as `Hash(network_id, program_id, function_name)`.
    let function_id = match function_id::<N>(N::ID, program_id, function_name) {
        Some(function_id) => function_id,
        None => return None,
    };
    Some((SignerState { function_id, caller, sk_sig, sk_tag, tsk, tvk, tcm }, compute_key))
}

/// Prepares one input: computes its ID and what it adds to the signed message.
pub fn sign_input<N: Network>(
    state: &SignerState,
    program_id: &ProgramID,
    index: usize,
    input: &Value,
    input_type: &ValueType,
) -> (r: Result<(InputID, Vec<Field>), RequestError>)
    ensures
        match r {
            Ok((id, part)) => spec_sign_input::<N>(
                *state,
                program_id.deep_view(),
                index as int,
                input.deep_view(),
                input_type.deep_view(),
            ) == Ok::<(InputID, Seq<Field>), RequestError>((id, part@)),
            Err(e) => spec_sign_input::<N>(
                *state,
                program_id.deep_view(),
                index as int,
                input.deep_view(),
                input_type.deep_view(),
            ) == Err::<(InputID, Seq<Field>), RequestError>(e),
        },
{
    match input_type {
        // A constant input is hashed (using `tcm`) to a field element.
        ValueType::Constant => {
            // Ensure the input is a plaintext.
            let plaintext = match input {
                Value::Plaintext(plaintext) => plaintext,
                Value::Record(_) => return Err(RequestError::ExpectedPlaintext { index }),
            };
            if index > u16::MAX as usize {
                return Err(RequestError::IndexOverflow { index });
            }
            // Hash the preimage `(function ID || input || tcm || index)`.
            match value_hash::<N>(
                state.function_id,
                plaintext.to_fields(),
                state.tcm,
                index as u16,
            ) {
                Some(input_hash) => {
                    let mut part: Vec<Field> = Vec::new();
                    part.push(input_hash);
                    assert(part@ =~= seq![input_hash]);
                    Ok((InputID::Constant(input_hash), part))
                },
                None => Err(RequestError::Primitive),
            }
        },
        // A public input is hashed (using `tcm`) to a field element.
        ValueType::Public => {
            // Ensure the input is a plaintext.
            let plaintext = match input {
                Value::Plaintext(plaintext) => plaintext,
                Value::Record(_) => return Err(RequestError::ExpectedPlaintext { index }),
            };
            if index > u16::MAX as usize {
                return Err(RequestError::IndexOverflow { index });
            }
            // Hash the preimage `(function ID || input || tcm || index)`.
            match value_hash::<N>(
                state.function_id,
                plaintext.to_fields(),
                state.tcm,
                index as u16,
            ) {
                Some(input_hash) => {
                    let mut part: Vec<Field> = Vec::new();
                    part.push(input_hash);
                    assert(part@ =~= seq![input_hash]);
                    Ok((InputID::Public(input_hash), part))
                },
                None => Err(RequestError::Primitive),
            }
        },
        // A private input is encrypted (using `tvk`) and hashed to a field element.
        ValueType::Private => {
            // Ensure the input is a plaintext.
            let plaintext = match input {
                Value::Plaintext(plaintext) => plaintext,
                Value::Record(_) => return Err(RequestError::ExpectedPlaintext { index }),
            };
            if index > u16::MAX as usize {
                return Err(RequestError::IndexOverflow { index });
            }
            match private_hash::<N>(state.function_id, &plaintext.fields, state.tvk, index as u16) {
                Some(input_hash) => {
                    let mut part: Vec<Field> = Vec::new();
                    part.push(input_hash);
                    assert(part@ =~= seq![input_hash]);
                    Ok((InputID::Private(input_hash), part))
                },
                None => Err(RequestError::Primitive),
            }
        },
        // A record input is computed to its serial number.
        ValueType::Record(record_name) => {
            // Retrieve the record.
            let record = match input {
                Value::Record(record) => record,
                Value::Plaintext(_) => return Err(RequestError::ExpectedRecord { index }),
            };
            // Compute the record commitment.
            let commitment = match record.to_commitment::<N>(program_id, record_name) {
                Some(commitment) => commitment,
                None => return Err(RequestError::Primitive),
            };
            // Ensure the record belongs to the caller.
            if record.owner() != state.caller {
                return Err(RequestError::OwnerMismatch { index });
            }
            // Ensure the record gates is less than 2^52.
            if !record.gates_in_range() {
                return Err(RequestError::InvalidGates { index });
            }
            // Compute the generator `H` as `HashToGroup(commitment)`.
            let h = match Record::generator::<N>(commitment) {
                Some(h) => h,
                None => return Err(RequestError::Primitive),
            };
            // Compute `h_r` as `r * H`.
            let h_r = N::group_scale(&h, &state.tsk);
            // Compute `gamma` as `sk_sig * H`.
            let gamma = N::group_scale(&h, &state.sk_sig);
            // Compute the `serial_number` from `gamma`.
            let serial_number = match Record::serial_number_from_gamma::<N>(&gamma, commitment) {
                Some(serial_number) => serial_number,
                None => return Err(RequestError::Primitive),
            };
            // Compute the tag.
            let tag = match Record::tag::<N>(state.sk_tag, commitment) {
                Some(tag) => tag,
                None => return Err(RequestError::Primitive),
            };
            // Add (`H`, `r * H`, `gamma`, `tag`) to the preimage.
            let mut part: Vec<Field> = Vec::new();
            part.push(h.to_x_coordinate());
            part.push(h_r.to_x_coordinate());
            part.push(gamma.to_x_coordinate());
            part.push(tag);
            assert(part@ =~= seq![h.x, h_r.x, gamma.x, tag]);
            Ok((InputID::Record(commitment, gamma, serial_number, tag), part))
        },
        // An external record input is hashed (using `tvk`) to a field element.
        ValueType::ExternalRecord => {
            // Ensure the input is a record.
            let record = match input {
                Value::Record(record) => record,
                Value::Plaintext(_) => return Err(RequestError::ExpectedRecord { index }),
            };
            if index > u16::MAX as usize {
                return Err(RequestError::IndexOverflow { index });
            }
            // Hash the preimage `(function ID || input || tvk || index)`.
            match value_hash::<N>(state.function_id, record.to_fields(), state.tvk, index as u16) {
                Some(input_hash) => {
                    let mut part: Vec<Field> = Vec::new();
                    part.push(input_hash);
                    assert(part@ =~= seq![input_hash]);
                    Ok((InputID::ExternalRecord(input_hash), part))
                },
                None => Err(RequestError::Primitive),
            }
        },
    }
}

/// Encrypts a private value under `Hash(function ID || tvk || index)` and
/// hashes the ciphertext.
pub fn private_hash<N: Network>(function_id: Field, fields: &Vec<Field>, tvk: Field, index: u16) -> (r:
    Option<Field>)
    ensures
        r == spec_private_hash::<N>(function_id, fields@, tvk, index),
{
    // Compute the input view key as `Hash(function ID || tvk || index)`.
    let mut preimage: Vec<Field> = Vec::new();
    preimage.push(function_id);
    preimage.push(tvk);
    preimage.push(Field::from_u16(index));
    assert(preimage@ =~= seq![function_id, tvk, Field::spec_from_u64(index as u64)]);
    match N::hash_psd4(&preimage) {
        Some(view_key) => match encrypt_symmetric::<N>(fields, view_key) {
            // Hash the ciphertext to a field element.
            Some(ciphertext) => N::hash_psd8(&ciphertext),
            None => None,
        },
        None => None,
    }
}

impl Request {
    /// Returns the request for a given private key, program ID, function name, inputs, input types, and nonce, where:
    ///     challenge := HashToScalar(r * G, pk_sig, pr_sig, caller, \[tvk, tcm, function ID, input IDs\])
    ///     response := r - challenge * sk_sig
    ///
    /// The nonce is the randomness of the signature: the caller draws it afresh for each request.
    pub fn sign<N: Network>(
        private_key: &PrivateKey,
        program_id: ProgramID,
        function_name: Identifier,
        inputs: Vec<Value>,
        input_types: &Vec<ValueType>,
        nonce: Field,
    ) -> (r: Result<Request, RequestError>)
        ensures
            match r {
                Ok(request) => spec_sign::<N>(
                    *private_key,
                    program_id.deep_view(),
                    function_name.deep_view(),
                    inputs.deep_view(),
                    input_types.deep_view(),
                    nonce,
                ) == Ok::<RequestView, RequestError>(request.deep_view()),
                Err(e) => spec_sign::<N>(
                    *private_key,
                    program_id.deep_view(),
                    function_name.deep_view(),
                    inputs.deep_view(),
                    input_types.deep_view(),
                    nonce,
                ) == Err::<RequestView, RequestError>(e),
            },
    {
        // Ensure the number of inputs matches the number of input types.
        if input_types.len() != inputs.len() {
            return Err(
                RequestError::InputCountMismatch {
                    expected: input_types.len(),
                    found: inputs.len(),
                },
            );
        }
        let (state, compute_key) = match signer_state::<N>(
            private_key,
            &program_id,
            &function_name,
            nonce,
        ) {
            Some(derived) => derived,
            None => return Err(RequestError::Primitive),
        };
        // Compute `g_r` as `r * G`: the transition public key `tpk`.
        let g_r = N::g_scalar_multiply(&state.tsk);

        // Construct the hash input as `(r * G, pk_sig, pr_sig, caller, [tvk, tcm, function ID, input IDs])`.
        let mut message: Vec<Field> = Vec::new();
        message.push(g_r.to_x_coordinate());
        message.push(compute_key.pk_sig().to_x_coordinate());
        message.push(compute_key.pr_sig().to_x_coordinate());
        message.push(state.caller.to_field());
        message.push(state.tvk);
        message.push(state.tcm);
        message.push(state.function_id);
        assert(message@ =~= message_head::<N>(state, compute_key));

        // Initialize a vector to store the input IDs.
        let mut input_ids: Vec<InputID> = Vec::new();

        // Prepare the inputs.
        let mut index: usize = 0;
        assert(message@.skip(7) =~= Seq::<Field>::empty());
        assert(message@.take(7) =~= message@);
        while index < inputs.len()
            invariant
                index <= inputs.len(),
                input_types.len() == inputs.len(),
                spec_signer_state::<N>(
                    *private_key,
                    program_id.deep_view(),
                    function_name.deep_view(),
                    nonce,
                ) == Some((state, compute_key)),
                spec_sign_inputs::<N>(
                    state,
                    program_id.deep_view(),
                    inputs.deep_view(),
                    input_types.deep_view(),
                    index as nat,
                ) == Ok::<(Seq<InputID>, Seq<Field>), RequestError>(
                    (input_ids@, message@.skip(7)),
                ),
                message@.take(7) == message_head::<N>(state, compute_key),
                message@.len() >= 7,
            decreases inputs.len() - index,
        {
            let ghost before = message@;
            match sign_input::<N>(
                &state,
                &program_id,
                index,
                &inputs[index],
                &input_types[index],
            ) {
                Ok((input_id, mut part)) => {
                    let ghost added = part@;
                    input_ids.push(input_id);
                    message.append(&mut part);
                    assert(message@.skip(7) =~= before.skip(7) + added);
                    assert(message@.take(7) =~= before.take(7));
                },
                Err(e) => {
                    proof {
                        assert(inputs.deep_view()[index as int] == inputs@[index as int].deep_view());
                        assert(input_types.deep_view()[index as int]
                            == input_types@[index as int].deep_view());
                        assert(spec_sign_inputs::<N>(
                            state,
                            program_id.deep_view(),
                            inputs.deep_view(),
                            input_types.deep_view(),
                            (index + 1) as nat,
                        ) == Err::<(Seq<InputID>, Seq<Field>), RequestError>(e));
                        lemma_sign_inputs_error_stays::<N>(
                            state,
                            program_id.deep_view(),
                            inputs.deep_view(),
                            input_types.deep_view(),
                            (index + 1) as nat,
                            inputs.len() as nat,
                        );
                    }
                    return Err(e);
                },
            }
            index += 1;
        }
        assert(message@ =~= message_head::<N>(state, compute_key) + message@.skip(7));

        // Compute `challenge` as `HashToScalar(r * G, pk_sig, pr_sig, caller, [tvk, tcm, function ID, input IDs])`.
        let challenge = match N::hash_to_scalar_psd8(&message) {
            Some(challenge) => challenge,
            None => return Err(RequestError::Primitive),
        };
        // Compute `response` as `r - challenge * sk_sig`.
        let response = N::scalar_sub(&state.tsk, &N::scalar_mul(&challenge, &state.sk_sig));

        Ok(
            Request {
                caller: state.caller,
                network_id: N::ID,
                program_id,
                function_name,
                input_ids,
                inputs,
                signature: Signature { challenge, response, compute_key },
                sk_tag: state.sk_tag,
                tvk: state.tvk,
                tsk: state.tsk,
                tcm: state.tcm,
            },
        )
    }
}

} // verus!
