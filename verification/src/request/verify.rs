//! Checking a request.

use vstd::prelude::*;
use crate::account::{spec_address, Signature};
use crate::environment::{group_multiple, group_sum};
use crate::field::{Address, Field, Group};
use crate::network::Network;
use crate::program::{
    Identifier, ProgramID, ProgramIDView, Record, Value, ValueType, ValueTypeView, ValueView,
};
use crate::record::{
    spec_record_commitment, spec_record_generator, spec_serial_number, spec_tag,
};
use crate::request::sign::private_hash;
use crate::request::{
    function_id, spec_function_id, spec_private_hash, spec_to_tpk, spec_value_hash, value_hash,
    InputID, Request, RequestError, RequestView,
};

verus! {

/// What the verifier of input IDs holds: the public parts of a request.
#[derive(Clone, Copy, PartialEq, Eq, Structural, Debug)]
pub struct VerifierState {
    /// The function ID.
    pub function_id: Field,
    /// The address of the caller.
    pub caller: Address,
    /// The tag key.
    pub sk_tag: Field,
    /// The transition view key.
    pub tvk: Field,
    /// The transition commitment.
    pub tcm: Field,
}

/// Whether one input matches its ID, and what the input adds to the signed
/// message where a signature is given; or the error for an input of the
/// wrong kind.
///
/// For a record, `r * H` is recovered without `r`, as
/// `challenge * gamma + response * H`.
pub open spec fn spec_check_input<N: Network>(
    state: VerifierState,
    program_id: ProgramIDView,
    signature: Option<Signature>,
    index: int,
    input_id: InputID,
    input: ValueView,
    input_type: ValueTypeView,
) -> Result<(bool, Seq<Field>), RequestError> {
    match input_id {
        InputID::Constant(input_hash) => match input {
            ValueView::Record(_) => Err(RequestError::ExpectedPlaintext { index: index as usize }),
            ValueView::Plaintext(fields) => if index > u16::MAX {
                Err(RequestError::IndexOverflow { index: index as usize })
            } else {
                match spec_value_hash::<N>(state.function_id, fields, state.tcm, index as u16) {
                    Some(hash) => Ok(
                        (input_hash == hash, if signature is Some {
                            seq![input_hash]
                        } else {
                            Seq::empty()
                        }),
                    ),
                    None => Err(RequestError::Primitive),
                }
            },
        },
        InputID::Public(input_hash) => match input {
            ValueView::Record(_) => Err(RequestError::ExpectedPlaintext { index: index as usize }),
            ValueView::Plaintext(fields) => if index > u16::MAX {
                Err(RequestError::IndexOverflow { index: index as usize })
            } else {
                match spec_value_hash::<N>(state.function_id, fields, state.tcm, index as u16) {
                    Some(hash) => Ok(
                        (input_hash == hash, if signature is Some {
                            seq![input_hash]
                        } else {
                            Seq::empty()
                        }),
                    ),
                    None => Err(RequestError::Primitive),
                }
            },
        },
        InputID::Private(input_hash) => match input {
            ValueView::Record(_) => Err(RequestError::ExpectedPlaintext { index: index as usize }),
            ValueView::Plaintext(fields) => if index > u16::MAX {
                Err(RequestError::IndexOverflow { index: index as usize })
            } else {
                match spec_private_hash::<N>(state.function_id, fields, state.tvk, index as u16) {
                    Some(hash) => Ok(
                        (input_hash == hash, if signature is Some {
                            seq![input_hash]
                        } else {
                            Seq::empty()
                        }),
                    ),
                    None => Err(RequestError::Primitive),
                }
            },
        },
        InputID::Record(commitment, gamma, serial_number, tag) => match input {
            ValueView::Plaintext(_) => Err(RequestError::ExpectedRecord { index: index as usize }),
            ValueView::Record(record) => match input_type {
                ValueTypeView::Record(record_name) => match spec_record_commitment::<N>(
                    record,
                    program_id,
                    record_name,
                ) {
                    None => Err(RequestError::Primitive),
                    Some(candidate_commitment) => match (
                        spec_serial_number::<N>(gamma, candidate_commitment),
                        spec_tag::<N>(state.sk_tag, candidate_commitment),
                    ) {
                        (Some(candidate_serial_number), Some(candidate_tag)) => {
                            let checks = serial_number == candidate_serial_number && commitment
                                == candidate_commitment && tag == candidate_tag && record.owner
                                == state.caller && record.gates_in_range();
                            match signature {
                                None => Ok((checks, Seq::empty())),
                                Some(signature) => match spec_record_generator::<N>(
                                    candidate_commitment,
                                ) {
                                    None => Err(RequestError::Primitive),
                                    Some(h) => {
                                        let h_r = group_sum::<N>(
                                            group_multiple::<N>(gamma, signature.challenge),
                                            group_multiple::<N>(h, signature.response),
                                        );
                                        Ok((checks, seq![h.x, h_r.x, gamma.x, candidate_tag]))
                                    },
                                },
                            }
                        },
                        _ => Err(RequestError::Primitive),
                    },
                },
                _ => Err(RequestError::ExpectedRecordType { index: index as usize }),
            },
        },
        InputID::ExternalRecord(input_hash) => match input {
            ValueView::Plaintext(_) => Err(RequestError::ExpectedRecord { index: index as usize }),
            ValueView::Record(record) => if index > u16::MAX {
                Err(RequestError::IndexOverflow { index: index as usize })
            } else {
                match spec_value_hash::<N>(
                    state.function_id,
                    record.fields(),
                    state.tvk,
                    index as u16,
                ) {
                    Some(hash) => Ok(
                        (input_hash == hash, if signature is Some {
                            seq![input_hash]
                        } else {
                            Seq::empty()
                        }),
                    ),
                    None => Err(RequestError::Primitive),
                }
            },
        },
    }
}

/// Whether each of the first `n` inputs matches its ID, and what they add to
/// the signed message; or the error of the first input of the wrong kind.
pub open spec fn spec_check_inputs<N: Network>(
    state: VerifierState,
    program_id: ProgramIDView,
    signature: Option<Signature>,
    input_ids: Seq<InputID>,
    inputs: Seq<ValueView>,
    input_types: Seq<ValueTypeView>,
    n: nat,
) -> Result<(bool, Seq<Field>), RequestError>
    decreases n,
{
    if n == 0 {
        Ok((true, Seq::empty()))
    } else {
        match spec_check_inputs::<N>(
            state,
            program_id,
            signature,
            input_ids,
            inputs,
            input_types,
            (n - 1) as nat,
        ) {
            Err(e) => Err(e),
            Ok((checks, message)) => match spec_check_input::<N>(
                state,
                program_id,
                signature,
                n - 1,
                input_ids[n - 1],
                inputs[n - 1],
                input_types[n - 1],
            ) {
                Err(e) => Err(e),
                Ok((check, part)) => Ok((checks && check, message + part)),
            },
        }
    }
}

/// Whether the inputs match their input IDs, with the message that they add
/// to the signature's where a signature is given.
pub open spec fn spec_check_input_ids<N: Network>(
    network_id: u16,
    program_id: ProgramIDView,
    function_name: Seq<u8>,
    input_ids: Seq<InputID>,
    inputs: Seq<ValueView>,
    input_types: Seq<ValueTypeView>,
    caller: Address,
    sk_tag: Field,
    tvk: Field,
    tcm: Field,
    signature: Option<Signature>,
) -> Result<(bool, Option<Seq<Field>>), RequestError> {
    if input_ids.len() != inputs.len() {
        Err(
            RequestError::InputIDCountMismatch {
                expected: inputs.len() as usize,
                found: input_ids.len() as usize,
            },
        )
    } else if input_types.len() != inputs.len() {
        Err(
            RequestError::InputCountMismatch {
                expected: input_types.len() as usize,
                found: inputs.len() as usize,
            },
        )
    } else {
        match spec_function_id::<N>(network_id, program_id, function_name) {
            None => Err(RequestError::Primitive),
            Some(function_id) => match spec_check_inputs::<N>(
                VerifierState { function_id, caller, sk_tag, tvk, tcm },
                program_id,
                signature,
                input_ids,
                inputs,
                input_types,
                inputs.len(),
            ) {
                Err(e) => Err(e),
                Ok((checks, message)) => Ok(
                    (checks, if signature is Some {
                        Some(message)
                    } else {
                        None
                    }),
                ),
            },
        }
    }
}

/// The outcome of checking a request against a transition public key:
/// `true` where the input IDs are derived correctly, the input records all
/// belong to the caller, the transition commitment is the hash of the
/// transition view key, and the signature is valid for `tpk`.
pub open spec fn spec_verify<N: Network>(
    request: RequestView,
    input_types: Seq<ValueTypeView>,
    tpk: Group,
) -> Result<bool, RequestError> {
    match spec_check_input_ids::<N>(
        request.network_id,
        request.program_id,
        request.function_name,
        request.input_ids,
        request.inputs,
        input_types,
        request.caller,
        request.sk_tag,
        request.tvk,
        request.tcm,
        Some(request.signature),
    ) {
        Err(e) => Err(e),
        Ok((input_checks, message)) => match (
            spec_function_id::<N>(request.network_id, request.program_id, request.function_name),
            N::spec_hash_psd2(seq![request.tvk]),
        ) {
            (Some(function_id), Some(tcm)) => match N::spec_hash_to_scalar_psd8(
                seq![
                    tpk.x,
                    request.signature.compute_key.pk_sig.x,
                    request.signature.compute_key.pr_sig.x,
                    request.caller.point.x,
                    request.tvk,
                    request.tcm,
                    function_id,
                ] + message.unwrap(),
            ) {
                None => Err(RequestError::Primitive),
                Some(candidate_challenge) => Ok(
                    request.signature.challenge == candidate_challenge && request.caller
                        == spec_address::<N>(request.signature.compute_key) && input_checks && tpk
                        == spec_to_tpk::<N>(request.signature) && tcm == request.tcm,
                ),
            },
            _ => Err(RequestError::Primitive),
        },
    }
}

/// An input of the wrong kind stays an error, however many more inputs follow it.
pub proof fn lemma_check_inputs_error_stays<N: Network>(
    state: VerifierState,
    program_id: ProgramIDView,
    signature: Option<Signature>,
    input_ids: Seq<InputID>,
    inputs: Seq<ValueView>,
    input_types: Seq<ValueTypeView>,
    n: nat,
    m: nat,
)
    requires
        n <= m,
        spec_check_inputs::<N>(state, program_id, signature, input_ids, inputs, input_types, n)
            is Err,
    ensures
        spec_check_inputs::<N>(state, program_id, signature, input_ids, inputs, input_types, m)
            == spec_check_inputs::<N>(
            state,
            program_id,
            signature,
            input_ids,
            inputs,
            input_types,
            n,
        ),
    decreases m,
{
    if n < m {
        lemma_check_inputs_error_stays::<N>(
            state,
            program_id,
            signature,
            input_ids,
            inputs,
            input_types,
            n,
            (m - 1) as nat,
        );
    }
}

/// The one field element that a hashed input adds to the message, where a
/// signature is given.
fn message_part(signature: Option<&Signature>, input_hash: Field) -> (r: Vec<Field>)
    ensures
        r@ == if signature is Some {
            seq![input_hash]
        } else {
            Seq::<Field>::empty()
        },
{
    let mut part: Vec<Field> = Vec::new();
    if signature.is_some() {
        part.push(input_hash);
    }
    assert(signature is Some ==> part@ =~= seq![input_hash]);
    assert(signature is None ==> part@ =~= Seq::<Field>::empty());
    part
}

/// Checks one input against its ID.
pub fn check_input<N: Network>(
    state: &VerifierState,
    program_id: &ProgramID,
    signature: Option<&Signature>,
    index: usize,
    input_id: &InputID,
    input: &Value,
    input_type: &ValueType,
) -> (r: Result<(bool, Vec<Field>), RequestError>)
    ensures
        match r {
            Ok((check, part)) => spec_check_input::<N>(
                *state,
                program_id.deep_view(),
                match signature {
                    Some(s) => Some(*s),
                    None => None,
                },
                index as int,
                *input_id,
                input.deep_view(),
                input_type.deep_view(),
            ) == Ok::<(bool, Seq<Field>), RequestError>((check, part@)),
            Err(e) => spec_check_input::<N>(
                *state,
                program_id.deep_view(),
                match signature {
                    Some(s) => Some(*s),
                    None => None,
                },
                index as int,
                *input_id,
                input.deep_view(),
                input_type.deep_view(),
            ) == Err::<(bool, Seq<Field>), RequestError>(e),
        },
{
    match input_id {
        // A constant input is hashed (using `tcm`) to a field element.
        InputID::Constant(input_hash) => {
            // Ensure the input is not a record.
            let plaintext = match input {
                Value::Plaintext(plaintext) => plaintext,
                Value::Record(_) => return Err(RequestError::ExpectedPlaintext { index }),
            };
            if index > u16::MAX as usize {
                return Err(RequestError::IndexOverflow { index });
            }
            // Ensure the expected hash matches the computed hash.
            match value_hash::<N>(
                state.function_id,
                plaintext.to_fields(),
                state.tcm,
                index as u16,
            ) {
                Some(hash) => Ok((*input_hash == hash, message_part(signature, *input_hash))),
                None => Err(RequestError::Primitive),
            }
        },
        // A public input is hashed (using `tcm`) to a field element.
        InputID::Public(input_hash) => {
            // Ensure the input is not a record.
            let plaintext = match input {
                Value::Plaintext(plaintext) => plaintext,
                Value::Record(_) => return Err(RequestError::ExpectedPlaintext { index }),
            };
            if index > u16::MAX as usize {
                return Err(RequestError::IndexOverflow { index });
            }
            // Ensure the expected hash matches the computed hash.
            match value_hash::<N>(
                state.function_id,
                plaintext.to_fields(),
                state.tcm,
                index as u16,
            ) {
                Some(hash) => Ok((*input_hash == hash, message_part(signature, *input_hash))),
                None => Err(RequestError::Primitive),
            }
        },
        // A private input is encrypted (using `tvk`) and hashed to a field element.
        InputID::Private(input_hash) => {
            // Ensure the input is a plaintext.
            let plaintext = match input {
                Value::Plaintext(plaintext) => plaintext,
                Value::Record(_) => return Err(RequestError::ExpectedPlaintext { index }),
            };
            if index > u16::MAX as usize {
                return Err(RequestError::IndexOverflow { index });
            }
            // Ensure the expected hash matches the computed hash.
            match private_hash::<N>(state.function_id, &plaintext.fields, state.tvk, index as u16) {
                Some(hash) => Ok((*input_hash == hash, message_part(signature, *input_hash))),
                None => Err(RequestError::Primitive),
            }
        },
        // A record input is computed to its serial number.
        InputID::Record(commitment, gamma, serial_number, tag) => {
            // Retrieve the record.
            let record = match input {
                Value::Record(record) => record,
                Value::Plaintext(_) => return Err(RequestError::ExpectedRecord { index }),
            };
            // Retrieve the record name.
            let record_name = match input_type {
                ValueType::Record(record_name) => record_name,
                _ => return Err(RequestError::ExpectedRecordType { index }),
            };
            // Compute the record commitment.
            let candidate_commitment = match record.to_commitment::<N>(program_id, record_name) {
                Some(candidate_commitment) => candidate_commitment,
                None => return Err(RequestError::Primitive),
            };
            // Compute the `candidate_serial_number` from `gamma`.
            let candidate_serial_number = Record::serial_number_from_gamma::<N>(
                gamma,
                candidate_commitment,
            );
            // Compute the tag.
            let candidate_tag = Record::tag::<N>(state.sk_tag, candidate_commitment);
            let (candidate_serial_number, candidate_tag) = match (
                candidate_serial_number,
                candidate_tag,
            ) {
                (Some(candidate_serial_number), Some(candidate_tag)) => (
                    candidate_serial_number,
                    candidate_tag,
                ),
                _ => return Err(RequestError::Primitive),
            };

            let mut part: Vec<Field> = Vec::new();
            if let Some(signature) = signature {
                // Compute the generator `H` as `HashToGroup(commitment)`.
                let h = match Record::generator::<N>(candidate_commitment) {
                    Some(h) => h,
                    None => return Err(RequestError::Primitive),
                };
                // Compute `h_r` as `(challenge * gamma) + (response * H)`, equivalent to `r * H`.
                let h_r = N::group_add(
                    &N::group_scale(gamma, &signature.challenge),
                    &N::group_scale(&h, &signature.response),
                );
                // Add (`H`, `r * H`, `gamma`, `tag`) to the message.
                part.push(h.to_x_coordinate());
                part.push(h_r.to_x_coordinate());
                part.push(gamma.to_x_coordinate());
                part.push(candidate_tag);
                assert(part@ =~= seq![h.x, h_r.x, gamma.x, candidate_tag]);
            } else {
                assert(part@ =~= Seq::<Field>::empty());
            }

            // Ensure the candidate serial number matches the expected serial number.
            let checks = *serial_number == candidate_serial_number
                // Ensure the candidate commitment matches the expected commitment.
                && *commitment == candidate_commitment
                // Ensure the candidate tag matches the expected tag.
                && *tag == candidate_tag
                // Ensure the record belongs to the caller.
                && record.owner() == state.caller
                // Ensure the record gates is less than 2^52.
                && record.gates_in_range();
            Ok((checks, part))
        },
        // An external record input is hashed (using `tvk`) to a field element.
        InputID::ExternalRecord(input_hash) => {
            // Retrieve the record.
            let record = match input {
                Value::Record(record) => record,
                Value::Plaintext(_) => return Err(RequestError::ExpectedRecord { index }),
            };
            if index > u16::MAX as usize {
                return Err(RequestError::IndexOverflow { index });
            }
            // Ensure the expected hash matches the computed hash.
            match value_hash::<N>(state.function_id, record.to_fields(), state.tvk, index as u16) {
                Some(hash) => Ok((*input_hash == hash, message_part(signature, *input_hash))),
                None => Err(RequestError::Primitive),
            }
        },
    }
}

impl Request {
    /// Returns the transition public key that the signature stands for:
    /// `response * G + challenge * pk_sig`.
    pub fn to_tpk<N: Network>(&self) -> (r: Group)
        ensures
            r == spec_to_tpk::<N>(self.signature),
    {
        N::group_add(
            &N::g_scalar_multiply(&self.signature.response),
            &N::group_scale(&self.signature.compute_key.pk_sig, &self.signature.challenge),
        )
    }

    /// Returns `true` if the input IDs are derived correctly, the input records all belong to the caller,
    /// and the signature is valid.
    ///
    /// Verifies (challenge == challenge') && (address == address') && (serial_numbers == serial_numbers') where:
    ///     challenge' := HashToScalar(r * G, pk_sig, pr_sig, caller, \[tvk, tcm, function ID, input IDs\])
    ///
    /// An input of the wrong kind, or an input that a primitive rejects, is an
    /// error, not `false`.
    pub fn verify<N: Network>(&self, input_types: &Vec<ValueType>, tpk: &Group) -> (r: Result<
        bool,
        RequestError,
    >)
        ensures
            r == spec_verify::<N>(self.deep_view(), input_types.deep_view(), *tpk),
    {
        // Check the input IDs and construct the rest of the signature message.
        let (input_checks, append_to_message) = match Self::check_input_ids::<N>(
            self.network_id,
            &self.program_id,
            &self.function_name,
            &self.input_ids,
            &self.inputs,
            input_types,
            &self.caller,
            &self.sk_tag,
            &self.tvk,
            &self.tcm,
            Some(&self.signature),
        ) {
            Ok(checked) => checked,
            Err(e) => return Err(e),
        };
        let mut append_to_message = match append_to_message {
            Some(append_to_message) => append_to_message,
            None => {
                // A signature was given, so there is a message.
                assert(false);
                return Err(RequestError::Primitive);
            },
        };
        let ghost appended = append_to_message@;

        // Compute the function ID as `Hash(network_id, program_id, function_name)`.
        let function_id = match function_id::<N>(
            self.network_id,
            &self.program_id,
            &self.function_name,
        ) {
            Some(function_id) => function_id,
            None => return Err(RequestError::Primitive),
        };

        // Compute the transition commitment as `Hash(tvk)`.
        let mut tvk_preimage: Vec<Field> = Vec::new();
        tvk_preimage.push(self.tvk);
        assert(tvk_preimage@ =~= seq![self.tvk]);
        let tcm = match N::hash_psd2(&tvk_preimage) {
            Some(tcm) => tcm,
            None => return Err(RequestError::Primitive),
        };
        // Ensure the transition public key matches with the derived one from the signature,
        // and the computed transition commitment matches.
        let tvk_checks = *tpk == self.to_tpk::<N>() && tcm == self.tcm;

        // Retrieve pk_sig.
        let pk_sig = self.signature.compute_key.pk_sig();
        // Retrieve pr_sig.
        let pr_sig = self.signature.compute_key.pr_sig();

        // Construct the hash input as (r * G, pk_sig, pr_sig, address, message).
        let mut preimage: Vec<Field> = Vec::new();
        preimage.push(tpk.to_x_coordinate());
        preimage.push(pk_sig.to_x_coordinate());
        preimage.push(pr_sig.to_x_coordinate());
        preimage.push(self.caller.to_field());
        preimage.push(self.tvk);
        preimage.push(self.tcm);
        preimage.push(function_id);
        preimage.append(&mut append_to_message);
        assert(preimage@ =~= seq![
            tpk.x,
            pk_sig.x,
            pr_sig.x,
            self.caller.point.x,
            self.tvk,
            self.tcm,
            function_id,
        ] + appended);

        // Compute the candidate verifier challenge.
        let candidate_challenge = match N::hash_to_scalar_psd8(&preimage) {
            Some(candidate_challenge) => candidate_challenge,
            None => return Err(RequestError::Primitive),
        };
        // Compute the candidate address.
        let candidate_address = self.signature.compute_key.to_address::<N>();

        // Return `true` if the challenge and address is valid.
        let signature_checks = self.signature.challenge == candidate_challenge && self.caller
            == candidate_address;

        // Verify the signature, inputs, and `tvk` are valid.
        Ok(signature_checks && input_checks && tvk_checks)
    }

    /// Returns `true` if the inputs match their input IDs, with what the
    /// inputs add to the signature's message where a signature is given.
    /// Note: This method does **not** perform signature checks.
    pub fn check_input_ids<N: Network>(
        network_id: u16,
        program_id: &ProgramID,
        function_name: &Identifier,
        input_ids: &Vec<InputID>,
        inputs: &Vec<Value>,
        input_types: &Vec<ValueType>,
        caller: &Address,
        sk_tag: &Field,
        tvk: &Field,
        tcm: &Field,
        signature: Option<&Signature>,
    ) -> (r: Result<(bool, Option<Vec<Field>>), RequestError>)
        ensures
            match r {
                Ok((checks, message)) => spec_check_input_ids::<N>(
                    network_id,
                    program_id.deep_view(),
                    function_name.deep_view(),
                    input_ids@,
                    inputs.deep_view(),
                    input_types.deep_view(),
                    *caller,
                    *sk_tag,
                    *tvk,
                    *tcm,
                    match signature {
                        Some(s) => Some(*s),
                        None => None,
                    },
                ) == Ok::<(bool, Option<Seq<Field>>), RequestError>(
                    (checks, match message {
                        Some(m) => Some(m@),
                        None => None,
                    }),
                ),
                Err(e) => spec_check_input_ids::<N>(
                    network_id,
                    program_id.deep_view(),
                    function_name.deep_view(),
                    input_ids@,
                    inputs.deep_view(),
                    input_types.deep_view(),
                    *caller,
                    *sk_tag,
                    *tvk,
                    *tcm,
                    match signature {
                        Some(s) => Some(*s),
                        None => None,
                    },
                ) == Err::<(bool, Option<Seq<Field>>), RequestError>(e),
            },
    {
        if input_ids.len() != inputs.len() {
            return Err(
                RequestError::InputIDCountMismatch {
                    expected: inputs.len(),
                    found: input_ids.len(),
                },
            );
        }
        if input_types.len() != inputs.len() {
            return Err(
                RequestError::InputCountMismatch {
                    expected: input_types.len(),
                    found: inputs.len(),
                },
            );
        }
        // Compute the function ID as `Hash(network_id, program_id, function_name)`.
        let function_id = match function_id::<N>(network_id, program_id, function_name) {
            Some(function_id) => function_id,
            None => return Err(RequestError::Primitive),
        };
        let state = VerifierState {
            function_id,
            caller: *caller,
            sk_tag: *sk_tag,
            tvk: *tvk,
            tcm: *tcm,
        };
        let ghost given = match signature {
            Some(s) => Some(*s),
            None => None,
        };

        // Initialize a vector for a message.
        let mut message: Vec<Field> = Vec::new();
        let mut input_checks = true;

        // Perform the input ID checks.
        let mut index: usize = 0;
        while index < inputs.len()
            invariant
                index <= inputs.len(),
                input_ids.len() == inputs.len(),
                input_types.len() == inputs.len(),
                given == match signature {
                    Some(s) => Some(*s),
                    None => None,
                },
                spec_function_id::<N>(
                    network_id,
                    program_id.deep_view(),
                    function_name.deep_view(),
                ) == Some(function_id),
                state == (VerifierState {
                    function_id,
                    caller: *caller,
                    sk_tag: *sk_tag,
                    tvk: *tvk,
                    tcm: *tcm,
                }),
                spec_check_inputs::<N>(
                    state,
                    program_id.deep_view(),
                    given,
                    input_ids@,
                    inputs.deep_view(),
                    input_types.deep_view(),
                    index as nat,
                ) == Ok::<(bool, Seq<Field>), RequestError>((input_checks, message@)),
            decreases inputs.len() - index,
        {
            proof {
                assert(inputs.deep_view()[index as int] == inputs@[index as int].deep_view());
                assert(input_types.deep_view()[index as int]
                    == input_types@[index as int].deep_view());
            }
            match check_input::<N>(
                &state,
                program_id,
                signature,
                index,
                &input_ids[index],
                &inputs[index],
                &input_types[index],
            ) {
                Ok((check, mut part)) => {
                    input_checks = input_checks && check;
                    message.append(&mut part);
                },
                Err(e) => {
                    proof {
                        assert(spec_check_inputs::<N>(
                            state,
                            program_id.deep_view(),
                            given,
                            input_ids@,
                            inputs.deep_view(),
                            input_types.deep_view(),
                            (index + 1) as nat,
                        ) == Err::<(bool, Seq<Field>), RequestError>(e));
                        lemma_check_inputs_error_stays::<N>(
                            state,
                            program_id.deep_view(),
                            given,
                            input_ids@,
                            inputs.deep_view(),
                            input_types.deep_view(),
                            (index + 1) as nat,
                            inputs.len() as nat,
                        );
                    }
                    return Err(e);
                },
            }
            index += 1;
        }

        // Return the boolean, and (optional) the message.
        match signature {
            Some(_) => Ok((input_checks, Some(message))),
            None => Ok((input_checks, None)),
        }
    }
}

} // verus!
