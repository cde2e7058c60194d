//! Building a transition from a request and its response.

use vstd::prelude::*;
use crate::field::{Field, Group};
use crate::network::Network;
use crate::program::{
    Ciphertext, Identifier, ProgramID, Record, Register, Value, ValueType,
};
use crate::request::{function_id, spec_function_id, value_hash, InputID, Request};
use crate::transition::input::{Input, InputView};
use crate::transition::output::{Output, OutputView};
use crate::transition::{
    leaf, lemma_from_inputs_error_stays,
    lemma_from_outputs_error_stays, private_ciphertext, spec_from, spec_from_input,
    spec_from_inputs, spec_from_output, spec_from_outputs, spec_leaves, spec_new,
    spec_transition_id, well_formed, OutputID, Proof, Response, Transition, TransitionError, TransitionView,
    TRANSITION_DEPTH,
};

verus! {

/// Turns one input of a request into a transition input.
pub fn from_input<N: Network>(
    function_id: Field,
    sk_tag: &Field,
    tvk: &Field,
    tcm: &Field,
    index: usize,
    input_id: &InputID,
    input: &Value,
) -> (r: Result<Input, TransitionError>)
    ensures
        match r {
            Ok(x) => spec_from_input::<N>(
                function_id,
                *sk_tag,
                *tvk,
                *tcm,
                index as int,
                *input_id,
                input.deep_view(),
            ) == Ok::<InputView, TransitionError>(x.deep_view()),
            Err(e) => spec_from_input::<N>(
                function_id,
                *sk_tag,
                *tvk,
                *tcm,
                index as int,
                *input_id,
                input.deep_view(),
            ) == Err::<InputView, TransitionError>(e),
        },
{
    // Construct the transition input.
    match (input_id, input) {
        (InputID::Constant(input_hash), Value::Plaintext(plaintext)) => {
            // Construct the constant input.
            let input = Input::Constant(*input_hash, Some(plaintext.duplicate()));
            // Ensure the input is valid.
            if input.verify::<N>(function_id, tcm, index) {
                Ok(input)
            } else {
                Err(TransitionError::MalformedConstantInput { index })
            }
        },
        (InputID::Public(input_hash), Value::Plaintext(plaintext)) => {
            // Construct the public input.
            let input = Input::Public(*input_hash, Some(plaintext.duplicate()));
            // Ensure the input is valid.
            if input.verify::<N>(function_id, tcm, index) {
                Ok(input)
            } else {
                Err(TransitionError::MalformedPublicInput { index })
            }
        },
        (InputID::Private(input_hash), Value::Plaintext(plaintext)) => {
            if index > u16::MAX as usize {
                return Err(TransitionError::IndexOverflow { index });
            }
            // Compute the ciphertext, with the input view key as `Hash(function ID || tvk || index)`.
            let ciphertext = match private_ciphertext::<N>(
                function_id,
                &plaintext.fields,
                *tvk,
                index as u16,
            ) {
                Some(ciphertext) => ciphertext,
                None => return Err(TransitionError::Primitive),
            };
            // Compute the ciphertext hash.
            let ciphertext_hash = match N::hash_psd8(&ciphertext) {
                Some(ciphertext_hash) => ciphertext_hash,
                None => return Err(TransitionError::Primitive),
            };
            // Ensure the ciphertext hash matches.
            if *input_hash != ciphertext_hash {
                return Err(TransitionError::IncorrectInputCiphertextHash { index });
            }
            // Return the private input.
            Ok(Input::Private(*input_hash, Some(Ciphertext { fields: ciphertext })))
        },
        (InputID::Record(commitment, gamma, serial_number, tag), Value::Record(_)) => {
            // Compute the serial number from `gamma`, and the tag.
            let candidate_serial_number = Record::serial_number_from_gamma::<N>(gamma, *commitment);
            let candidate_tag = Record::tag::<N>(*sk_tag, *commitment);
            let (candidate_serial_number, candidate_tag) = match (
                candidate_serial_number,
                candidate_tag,
            ) {
                (Some(candidate_serial_number), Some(candidate_tag)) => (
                    candidate_serial_number,
                    candidate_tag,
                ),
                _ => return Err(TransitionError::Primitive),
            };
            // Ensure the serial number matches.
            if *serial_number != candidate_serial_number {
                return Err(TransitionError::IncorrectSerialNumber { index });
            }
            // Ensure the tag matches.
            if *tag != candidate_tag {
                return Err(TransitionError::IncorrectTag { index });
            }
            // Return the input record.
            Ok(Input::Record(*serial_number, *tag))
        },
        (InputID::ExternalRecord(input_hash), Value::Record(record)) => {
            if index > u16::MAX as usize {
                return Err(TransitionError::IndexOverflow { index });
            }
            // Hash the preimage `(function ID || input || tvk || index)`.
            let candidate_hash = match value_hash::<N>(
                function_id,
                record.to_fields(),
                *tvk,
                index as u16,
            ) {
                Some(candidate_hash) => candidate_hash,
                None => return Err(TransitionError::Primitive),
            };
            // Ensure the hash matches.
            if *input_hash != candidate_hash {
                return Err(TransitionError::IncorrectExternalInputHash { index });
            }
            // Return the external record input.
            Ok(Input::ExternalRecord(*input_hash))
        },
        _ => Err(TransitionError::MalformedRequestInput { index }),
    }
}

/// Turns one output of a response into a transition output.
pub fn from_output<N: Network>(
    function_id: Field,
    program_id: &ProgramID,
    tvk: &Field,
    tcm: &Field,
    num_inputs: usize,
    index: usize,
    output_id: &OutputID,
    output: &Value,
    output_type: &ValueType,
    output_register: &Register,
) -> (r: Result<Output, TransitionError>)
    ensures
        match r {
            Ok(x) => spec_from_output::<N>(
                function_id,
                program_id.deep_view(),
                *tvk,
                *tcm,
                num_inputs as int,
                index as int,
                *output_id,
                output.deep_view(),
                output_type.deep_view(),
                *output_register,
            ) == Ok::<OutputView, TransitionError>(x.deep_view()),
            Err(e) => spec_from_output::<N>(
                function_id,
                program_id.deep_view(),
                *tvk,
                *tcm,
                num_inputs as int,
                index as int,
                *output_id,
                output.deep_view(),
                output_type.deep_view(),
                *output_register,
            ) == Err::<OutputView, TransitionError>(e),
        },
{
    if index > usize::MAX - num_inputs {
        return Err(TransitionError::IndexOverflow { index });
    }
    let position = num_inputs + index;
    // Construct the transition output.
    match (output_id, output) {
        (OutputID::Constant(output_hash), Value::Plaintext(plaintext)) => {
            // Construct the constant output.
            let output = Output::Constant(*output_hash, Some(plaintext.duplicate()));
            // Ensure the output is valid.
            if output.verify::<N>(function_id, tcm, position) {
                Ok(output)
            } else {
                Err(TransitionError::MalformedConstantOutput { index })
            }
        },
        (OutputID::Public(output_hash), Value::Plaintext(plaintext)) => {
            // Construct the public output.
            let output = Output::Public(*output_hash, Some(plaintext.duplicate()));
            // Ensure the output is valid.
            if output.verify::<N>(function_id, tcm, position) {
                Ok(output)
            } else {
                Err(TransitionError::MalformedPublicOutput { index })
            }
        },
        (OutputID::Private(output_hash), Value::Plaintext(plaintext)) => {
            if position > u16::MAX as usize {
                return Err(TransitionError::IndexOverflow { index });
            }
            // Compute the ciphertext, with the input view key as `Hash(function ID || tvk || index)`.
            let ciphertext = match private_ciphertext::<N>(
                function_id,
                &plaintext.fields,
                *tvk,
                position as u16,
            ) {
                Some(ciphertext) => ciphertext,
                None => return Err(TransitionError::Primitive),
            };
            // Compute the ciphertext hash.
            let ciphertext_hash = match N::hash_psd8(&ciphertext) {
                Some(ciphertext_hash) => ciphertext_hash,
                None => return Err(TransitionError::Primitive),
            };
            // Ensure the ciphertext hash matches.
            if *output_hash != ciphertext_hash {
                return Err(TransitionError::IncorrectOutputCiphertextHash { index });
            }
            // Return the private output.
            Ok(Output::Private(*output_hash, Some(Ciphertext { fields: ciphertext })))
        },
        (OutputID::Record(commitment, checksum), Value::Record(record)) => {
            // Retrieve the record name.
            let record_name = match output_type {
                ValueType::Record(record_name) => record_name,
                // Ensure the output type is a record.
                _ => return Err(TransitionError::ExpectedRecordType { index }),
            };
            // Compute the record commitment.
            let candidate_cm = match record.to_commitment::<N>(program_id, record_name) {
                Some(candidate_cm) => candidate_cm,
                None => return Err(TransitionError::Primitive),
            };
            // Ensure the commitment matches.
            if *commitment != candidate_cm {
                return Err(TransitionError::IncorrectCommitment { index });
            }
            // Construct the output index as a field element, from the register's locator.
            let locator = Field::from_u64(output_register.locator());
            // Compute the encryption randomizer as `HashToScalar(tvk || index)`.
            let mut preimage: Vec<Field> = Vec::new();
            preimage.push(*tvk);
            preimage.push(locator);
            assert(preimage@ =~= seq![*tvk, Field::spec_from_u64(output_register.locator)]);
            let randomizer = match N::hash_to_scalar_psd2(&preimage) {
                Some(randomizer) => randomizer,
                None => return Err(TransitionError::Primitive),
            };
            // Encrypt the record, using the randomizer.
            let record_ciphertext = match record.encrypt::<N>(&randomizer) {
                Some(record_ciphertext) => record_ciphertext,
                None => return Err(TransitionError::Primitive),
            };
            // Compute the record checksum, as the hash of the encrypted record.
            let ciphertext_checksum = match record_ciphertext.to_checksum::<N>() {
                Some(ciphertext_checksum) => ciphertext_checksum,
                None => return Err(TransitionError::Primitive),
            };
            // Ensure the checksum matches.
            if *checksum != ciphertext_checksum {
                return Err(TransitionError::IncorrectChecksum { index });
            }
            // Return the record output.
            Ok(Output::Record(*commitment, *checksum, Some(record_ciphertext)))
        },
        (OutputID::ExternalRecord(hash), Value::Record(record)) => {
            if position > u16::MAX as usize {
                return Err(TransitionError::IndexOverflow { index });
            }
            // Hash the preimage `(function ID || output || tvk || index)`.
            let candidate_hash = match value_hash::<N>(
                function_id,
                record.to_fields(),
                *tvk,
                position as u16,
            ) {
                Some(candidate_hash) => candidate_hash,
                None => return Err(TransitionError::Primitive),
            };
            // Ensure the hash matches.
            if *hash != candidate_hash {
                return Err(TransitionError::IncorrectExternalHash { index });
            }
            // Return the record output.
            Ok(Output::ExternalRecord(*hash))
        },
        _ => Err(TransitionError::MalformedResponseOutput { index }),
    }
}

impl Transition {
    /// Computes the transition ID: the root of the tree over the inputs and the outputs.
    pub fn function_tree_root<N: Network>(inputs: &Vec<Input>, outputs: &Vec<Output>) -> (r:
        Option<Field>)
        ensures
            r == spec_transition_id::<N>(inputs.deep_view(), outputs.deep_view()),
    {
        if inputs.len() > u8::MAX as usize + 1 || outputs.len() > u8::MAX as usize + 1
            - inputs.len() {
            return None;
        }
        let ghost leaves = spec_leaves(inputs.deep_view(), outputs.deep_view());
        let mut out: Vec<Vec<bool>> = Vec::new();
        let mut i: usize = 0;
        assert(out.deep_view() =~= leaves.take(0));
        while i < inputs.len()
            invariant
                i <= inputs.len(),
                inputs.len() + outputs.len() <= u8::MAX + 1,
                leaves == spec_leaves(inputs.deep_view(), outputs.deep_view()),
                out.deep_view() == leaves.take(i as int),
            decreases inputs.len() - i,
        {
            let bits = leaf::<N>(i as u8, inputs[i].variant(), inputs[i].id());
            let ghost before = out.deep_view();
            out.push(bits);
            proof {
                assert(bits.deep_view() =~= bits@);
                assert(out.deep_view() =~= before.push(bits@));
                assert(inputs.deep_view()[i as int] == inputs@[i as int].deep_view());
                assert(out.deep_view() =~= leaves.take(i + 1));
            }
            i += 1;
        }
        let mut j: usize = 0;
        while j < outputs.len()
            invariant
                j <= outputs.len(),
                inputs.len() + outputs.len() <= u8::MAX + 1,
                leaves == spec_leaves(inputs.deep_view(), outputs.deep_view()),
                out.deep_view() == leaves.take(inputs.len() + j),
            decreases outputs.len() - j,
        {
            let bits = leaf::<N>((inputs.len() + j) as u8, outputs[j].variant(), outputs[j].id());
            let ghost before = out.deep_view();
            out.push(bits);
            proof {
                assert(bits.deep_view() =~= bits@);
                assert(out.deep_view() =~= before.push(bits@));
                assert(outputs.deep_view()[j as int] == outputs@[j as int].deep_view());
                assert(out.deep_view() =~= leaves.take(inputs.len() + j + 1));
            }
            j += 1;
        }
        assert(out.deep_view() =~= leaves);
        N::merkle_root_bhp(TRANSITION_DEPTH, &out)
    }

    /// Initializes a new transition.
    pub fn new<N: Network>(
        program_id: ProgramID,
        function_name: Identifier,
        inputs: Vec<Input>,
        outputs: Vec<Output>,
        finalize: Option<Vec<Value>>,
        proof: Proof,
        tpk: Group,
        tcm: Field,
        fee: i64,
    ) -> (r: Result<Transition, TransitionError>)
        ensures
            r matches Ok(t) ==> well_formed::<N>(t.deep_view()),
            match r {
                Ok(t) => spec_new::<N>(
                    program_id.deep_view(),
                    function_name.deep_view(),
                    inputs.deep_view(),
                    outputs.deep_view(),
                    finalize.deep_view(),
                    proof.deep_view(),
                    tpk,
                    tcm,
                    fee,
                ) == Ok::<TransitionView, TransitionError>(t.deep_view()),
                Err(e) => spec_new::<N>(
                    program_id.deep_view(),
                    function_name.deep_view(),
                    inputs.deep_view(),
                    outputs.deep_view(),
                    finalize.deep_view(),
                    proof.deep_view(),
                    tpk,
                    tcm,
                    fee,
                ) == Err::<TransitionView, TransitionError>(e),
            },
    {
        // Compute the transition ID.
        let id = match Self::function_tree_root::<N>(&inputs, &outputs) {
            Some(id) => id,
            None => return Err(TransitionError::InvalidTree),
        };
        // Return the transition.
        Ok(
            Transition {
                id,
                program_id,
                function_name,
                inputs,
                outputs,
                finalize,
                proof,
                tpk,
                tcm,
                fee,
            },
        )
    }

    /// Initializes a new transition from a request and response. Every hash
    /// of an input ID and of an output ID is held against the one that is
    /// derived anew from the value, and a mismatch is an error. Of a record
    /// input the serial number and the tag are held against the commitment of
    /// its ID; the commitment itself is derived from the name of the record
    /// type, which the request does not hold, and is checked where the
    /// request is verified.
    pub fn from<N: Network>(
        request: &Request,
        response: &Response,
        finalize: Option<Vec<Value>>,
        output_types: &Vec<ValueType>,
        output_registers: &Vec<Register>,
        proof: Proof,
        fee: i64,
    ) -> (r: Result<Transition, TransitionError>)
        ensures
            r matches Ok(t) ==> well_formed::<N>(t.deep_view()),
            match r {
                Ok(t) => spec_from::<N>(
                    request.deep_view(),
                    response.deep_view(),
                    finalize.deep_view(),
                    output_types.deep_view(),
                    output_registers@,
                    proof.deep_view(),
                    fee,
                ) == Ok::<TransitionView, TransitionError>(t.deep_view()),
                Err(e) => spec_from::<N>(
                    request.deep_view(),
                    response.deep_view(),
                    finalize.deep_view(),
                    output_types.deep_view(),
                    output_registers@,
                    proof.deep_view(),
                    fee,
                ) == Err::<TransitionView, TransitionError>(e),
            },
    {
        if request.input_ids.len() != request.inputs.len() {
            return Err(TransitionError::InputCountMismatch);
        }
        if response.output_ids.len() != response.outputs.len() || output_types.len()
            != response.outputs.len() || output_registers.len() != response.outputs.len() {
            return Err(TransitionError::OutputCountMismatch);
        }
        let num_inputs = request.inputs.len();

        // Compute the function ID as `Hash(network_id, program_id, function_name)`.
        let function_id = match function_id::<N>(
            request.network_id,
            &request.program_id,
            &request.function_name,
        ) {
            Some(function_id) => function_id,
            None => return Err(TransitionError::Primitive),
        };

        let mut inputs: Vec<Input> = Vec::new();
        let mut index: usize = 0;
        assert(inputs.deep_view() =~= Seq::<InputView>::empty());
        while index < request.inputs.len()
            invariant
                index <= request.inputs.len(),
                request.input_ids.len() == request.inputs.len(),
                response.output_ids.len() == response.outputs.len(),
                output_types.len() == response.outputs.len(),
                output_registers.len() == response.outputs.len(),
                spec_function_id::<N>(
                    request.network_id,
                    request.program_id.deep_view(),
                    request.function_name.deep_view(),
                ) == Some(function_id),
                spec_from_inputs::<N>(
                    function_id,
                    request.sk_tag,
                    request.tvk,
                    request.tcm,
                    request.input_ids@,
                    request.inputs.deep_view(),
                    index as nat,
                ) == Ok::<Seq<InputView>, TransitionError>(inputs.deep_view()),
            decreases request.inputs.len() - index,
        {
            proof {
                assert(request.inputs.deep_view()[index as int]
                    == request.inputs@[index as int].deep_view());
            }
            match from_input::<N>(
                function_id,
                &request.sk_tag,
                &request.tvk,
                &request.tcm,
                index,
                &request.input_ids[index],
                &request.inputs[index],
            ) {
                Ok(input) => {
                    let ghost before = inputs.deep_view();
                    let ghost v = input.deep_view();
                    inputs.push(input);
                    assert(inputs.deep_view() =~= before.push(v));
                },
                Err(e) => {
                    proof {
                        assert(spec_from_inputs::<N>(
                            function_id,
                            request.sk_tag,
                            request.tvk,
                            request.tcm,
                            request.input_ids@,
                            request.inputs.deep_view(),
                            (index + 1) as nat,
                        ) == Err::<Seq<InputView>, TransitionError>(e));
                        lemma_from_inputs_error_stays::<N>(
                            function_id,
                            request.sk_tag,
                            request.tvk,
                            request.tcm,
                            request.input_ids@,
                            request.inputs.deep_view(),
                            (index + 1) as nat,
                            request.inputs.len() as nat,
                        );
                    }
                    return Err(e);
                },
            }
            index += 1;
        }

        let mut outputs: Vec<Output> = Vec::new();
        let mut index: usize = 0;
        assert(outputs.deep_view() =~= Seq::<OutputView>::empty());
        while index < response.outputs.len()
            invariant
                index <= response.outputs.len(),
                response.output_ids.len() == response.outputs.len(),
                output_types.len() == response.outputs.len(),
                output_registers.len() == response.outputs.len(),
                num_inputs == request.inputs.len(),
                request.input_ids.len() == request.inputs.len(),
                spec_function_id::<N>(
                    request.network_id,
                    request.program_id.deep_view(),
                    request.function_name.deep_view(),
                ) == Some(function_id),
                spec_from_inputs::<N>(
                    function_id,
                    request.sk_tag,
                    request.tvk,
                    request.tcm,
                    request.input_ids@,
                    request.inputs.deep_view(),
                    request.inputs.len() as nat,
                ) == Ok::<Seq<InputView>, TransitionError>(inputs.deep_view()),
                spec_from_outputs::<N>(
                    function_id,
                    request.program_id.deep_view(),
                    request.tvk,
                    request.tcm,
                    num_inputs as int,
                    response.output_ids@,
                    response.outputs.deep_view(),
                    output_types.deep_view(),
                    output_registers@,
                    index as nat,
                ) == Ok::<Seq<OutputView>, TransitionError>(outputs.deep_view()),
            decreases response.outputs.len() - index,
        {
            proof {
                assert(response.outputs.deep_view()[index as int]
                    == response.outputs@[index as int].deep_view());
                assert(output_types.deep_view()[index as int]
                    == output_types@[index as int].deep_view());
            }
            match from_output::<N>(
                function_id,
                &request.program_id,
                &request.tvk,
                &request.tcm,
                num_inputs,
                index,
                &response.output_ids[index],
                &response.outputs[index],
                &output_types[index],
                &output_registers[index],
            ) {
                Ok(output) => {
                    let ghost before = outputs.deep_view();
                    let ghost v = output.deep_view();
                    outputs.push(output);
                    assert(outputs.deep_view() =~= before.push(v));
                },
                Err(e) => {
                    proof {
                        assert(spec_from_outputs::<N>(
                            function_id,
                            request.program_id.deep_view(),
                            request.tvk,
                            request.tcm,
                            num_inputs as int,
                            response.output_ids@,
                            response.outputs.deep_view(),
                            output_types.deep_view(),
                            output_registers@,
                            (index + 1) as nat,
                        ) == Err::<Seq<OutputView>, TransitionError>(e));
                        lemma_from_outputs_error_stays::<N>(
                            function_id,
                            request.program_id.deep_view(),
                            request.tvk,
                            request.tcm,
                            num_inputs as int,
                            response.output_ids@,
                            response.outputs.deep_view(),
                            output_types.deep_view(),
                            output_registers@,
                            (index + 1) as nat,
                            response.outputs.len() as nat,
                        );
                    }
                    return Err(e);
                },
            }
            index += 1;
        }

        // Retrieve the `tpk`.
        let tpk = request.to_tpk::<N>();
        // Retrieve the `tcm`.
        let tcm = request.tcm;
        // Return the transition.
        Self::new::<N>(
            request.program_id.duplicate(),
            request.function_name.duplicate(),
            inputs,
            outputs,
            finalize,
            proof,
            tpk,
            tcm,
            fee,
        )
    }
}

} // verus!
