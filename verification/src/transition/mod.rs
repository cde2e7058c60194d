//! Transitions: the record of one function call.

pub mod assemble;
pub mod bytes;
pub mod input;
pub mod input_bytes;
pub mod output;
pub mod output_bytes;

use vstd::prelude::*;
use crate::field::{push_u64_bits_le, u64_bits_le, Field, Group};
use crate::network::Network;
use crate::program::{
    Identifier, ProgramID, ProgramIDView, Record, Register, Value, ValueTypeView,
    ValueView,
};
use crate::record::{
    spec_record_checksum, spec_record_commitment, spec_record_encrypt, spec_serial_number,
    spec_tag,
};
use crate::request::{
    encrypt_symmetric, function_id, spec_function_id, spec_private_ciphertext, spec_to_tpk,
    spec_value_hash, InputID, RequestView,
};
use crate::transition::input::{Input, InputView};
use crate::transition::output::{Output, OutputView};

verus! {

/// The depth of the Merkle tree of a transition.
pub const TRANSITION_DEPTH: u8 = 4;

/// Why a transition could not be built.
#[derive(Clone, Copy, PartialEq, Eq, Structural, Debug)]
pub enum TransitionError {
    /// The request holds another number of input IDs than of inputs.
    InputCountMismatch,
    /// The response holds another number of output IDs, output types or
    /// output registers than of outputs.
    OutputCountMismatch,
    /// A primitive of the network rejected its input.
    Primitive,
    /// The index of an input or output does not fit in 16 bits.
    IndexOverflow { index: usize },
    /// The hash of the constant input is not that of its value.
    MalformedConstantInput { index: usize },
    /// The hash of the public input is not that of its value.
    MalformedPublicInput { index: usize },
    /// The input ciphertext hash is incorrect.
    IncorrectInputCiphertextHash { index: usize },
    /// The serial number of the record input is not that of its gamma and commitment.
    IncorrectSerialNumber { index: usize },
    /// The tag of the record input is not that of the tag key and its commitment.
    IncorrectTag { index: usize },
    /// The input external hash is incorrect.
    IncorrectExternalInputHash { index: usize },
    /// The kind of the input ID is not that of the input.
    MalformedRequestInput { index: usize },
    /// The hash of the constant output is not that of its value.
    MalformedConstantOutput { index: usize },
    /// The hash of the public output is not that of its value.
    MalformedPublicOutput { index: usize },
    /// The output ciphertext hash is incorrect.
    IncorrectOutputCiphertextHash { index: usize },
    /// The output is a record, and its declared type is not.
    ExpectedRecordType { index: usize },
    /// The output record commitment is incorrect.
    IncorrectCommitment { index: usize },
    /// The output record ciphertext checksum is incorrect.
    IncorrectChecksum { index: usize },
    /// The output external hash is incorrect.
    IncorrectExternalHash { index: usize },
    /// The kind of the output ID is not that of the output.
    MalformedResponseOutput { index: usize },
    /// The inputs and outputs have no Merkle root.
    InvalidTree,
}

/// The ID of an output, by the declared visibility of the output.
#[derive(Clone, Copy, PartialEq, Eq, Structural, Debug)]
pub enum OutputID {
    /// The hash of the constant output.
    Constant(Field),
    /// The hash of the public output.
    Public(Field),
    /// The ciphertext hash of the private output.
    Private(Field),
    /// The `(commitment, checksum)` tuple of the record output.
    Record(Field, Field),
    /// The hash of the external record output.
    ExternalRecord(Field),
}

/// The ghost value of a response.
pub struct ResponseView {
    pub output_ids: Seq<OutputID>,
    pub outputs: Seq<ValueView>,
}

/// The response of a function call: its outputs and their IDs.
#[derive(Clone, PartialEq, Eq, Debug)]
pub struct Response {
    /// The output ID for the transition.
    pub output_ids: Vec<OutputID>,
    /// The function outputs.
    pub outputs: Vec<Value>,
}

impl DeepView for Response {
    type V = ResponseView;

    open spec fn deep_view(&self) -> ResponseView {
        ResponseView { output_ids: self.output_ids@, outputs: self.outputs.deep_view() }
    }
}

/// A proof of a transition, as the bytes it is written as.
#[derive(Clone, PartialEq, Eq, Debug)]
pub struct Proof {
    pub bytes: Vec<u8>,
}

impl DeepView for Proof {
    type V = Seq<u8>;

    open spec fn deep_view(&self) -> Seq<u8> {
        self.bytes@
    }
}

/// The ghost value of a transition.
pub struct TransitionView {
    pub id: Field,
    pub program_id: ProgramIDView,
    pub function_name: Seq<u8>,
    pub inputs: Seq<InputView>,
    pub outputs: Seq<OutputView>,
    pub finalize: Option<Seq<ValueView>>,
    pub proof: Seq<u8>,
    pub tpk: Group,
    pub tcm: Field,
    pub fee: i64,
}

/// A transition: one function call, with the IDs of its inputs and outputs.
#[derive(Clone, PartialEq, Eq, Debug)]
pub struct Transition {
    /// The transition ID.
    pub id: Field,
    /// The program ID.
    pub program_id: ProgramID,
    /// The function name.
    pub function_name: Identifier,
    /// The transition inputs.
    pub inputs: Vec<Input>,
    /// The transition outputs.
    pub outputs: Vec<Output>,
    /// The inputs for finalize.
    pub finalize: Option<Vec<Value>>,
    /// The transition proof.
    pub proof: Proof,
    /// The transition public key.
    pub tpk: Group,
    /// The transition commitment.
    pub tcm: Field,
    /// The network fee.
    pub fee: i64,
}

impl DeepView for Transition {
    type V = TransitionView;

    open spec fn deep_view(&self) -> TransitionView {
        TransitionView {
            id: self.id,
            program_id: self.program_id.deep_view(),
            function_name: self.function_name.deep_view(),
            inputs: self.inputs.deep_view(),
            outputs: self.outputs.deep_view(),
            finalize: self.finalize.deep_view(),
            proof: self.proof.deep_view(),
            tpk: self.tpk,
            tcm: self.tcm,
            fee: self.fee,
        }
    }
}

/// The bits of a leaf of the transition tree: version 0, the index of the
/// leaf, the variant and the ID of the input or output.
pub open spec fn leaf_bits(index: u8, variant: u8, id: Field) -> Seq<bool> {
    u64_bits_le(0, 8) + u64_bits_le(index as u64, 8) + u64_bits_le(variant as u64, 16)
        + id.bits_le()
}

/// The leaves of the transition tree: the inputs in order, then the outputs
/// in order.
pub open spec fn spec_leaves(inputs: Seq<InputView>, outputs: Seq<OutputView>) -> Seq<Seq<bool>> {
    Seq::new(
        inputs.len() + outputs.len(),
        |i: int|
            if i < inputs.len() {
                leaf_bits(i as u8, inputs[i].variant(), inputs[i].id())
            } else {
                leaf_bits(
                    i as u8,
                    outputs[i - inputs.len()].variant(),
                    outputs[i - inputs.len()].id(),
                )
            },
    )
}

/// The transition ID: the root of the Merkle tree over the leaves; `None`
/// where a leaf's index does not fit in 8 bits, or the tree has no root.
pub open spec fn spec_transition_id<N: Network>(
    inputs: Seq<InputView>,
    outputs: Seq<OutputView>,
) -> Option<Field> {
    if inputs.len() + outputs.len() > u8::MAX + 1 {
        None
    } else {
        N::spec_merkle_root_bhp(TRANSITION_DEPTH, spec_leaves(inputs, outputs))
    }
}

/// Whether the ID of a transition is that of its inputs and outputs.
pub open spec fn well_formed<N: Network>(transition: TransitionView) -> bool {
    spec_transition_id::<N>(transition.inputs, transition.outputs) == Some(transition.id)
}

/// The transition input that an input of a request becomes, or the error
/// that it is refused with. Each hash of the input ID is held against the
/// one that is derived anew: the hash of a constant, public, private or
/// external record input, and the serial number and tag of a record input.
pub open spec fn spec_from_input<N: Network>(
    function_id: Field,
    sk_tag: Field,
    tvk: Field,
    tcm: Field,
    index: int,
    input_id: InputID,
    input: ValueView,
) -> Result<InputView, TransitionError> {
    match (input_id, input) {
        (InputID::Constant(input_hash), ValueView::Plaintext(plaintext)) => {
            let input = InputView::Constant(input_hash, Some(plaintext));
            if input.verifies::<N>(function_id, tcm, index) {
                Ok(input)
            } else {
                Err(TransitionError::MalformedConstantInput { index: index as usize })
            }
        },
        (InputID::Public(input_hash), ValueView::Plaintext(plaintext)) => {
            let input = InputView::Public(input_hash, Some(plaintext));
            if input.verifies::<N>(function_id, tcm, index) {
                Ok(input)
            } else {
                Err(TransitionError::MalformedPublicInput { index: index as usize })
            }
        },
        (InputID::Private(input_hash), ValueView::Plaintext(plaintext)) => if index > u16::MAX {
            Err(TransitionError::IndexOverflow { index: index as usize })
        } else {
            match spec_private_ciphertext::<N>(function_id, plaintext, tvk, index as u16) {
                None => Err(TransitionError::Primitive),
                Some(ciphertext) => match N::spec_hash_psd8(ciphertext) {
                    None => Err(TransitionError::Primitive),
                    Some(ciphertext_hash) => if input_hash == ciphertext_hash {
                        Ok(InputView::Private(input_hash, Some(ciphertext)))
                    } else {
                        Err(
                            TransitionError::IncorrectInputCiphertextHash {
                                index: index as usize,
                            },
                        )
                    },
                },
            }
        },
        (InputID::Record(commitment, gamma, serial_number, tag), ValueView::Record(_)) => match (
            spec_serial_number::<N>(gamma, commitment),
            spec_tag::<N>(sk_tag, commitment),
        ) {
            (Some(candidate_serial_number), Some(candidate_tag)) => if serial_number
                != candidate_serial_number {
                Err(TransitionError::IncorrectSerialNumber { index: index as usize })
            } else if tag != candidate_tag {
                Err(TransitionError::IncorrectTag { index: index as usize })
            } else {
                Ok(InputView::Record(serial_number, tag))
            },
            _ => Err(TransitionError::Primitive),
        },
        (InputID::ExternalRecord(input_hash), ValueView::Record(record)) => if index > u16::MAX {
            Err(TransitionError::IndexOverflow { index: index as usize })
        } else {
            match spec_value_hash::<N>(function_id, record.fields(), tvk, index as u16) {
                None => Err(TransitionError::Primitive),
                Some(candidate_hash) => if input_hash == candidate_hash {
                    Ok(InputView::ExternalRecord(input_hash))
                } else {
                    Err(TransitionError::IncorrectExternalInputHash { index: index as usize })
                },
            }
        },
        _ => Err(TransitionError::MalformedRequestInput { index: index as usize }),
    }
}

/// The transition inputs that the first `n` inputs of a request become, or
/// the error of the first that is refused.
pub open spec fn spec_from_inputs<N: Network>(
    function_id: Field,
    sk_tag: Field,
    tvk: Field,
    tcm: Field,
    input_ids: Seq<InputID>,
    inputs: Seq<ValueView>,
    n: nat,
) -> Result<Seq<InputView>, TransitionError>
    decreases n,
{
    if n == 0 {
        Ok(Seq::empty())
    } else {
        match spec_from_inputs::<N>(
            function_id,
            sk_tag,
            tvk,
            tcm,
            input_ids,
            inputs,
            (n - 1) as nat,
        ) {
            Err(e) => Err(e),
            Ok(head) => match spec_from_input::<N>(
                function_id,
                sk_tag,
                tvk,
                tcm,
                n - 1,
                input_ids[n - 1],
                inputs[n - 1],
            ) {
                Err(e) => Err(e),
                Ok(input) => Ok(head.push(input)),
            },
        }
    }
}

/// The transition output that an output of a response becomes, or the error
/// that it is refused with. The output at `index` stands at
/// `num_inputs + index` among the inputs and outputs; a record is encrypted
/// under a randomizer hashed from `tvk` and the locator of its register.
pub open spec fn spec_from_output<N: Network>(
    function_id: Field,
    program_id: ProgramIDView,
    tvk: Field,
    tcm: Field,
    num_inputs: int,
    index: int,
    output_id: OutputID,
    output: ValueView,
    output_type: ValueTypeView,
    output_register: Register,
) -> Result<OutputView, TransitionError> {
    let position = num_inputs + index;
    if position > usize::MAX {
        Err(TransitionError::IndexOverflow { index: index as usize })
    } else {
        match (output_id, output) {
            (OutputID::Constant(output_hash), ValueView::Plaintext(plaintext)) => {
                let output = OutputView::Constant(output_hash, Some(plaintext));
                if output.verifies::<N>(function_id, tcm, position) {
                    Ok(output)
                } else {
                    Err(TransitionError::MalformedConstantOutput { index: index as usize })
                }
            },
            (OutputID::Public(output_hash), ValueView::Plaintext(plaintext)) => {
                let output = OutputView::Public(output_hash, Some(plaintext));
                if output.verifies::<N>(function_id, tcm, position) {
                    Ok(output)
                } else {
                    Err(TransitionError::MalformedPublicOutput { index: index as usize })
                }
            },
            (OutputID::Private(output_hash), ValueView::Plaintext(plaintext)) => if position
                > u16::MAX {
                Err(TransitionError::IndexOverflow { index: index as usize })
            } else {
                match spec_private_ciphertext::<N>(function_id, plaintext, tvk, position as u16) {
                    None => Err(TransitionError::Primitive),
                    Some(ciphertext) => match N::spec_hash_psd8(ciphertext) {
                        None => Err(TransitionError::Primitive),
                        Some(ciphertext_hash) => if output_hash == ciphertext_hash {
                            Ok(OutputView::Private(output_hash, Some(ciphertext)))
                        } else {
                            Err(
                                TransitionError::IncorrectOutputCiphertextHash {
                                    index: index as usize,
                                },
                            )
                        },
                    },
                }
            },
            (OutputID::Record(commitment, checksum), ValueView::Record(record)) => match output_type {
                ValueTypeView::Record(record_name) => match spec_record_commitment::<N>(
                    record,
                    program_id,
                    record_name,
                ) {
                    None => Err(TransitionError::Primitive),
                    Some(candidate_cm) => if commitment != candidate_cm {
                        Err(TransitionError::IncorrectCommitment { index: index as usize })
                    } else {
                        match N::spec_hash_to_scalar_psd2(
                            seq![tvk, Field::spec_from_u64(output_register.locator)],
                        ) {
                            None => Err(TransitionError::Primitive),
                            Some(randomizer) => match spec_record_encrypt::<N>(record, randomizer) {
                                None => Err(TransitionError::Primitive),
                                Some(record_ciphertext) => match spec_record_checksum::<N>(
                                    record_ciphertext,
                                ) {
                                    None => Err(TransitionError::Primitive),
                                    Some(ciphertext_checksum) => if checksum
                                        != ciphertext_checksum {
                                        Err(
                                            TransitionError::IncorrectChecksum {
                                                index: index as usize,
                                            },
                                        )
                                    } else {
                                        Ok(
                                            OutputView::Record(
                                                commitment,
                                                checksum,
                                                Some(record_ciphertext),
                                            ),
                                        )
                                    },
                                },
                            },
                        }
                    },
                },
                _ => Err(TransitionError::ExpectedRecordType { index: index as usize }),
            },
            (OutputID::ExternalRecord(hash), ValueView::Record(record)) => if position > u16::MAX {
                Err(TransitionError::IndexOverflow { index: index as usize })
            } else {
                match spec_value_hash::<N>(function_id, record.fields(), tvk, position as u16) {
                    None => Err(TransitionError::Primitive),
                    Some(candidate_hash) => if hash == candidate_hash {
                        Ok(OutputView::ExternalRecord(hash))
                    } else {
                        Err(TransitionError::IncorrectExternalHash { index: index as usize })
                    },
                }
            },
            _ => Err(TransitionError::MalformedResponseOutput { index: index as usize }),
        }
    }
}

/// The transition outputs that the first `n` outputs of a response become,
/// or the error of the first that is refused.
pub open spec fn spec_from_outputs<N: Network>(
    function_id: Field,
    program_id: ProgramIDView,
    tvk: Field,
    tcm: Field,
    num_inputs: int,
    output_ids: Seq<OutputID>,
    outputs: Seq<ValueView>,
    output_types: Seq<ValueTypeView>,
    output_registers: Seq<Register>,
    n: nat,
) -> Result<Seq<OutputView>, TransitionError>
    decreases n,
{
    if n == 0 {
        Ok(Seq::empty())
    } else {
        match spec_from_outputs::<N>(
            function_id,
            program_id,
            tvk,
            tcm,
            num_inputs,
            output_ids,
            outputs,
            output_types,
            output_registers,
            (n - 1) as nat,
        ) {
            Err(e) => Err(e),
            Ok(head) => match spec_from_output::<N>(
                function_id,
                program_id,
                tvk,
                tcm,
                num_inputs,
                n - 1,
                output_ids[n - 1],
                outputs[n - 1],
                output_types[n - 1],
                output_registers[n - 1],
            ) {
                Err(e) => Err(e),
                Ok(output) => Ok(head.push(output)),
            },
        }
    }
}

/// The transition with the given parts, whose ID is the root of the tree
/// over its inputs and outputs.
pub open spec fn spec_new<N: Network>(
    program_id: ProgramIDView,
    function_name: Seq<u8>,
    inputs: Seq<InputView>,
    outputs: Seq<OutputView>,
    finalize: Option<Seq<ValueView>>,
    proof: Seq<u8>,
    tpk: Group,
    tcm: Field,
    fee: i64,
) -> Result<TransitionView, TransitionError> {
    match spec_transition_id::<N>(inputs, outputs) {
        None => Err(TransitionError::InvalidTree),
        Some(id) => Ok(
            TransitionView {
                id,
                program_id,
                function_name,
                inputs,
                outputs,
                finalize,
                proof,
                tpk,
                tcm,
                fee,
            },
        ),
    }
}

/// The transition that a request and its response become, or the error
/// that building it fails with.
pub open spec fn spec_from<N: Network>(
    request: RequestView,
    response: ResponseView,
    finalize: Option<Seq<ValueView>>,
    output_types: Seq<ValueTypeView>,
    output_registers: Seq<Register>,
    proof: Seq<u8>,
    fee: i64,
) -> Result<TransitionView, TransitionError> {
    if request.input_ids.len() != request.inputs.len() {
        Err(TransitionError::InputCountMismatch)
    } else if response.output_ids.len() != response.outputs.len() || output_types.len()
        != response.outputs.len() || output_registers.len() != response.outputs.len() {
        Err(TransitionError::OutputCountMismatch)
    } else {
        match spec_function_id::<N>(request.network_id, request.program_id, request.function_name) {
            None => Err(TransitionError::Primitive),
            Some(function_id) => match spec_from_inputs::<N>(
                function_id,
                request.sk_tag,
                request.tvk,
                request.tcm,
                request.input_ids,
                request.inputs,
                request.inputs.len(),
            ) {
                Err(e) => Err(e),
                Ok(inputs) => match spec_from_outputs::<N>(
                    function_id,
                    request.program_id,
                    request.tvk,
                    request.tcm,
                    request.inputs.len() as int,
                    response.output_ids,
                    response.outputs,
                    output_types,
                    output_registers,
                    response.outputs.len(),
                ) {
                    Err(e) => Err(e),
                    Ok(outputs) => spec_new::<N>(
                        request.program_id,
                        request.function_name,
                        inputs,
                        outputs,
                        finalize,
                        proof,
                        spec_to_tpk::<N>(request.signature),
                        request.tcm,
                        fee,
                    ),
                },
            },
        }
    }
}

/// An input that is refused keeps the transition from being built, however
/// many more inputs follow it.
pub proof fn lemma_from_inputs_error_stays<N: Network>(
    function_id: Field,
    sk_tag: Field,
    tvk: Field,
    tcm: Field,
    input_ids: Seq<InputID>,
    inputs: Seq<ValueView>,
    n: nat,
    m: nat,
)
    requires
        n <= m,
        spec_from_inputs::<N>(function_id, sk_tag, tvk, tcm, input_ids, inputs, n) is Err,
    ensures
        spec_from_inputs::<N>(function_id, sk_tag, tvk, tcm, input_ids, inputs, m)
            == spec_from_inputs::<N>(function_id, sk_tag, tvk, tcm, input_ids, inputs, n),
    decreases m,
{
    if n < m {
        lemma_from_inputs_error_stays::<N>(
            function_id,
            sk_tag,
            tvk,
            tcm,
            input_ids,
            inputs,
            n,
            (m - 1) as nat,
        );
    }
}

/// An output that is refused keeps the transition from being built, however
/// many more outputs follow it.
pub proof fn lemma_from_outputs_error_stays<N: Network>(
    function_id: Field,
    program_id: ProgramIDView,
    tvk: Field,
    tcm: Field,
    num_inputs: int,
    output_ids: Seq<OutputID>,
    outputs: Seq<ValueView>,
    output_types: Seq<ValueTypeView>,
    output_registers: Seq<Register>,
    n: nat,
    m: nat,
)
    requires
        n <= m,
        spec_from_outputs::<N>(
            function_id,
            program_id,
            tvk,
            tcm,
            num_inputs,
            output_ids,
            outputs,
            output_types,
            output_registers,
            n,
        ) is Err,
    ensures
        spec_from_outputs::<N>(
            function_id,
            program_id,
            tvk,
            tcm,
            num_inputs,
            output_ids,
            outputs,
            output_types,
            output_registers,
            m,
        ) == spec_from_outputs::<N>(
            function_id,
            program_id,
            tvk,
            tcm,
            num_inputs,
            output_ids,
            outputs,
            output_types,
            output_registers,
            n,
        ),
    decreases m,
{
    if n < m {
        lemma_from_outputs_error_stays::<N>(
            function_id,
            program_id,
            tvk,
            tcm,
            num_inputs,
            output_ids,
            outputs,
            output_types,
            output_registers,
            n,
            (m - 1) as nat,
        );
    }
}

/// Appends the bits of a leaf of the transition tree.
fn leaf<N: Network>(index: u8, variant: u8, id: Field) -> (r: Vec<bool>)
    ensures
        r@ == leaf_bits(index, variant, id),
{
    let mut bits: Vec<bool> = Vec::new();
    push_u64_bits_le(&mut bits, 0, 8);
    push_u64_bits_le(&mut bits, index as u64, 8);
    push_u64_bits_le(&mut bits, variant as u64, 16);
    id.push_bits_le(&mut bits);
    assert(bits@ =~= leaf_bits(index, variant, id));
    bits
}

/// Encrypts a private value under `Hash(function ID || tvk || index)`.
pub fn private_ciphertext<N: Network>(
    function_id: Field,
    fields: &Vec<Field>,
    tvk: Field,
    index: u16,
) -> (r: Option<Vec<Field>>)
    ensures
        match r {
            Some(c) => spec_private_ciphertext::<N>(function_id, fields@, tvk, index) == Some(c@),
            None => spec_private_ciphertext::<N>(function_id, fields@, tvk, index) is None,
        },
{
    let mut preimage: Vec<Field> = Vec::new();
    preimage.push(function_id);
    preimage.push(tvk);
    preimage.push(Field::from_u16(index));
    assert(preimage@ =~= seq![function_id, tvk, Field::spec_from_u64(index as u64)]);
    match N::hash_psd4(&preimage) {
        Some(view_key) => encrypt_symmetric::<N>(fields, view_key),
        None => None,
    }
}

/// Whether an input is a record with the given serial number.
pub open spec fn spends(input: InputView, serial_number: Field) -> bool {
    input matches InputView::Record(input_sn, _) && input_sn == serial_number
}

/// Whether an output is a record with the given commitment.
pub open spec fn commits(output: OutputView, commitment: Field) -> bool {
    output matches OutputView::Record(output_cm, _, _) && output_cm == commitment
}

/// Whether an output is a record with the given commitment that holds its
/// ciphertext.
pub open spec fn holds_record(output: OutputView, commitment: Field) -> bool {
    output matches OutputView::Record(output_cm, _, Some(_)) && output_cm == commitment
}

/// The serial numbers of the first `n` inputs that are records, in order.
pub open spec fn spec_serial_numbers(inputs: Seq<InputView>, n: nat) -> Seq<Field>
    decreases n,
{
    if n == 0 {
        Seq::empty()
    } else {
        match inputs[n - 1] {
            InputView::Record(serial_number, _) => spec_serial_numbers(inputs, (n - 1) as nat).push(
                serial_number,
            ),
            _ => spec_serial_numbers(inputs, (n - 1) as nat),
        }
    }
}

/// The tags of the first `n` inputs that are records, in order.
pub open spec fn spec_tags(inputs: Seq<InputView>, n: nat) -> Seq<Field>
    decreases n,
{
    if n == 0 {
        Seq::empty()
    } else {
        match inputs[n - 1] {
            InputView::Record(_, tag) => spec_tags(inputs, (n - 1) as nat).push(tag),
            _ => spec_tags(inputs, (n - 1) as nat),
        }
    }
}

/// The commitments of the first `n` outputs that are records, in order.
pub open spec fn spec_commitments(outputs: Seq<OutputView>, n: nat) -> Seq<Field>
    decreases n,
{
    if n == 0 {
        Seq::empty()
    } else {
        match outputs[n - 1] {
            OutputView::Record(commitment, _, _) => spec_commitments(outputs, (n - 1) as nat).push(
                commitment,
            ),
            _ => spec_commitments(outputs, (n - 1) as nat),
        }
    }
}

/// The nonces of the first `n` outputs that are records with their
/// ciphertext, in order.
pub open spec fn spec_nonces(outputs: Seq<OutputView>, n: nat) -> Seq<Group>
    decreases n,
{
    if n == 0 {
        Seq::empty()
    } else {
        match outputs[n - 1] {
            OutputView::Record(_, _, Some(record)) => spec_nonces(outputs, (n - 1) as nat).push(
                record.nonce,
            ),
            _ => spec_nonces(outputs, (n - 1) as nat),
        }
    }
}

impl Transition {
    /// Returns the transition ID.
    pub fn id(&self) -> (r: &Field)
        ensures
            r == &self.id,
    {
        &self.id
    }

    /// Returns the program ID.
    pub fn program_id(&self) -> (r: &ProgramID)
        ensures
            r == &self.program_id,
    {
        &self.program_id
    }

    /// Returns the function name.
    pub fn function_name(&self) -> (r: &Identifier)
        ensures
            r == &self.function_name,
    {
        &self.function_name
    }

    /// Returns the inputs.
    pub fn inputs(&self) -> (r: &Vec<Input>)
        ensures
            r == &self.inputs,
    {
        &self.inputs
    }

    /// Return the outputs.
    pub fn outputs(&self) -> (r: &Vec<Output>)
        ensures
            r == &self.outputs,
    {
        &self.outputs
    }

    /// Return the inputs for finalize, if they exist.
    pub fn finalize(&self) -> (r: Option<&Vec<Value>>)
        ensures
            match r {
                Some(values) => self.finalize == Some(*values),
                None => self.finalize is None,
            },
    {
        self.finalize.as_ref()
    }

    /// Returns the proof.
    pub fn transition_proof(&self) -> (r: &Proof)
        ensures
            r == &self.proof,
    {
        &self.proof
    }

    /// Returns the transition public key.
    pub fn tpk(&self) -> (r: &Group)
        ensures
            r == &self.tpk,
    {
        &self.tpk
    }

    /// Returns the transition commitment.
    pub fn tcm(&self) -> (r: &Field)
        ensures
            r == &self.tcm,
    {
        &self.tcm
    }

    /// Returns the network fee.
    pub fn fee(&self) -> (r: &i64)
        ensures
            r == &self.fee,
    {
        &self.fee
    }

    /// Returns `true` if the transition contains the given serial number.
    pub fn contains_serial_number(&self, serial_number: &Field) -> (r: bool)
        ensures
            r == exists|i: int|
                0 <= i < self.inputs@.len() && spends(
                    #[trigger] self.inputs@[i].deep_view(),
                    *serial_number,
                ),
    {
        let mut i: usize = 0;
        while i < self.inputs.len()
            invariant
                i <= self.inputs.len(),
                forall|j: int|
                    0 <= j < i ==> !spends(#[trigger] self.inputs@[j].deep_view(), *serial_number),
            decreases self.inputs.len() - i,
        {
            match &self.inputs[i] {
                Input::Record(input_sn, _) => {
                    if *input_sn == *serial_number {
                        assert(spends(self.inputs@[i as int].deep_view(), *serial_number));
                        return true;
                    }
                },
                _ => {},
            }
            i += 1;
        }
        false
    }

    /// Returns `true` if the transition contains the given commitment.
    pub fn contains_commitment(&self, commitment: &Field) -> (r: bool)
        ensures
            r == exists|i: int|
                0 <= i < self.outputs@.len() && commits(
                    #[trigger] self.outputs@[i].deep_view(),
                    *commitment,
                ),
    {
        let mut i: usize = 0;
        while i < self.outputs.len()
            invariant
                i <= self.outputs.len(),
                forall|j: int|
                    0 <= j < i ==> !commits(#[trigger] self.outputs@[j].deep_view(), *commitment),
            decreases self.outputs.len() - i,
        {
            match &self.outputs[i] {
                Output::Record(output_cm, _, _) => {
                    if *output_cm == *commitment {
                        assert(commits(self.outputs@[i as int].deep_view(), *commitment));
                        return true;
                    }
                },
                _ => {},
            }
            i += 1;
        }
        false
    }

    /// Returns the record with the corresponding commitment, if it exists:
    /// that of the first output that is a record with that commitment and
    /// holds its ciphertext.
    pub fn find_record(&self, commitment: &Field) -> (r: Option<&crate::program::RecordCiphertext>)
        ensures
            match r {
                Some(record) => exists|i: int|
                    0 <= i < self.outputs@.len() && holds_record(
                        #[trigger] self.outputs@[i].deep_view(),
                        *commitment,
                    ) && self.outputs@[i]->Record_2 == Some(*record) && forall|j: int|
                        0 <= j < i ==> !holds_record(
                            #[trigger] self.outputs@[j].deep_view(),
                            *commitment,
                        ),
                None => forall|i: int|
                    0 <= i < self.outputs@.len() ==> !holds_record(
                        #[trigger] self.outputs@[i].deep_view(),
                        *commitment,
                    ),
            },
    {
        let mut i: usize = 0;
        while i < self.outputs.len()
            invariant
                i <= self.outputs.len(),
                forall|j: int|
                    0 <= j < i ==> !holds_record(
                        #[trigger] self.outputs@[j].deep_view(),
                        *commitment,
                    ),
            decreases self.outputs.len() - i,
        {
            match &self.outputs[i] {
                Output::Record(output_cm, _, Some(record)) => {
                    if *output_cm == *commitment {
                        assert(holds_record(self.outputs@[i as int].deep_view(), *commitment));
                        return Some(record);
                    }
                },
                _ => {},
            }
            i += 1;
        }
        None
    }

    /// Returns the input IDs.
    pub fn input_ids(&self) -> (r: Vec<Field>)
        ensures
            r@.len() == self.inputs@.len(),
            forall|i: int| 0 <= i < r@.len() ==> r@[i] == self.inputs@[i].deep_view().id(),
    {
        let mut out: Vec<Field> = Vec::new();
        let mut i: usize = 0;
        while i < self.inputs.len()
            invariant
                i <= self.inputs.len(),
                out@.len() == i,
                forall|j: int| 0 <= j < i ==> out@[j] == self.inputs@[j].deep_view().id(),
            decreases self.inputs.len() - i,
        {
            out.push(self.inputs[i].id());
            i += 1;
        }
        out
    }

    /// Returns the serial numbers, for inputs that are records.
    pub fn serial_numbers(&self) -> (r: Vec<Field>)
        ensures
            r@ == spec_serial_numbers(self.inputs.deep_view(), self.inputs@.len()),
    {
        let mut out: Vec<Field> = Vec::new();
        let mut i: usize = 0;
        while i < self.inputs.len()
            invariant
                i <= self.inputs.len(),
                out@ == spec_serial_numbers(self.inputs.deep_view(), i as nat),
            decreases self.inputs.len() - i,
        {
            assert(self.inputs.deep_view()[i as int] == self.inputs@[i as int].deep_view());
            if let Some(serial_number) = self.inputs[i].serial_number() {
                out.push(serial_number);
            }
            i += 1;
        }
        out
    }

    /// Returns the tags, for inputs that are records.
    pub fn tags(&self) -> (r: Vec<Field>)
        ensures
            r@ == spec_tags(self.inputs.deep_view(), self.inputs@.len()),
    {
        let mut out: Vec<Field> = Vec::new();
        let mut i: usize = 0;
        while i < self.inputs.len()
            invariant
                i <= self.inputs.len(),
                out@ == spec_tags(self.inputs.deep_view(), i as nat),
            decreases self.inputs.len() - i,
        {
            assert(self.inputs.deep_view()[i as int] == self.inputs@[i as int].deep_view());
            if let Some(tag) = self.inputs[i].tag() {
                out.push(tag);
            }
            i += 1;
        }
        out
    }

    /// Returns the output IDs.
    pub fn output_ids(&self) -> (r: Vec<Field>)
        ensures
            r@.len() == self.outputs@.len(),
            forall|i: int| 0 <= i < r@.len() ==> r@[i] == self.outputs@[i].deep_view().id(),
    {
        let mut out: Vec<Field> = Vec::new();
        let mut i: usize = 0;
        while i < self.outputs.len()
            invariant
                i <= self.outputs.len(),
                out@.len() == i,
                forall|j: int| 0 <= j < i ==> out@[j] == self.outputs@[j].deep_view().id(),
            decreases self.outputs.len() - i,
        {
            out.push(self.outputs[i].id());
            i += 1;
        }
        out
    }

    /// Returns the commitments, for outputs that are records.
    pub fn commitments(&self) -> (r: Vec<Field>)
        ensures
            r@ == spec_commitments(self.outputs.deep_view(), self.outputs@.len()),
    {
        let mut out: Vec<Field> = Vec::new();
        let mut i: usize = 0;
        while i < self.outputs.len()
            invariant
                i <= self.outputs.len(),
                out@ == spec_commitments(self.outputs.deep_view(), i as nat),
            decreases self.outputs.len() - i,
        {
            assert(self.outputs.deep_view()[i as int] == self.outputs@[i as int].deep_view());
            if let Some(commitment) = self.outputs[i].commitment() {
                out.push(commitment);
            }
            i += 1;
        }
        out
    }

    /// Returns the nonces, for outputs that are records.
    pub fn nonces(&self) -> (r: Vec<Group>)
        ensures
            r@ == spec_nonces(self.outputs.deep_view(), self.outputs@.len()),
    {
        let mut out: Vec<Group> = Vec::new();
        let mut i: usize = 0;
        while i < self.outputs.len()
            invariant
                i <= self.outputs.len(),
                out@ == spec_nonces(self.outputs.deep_view(), i as nat),
            decreases self.outputs.len() - i,
        {
            assert(self.outputs.deep_view()[i as int] == self.outputs@[i as int].deep_view());
            if let Some(nonce) = self.outputs[i].nonce() {
                out.push(nonce);
            }
            i += 1;
        }
        out
    }

    /// Returns the transition ID, and consumes `self`.
    pub fn into_id(self) -> (r: Field)
        ensures
            r == self.id,
    {
        self.id
    }

    /// Returns the transition public key, and consumes `self`.
    pub fn into_tpk(self) -> (r: Group)
        ensures
            r == self.tpk,
    {
        self.tpk
    }

    /// Returns the inputs for finalize, if they exist, and consumes `self`.
    pub fn into_finalize(self) -> (r: Option<Vec<Value>>)
        ensures
            r == self.finalize,
    {
        self.finalize
    }
}

/// The commitments and encrypted records of the first `n` outputs that are
/// records with their ciphertext, in order.
pub open spec fn spec_records(outputs: Seq<OutputView>, n: nat) -> Seq<
    (Field, crate::program::RecordCiphertextView),
>
    decreases n,
{
    if n == 0 {
        Seq::empty()
    } else {
        match outputs[n - 1] {
            OutputView::Record(commitment, _, Some(record)) => spec_records(
                outputs,
                (n - 1) as nat,
            ).push((commitment, record)),
            _ => spec_records(outputs, (n - 1) as nat),
        }
    }
}

impl Transition {
    /// Returns the output records, as a tuple of `(commitment, record)`.
    pub fn records(&self) -> (r: Vec<(Field, crate::program::RecordCiphertext)>)
        ensures
            r.deep_view() == spec_records(self.outputs.deep_view(), self.outputs@.len()),
    {
        let mut out: Vec<(Field, crate::program::RecordCiphertext)> = Vec::new();
        let mut i: usize = 0;
        assert(out.deep_view() =~= Seq::empty());
        while i < self.outputs.len()
            invariant
                i <= self.outputs.len(),
                out.deep_view() == spec_records(self.outputs.deep_view(), i as nat),
            decreases self.outputs.len() - i,
        {
            assert(self.outputs.deep_view()[i as int] == self.outputs@[i as int].deep_view());
            if let Some((commitment, record)) = self.outputs[i].record() {
                let ghost before = out.deep_view();
                let copy = record.duplicate();
                let ghost view = copy.deep_view();
                out.push((commitment, copy));
                assert(out.deep_view() =~= before.push((commitment, view)));
            }
            i += 1;
        }
        out
    }

    /// Returns the inputs for finalize, if they exist, and else none.
    pub fn finalize_iter(&self) -> (r: Vec<&Value>)
        ensures
            match self.finalize {
                Some(values) => r@.len() == values@.len() && forall|i: int|
                    0 <= i < r@.len() ==> *r@[i] == values@[i],
                None => r@.len() == 0,
            },
    {
        let mut out: Vec<&Value> = Vec::new();
        if let Some(values) = &self.finalize {
            let mut i: usize = 0;
            while i < values.len()
                invariant
                    i <= values.len(),
                    out@.len() == i,
                    forall|j: int| 0 <= j < i ==> *out@[j] == values@[j],
                decreases values.len() - i,
            {
                out.push(&values[i]);
                i += 1;
            }
        }
        out
    }

    /// Returns the serial numbers, for inputs that are records, and consumes `self`.
    pub fn into_serial_numbers(self) -> (r: Vec<Field>)
        ensures
            r@ == spec_serial_numbers(self.inputs.deep_view(), self.inputs@.len()),
    {
        self.serial_numbers()
    }

    /// Returns the tags, for inputs that are records, and consumes `self`.
    pub fn into_tags(self) -> (r: Vec<Field>)
        ensures
            r@ == spec_tags(self.inputs.deep_view(), self.inputs@.len()),
    {
        self.tags()
    }

    /// Returns the commitments, for outputs that are records, and consumes `self`.
    pub fn into_commitments(self) -> (r: Vec<Field>)
        ensures
            r@ == spec_commitments(self.outputs.deep_view(), self.outputs@.len()),
    {
        self.commitments()
    }

    /// Returns the nonces, for outputs that are records, and consumes `self`.
    pub fn into_nonces(self) -> (r: Vec<Group>)
        ensures
            r@ == spec_nonces(self.outputs.deep_view(), self.outputs@.len()),
    {
        self.nonces()
    }

    /// Returns the output records, as a tuple of `(commitment, record)`, and consumes `self`.
    pub fn into_records(self) -> (r: Vec<(Field, crate::program::RecordCiphertext)>)
        ensures
            r.deep_view() == spec_records(self.outputs.deep_view(), self.outputs@.len()),
    {
        self.records()
    }
}

} // verus!
