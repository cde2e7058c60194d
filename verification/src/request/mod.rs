//! Requests: a signed bundle of input IDs that authorizes one function call.

pub mod laws;
pub mod sign;
pub mod verify;

use vstd::prelude::*;
use crate::account::Signature;
use crate::environment::{generator_multiple, group_multiple, group_sum};
use crate::field::{push_u64_bits_le, u64_bits_le, Address, Field, Group, Scalar};
use crate::network::Network;
use crate::program::{
    bytes_bits_le, push_bytes_bits_le, Identifier, ProgramID, ProgramIDView, Value, ValueView,
};

verus! {

/// Why a request could not be signed or checked.
#[derive(Clone, Copy, PartialEq, Eq, Structural, Debug)]
pub enum RequestError {
    /// The number of inputs differs from the number of input types.
    InputCountMismatch { expected: usize, found: usize },
    /// The number of input IDs differs from the number of inputs.
    InputIDCountMismatch { expected: usize, found: usize },
    /// A primitive of the network rejected its input.
    Primitive,
    /// The input index does not fit in 16 bits.
    IndexOverflow { index: usize },
    /// A plaintext was expected at this input, and a record was found.
    ExpectedPlaintext { index: usize },
    /// A record was expected at this input, and a plaintext was found.
    ExpectedRecord { index: usize },
    /// The input ID is that of a record, and the declared type is not.
    ExpectedRecordType { index: usize },
    /// The input record does not belong to the signer.
    OwnerMismatch { index: usize },
    /// The input record's balance does not fit in 52 bits.
    InvalidGates { index: usize },
}

/// The ID of an input, by the declared visibility of the input.
#[derive(Clone, Copy, PartialEq, Eq, Structural, Debug)]
pub enum InputID {
    /// The hash of the constant input.
    Constant(Field),
    /// The hash of the public input.
    Public(Field),
    /// The hash of the ciphertext of the private input.
    Private(Field),
    /// The commitment, gamma, serial number and tag of the record input.
    Record(Field, Group, Field, Field),
    /// The hash of the external record input.
    ExternalRecord(Field),
}

/// The ghost value of a request.
pub struct RequestView {
    pub caller: Address,
    pub network_id: u16,
    pub program_id: ProgramIDView,
    pub function_name: Seq<u8>,
    pub input_ids: Seq<InputID>,
    pub inputs: Seq<ValueView>,
    pub signature: Signature,
    pub sk_tag: Field,
    pub tvk: Field,
    pub tsk: Scalar,
    pub tcm: Field,
}

/// A signed request to call a function.
#[derive(Clone, PartialEq, Eq, Debug)]
pub struct Request {
    /// The request caller.
    pub caller: Address,
    /// The network ID.
    pub network_id: u16,
    /// The program ID.
    pub program_id: ProgramID,
    /// The function name.
    pub function_name: Identifier,
    /// The input ID for the transition.
    pub input_ids: Vec<InputID>,
    /// The function inputs.
    pub inputs: Vec<Value>,
    /// The signature for the transition.
    pub signature: Signature,
    /// The tag secret key.
    pub sk_tag: Field,
    /// The transition view key.
    pub tvk: Field,
    /// The transition secret key.
    pub tsk: Scalar,
    /// The transition commitment.
    pub tcm: Field,
}

impl DeepView for Request {
    type V = RequestView;

    open spec fn deep_view(&self) -> RequestView {
        RequestView {
            caller: self.caller,
            network_id: self.network_id,
            program_id: self.program_id.deep_view(),
            function_name: self.function_name.deep_view(),
            input_ids: self.input_ids@,
            inputs: self.inputs.deep_view(),
            signature: self.signature,
            sk_tag: self.sk_tag,
            tvk: self.tvk,
            tsk: self.tsk,
            tcm: self.tcm,
        }
    }
}

/// The bits that are hashed to the function ID: network ID, program name,
/// program network, function name.
pub open spec fn function_id_bits(
    network_id: u16,
    program_id: ProgramIDView,
    function_name: Seq<u8>,
) -> Seq<bool> {
    u64_bits_le(network_id as u64, 16) + bytes_bits_le(program_id.name) + bytes_bits_le(
        program_id.network,
    ) + bytes_bits_le(function_name)
}

/// The function ID: `Hash(network_id, program_id, function_name)`.
pub open spec fn spec_function_id<N: Network>(
    network_id: u16,
    program_id: ProgramIDView,
    function_name: Seq<u8>,
) -> Option<Field> {
    N::spec_hash_bhp1024(function_id_bits(network_id, program_id, function_name))
}

/// The preimage `(function ID || value || key || index)` of the hash of a
/// constant, public or external record value, where `key` is `tcm` or `tvk`.
pub open spec fn value_preimage(function_id: Field, fields: Seq<Field>, key: Field, index: u16) -> Seq<
    Field,
> {
    seq![function_id] + fields + seq![key, Field::spec_from_u64(index as u64)]
}

/// The hash of a constant, public or external record value.
pub open spec fn spec_value_hash<N: Network>(
    function_id: Field,
    fields: Seq<Field>,
    key: Field,
    index: u16,
) -> Option<Field> {
    N::spec_hash_psd8(value_preimage(function_id, fields, key, index))
}

/// Each field element with the randomizer at its place added to it.
pub open spec fn masked_fields<N: Network>(fields: Seq<Field>, randomizers: Seq<Field>) -> Seq<
    Field,
> {
    Seq::new(fields.len(), |i: int| N::field_sum(fields[i], randomizers[i]))
}

/// The symmetric encryption of field elements under a view key; `None` where
/// there are more than can be counted in 16 bits.
pub open spec fn spec_encrypt_symmetric<N: Network>(fields: Seq<Field>, view_key: Field) -> Option<
    Seq<Field>,
> {
    if fields.len() > u16::MAX {
        None
    } else {
        Some(
            masked_fields::<N>(
                fields,
                N::spec_hash_many_psd8(
                    seq![N::spec_encryption_domain(), view_key],
                    fields.len() as u16,
                ),
            ),
        )
    }
}

/// The hash of the ciphertext of a private value, which is encrypted under
/// the view key `Hash(function ID || tvk || index)`.
pub open spec fn spec_private_hash<N: Network>(
    function_id: Field,
    fields: Seq<Field>,
    tvk: Field,
    index: u16,
) -> Option<Field> {
    match N::spec_hash_psd4(seq![function_id, tvk, Field::spec_from_u64(index as u64)]) {
        Some(view_key) => match spec_encrypt_symmetric::<N>(fields, view_key) {
            Some(ciphertext) => N::spec_hash_psd8(ciphertext),
            None => None,
        },
        None => None,
    }
}

/// The ciphertext of a private value.
pub open spec fn spec_private_ciphertext<N: Network>(
    function_id: Field,
    fields: Seq<Field>,
    tvk: Field,
    index: u16,
) -> Option<Seq<Field>> {
    match N::spec_hash_psd4(seq![function_id, tvk, Field::spec_from_u64(index as u64)]) {
        Some(view_key) => spec_encrypt_symmetric::<N>(fields, view_key),
        None => None,
    }
}

/// The transition public key that a signature stands for:
/// `response * G + challenge * pk_sig`.
pub open spec fn spec_to_tpk<N: Network>(signature: Signature) -> Group {
    group_sum::<N>(
        generator_multiple::<N>(signature.response),
        group_multiple::<N>(signature.compute_key.pk_sig, signature.challenge),
    )
}

/// Computes the function ID as `Hash(network_id, program_id, function_name)`.
pub fn function_id<N: Network>(
    network_id: u16,
    program_id: &ProgramID,
    function_name: &Identifier,
) -> (r: Option<Field>)
    ensures
        r == spec_function_id::<N>(
            network_id,
            program_id.deep_view(),
            function_name.deep_view(),
        ),
{
    let mut bits: Vec<bool> = Vec::new();
    push_u64_bits_le(&mut bits, network_id as u64, 16);
    push_bytes_bits_le(&mut bits, &program_id.name.name);
    push_bytes_bits_le(&mut bits, &program_id.network.name);
    push_bytes_bits_le(&mut bits, &function_name.name);
    assert(bits@ =~= function_id_bits(
        network_id,
        program_id.deep_view(),
        function_name.deep_view(),
    ));
    N::hash_bhp1024(&bits)
}

/// Hashes a constant, public or external record value:
/// `Hash(function ID || value || key || index)`.
pub fn value_hash<N: Network>(function_id: Field, fields: Vec<Field>, key: Field, index: u16) -> (r:
    Option<Field>)
    ensures
        r == spec_value_hash::<N>(function_id, fields@, key, index),
{
    let ghost given = fields@;
    let mut preimage: Vec<Field> = Vec::new();
    preimage.push(function_id);
    let mut fields = fields;
    preimage.append(&mut fields);
    preimage.push(key);
    preimage.push(Field::from_u16(index));
    assert(preimage@ =~= value_preimage(function_id, given, key, index));
    N::hash_psd8(&preimage)
}

/// Encrypts field elements under a view key: the randomizers are hashed
/// from the encryption domain and the key, and added one by one.
pub fn encrypt_symmetric<N: Network>(fields: &Vec<Field>, view_key: Field) -> (r: Option<
    Vec<Field>,
>)
    ensures
        match r {
            Some(c) => spec_encrypt_symmetric::<N>(fields@, view_key) == Some(c@) && c@.len()
                == fields@.len(),
            None => spec_encrypt_symmetric::<N>(fields@, view_key) is None,
        },
{
    if fields.len() > u16::MAX as usize {
        return None;
    }
    let mut seed: Vec<Field> = Vec::new();
    seed.push(N::encryption_domain());
    seed.push(view_key);
    assert(seed@ =~= seq![N::spec_encryption_domain(), view_key]);
    let randomizers = N::hash_many_psd8(&seed, fields.len() as u16);
    let mut out: Vec<Field> = Vec::new();
    let mut i: usize = 0;
    while i < fields.len()
        invariant
            i <= fields.len(),
            randomizers@.len() == fields.len(),
            out@ == masked_fields::<N>(fields@, randomizers@).take(i as int),
        decreases fields.len() - i,
    {
        out.push(N::field_add(&fields[i], &randomizers[i]));
        assert(out@ =~= masked_fields::<N>(fields@, randomizers@).take(i + 1));
        i += 1;
    }
    assert(out@ =~= masked_fields::<N>(fields@, randomizers@));
    Some(out)
}

} // verus!
