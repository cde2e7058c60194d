//! What is derived from a record: its commitment, serial number and tag, and
//! its encryption.

use vstd::prelude::*;
use crate::environment::{generator_multiple, group_multiple};
use crate::field::{Field, Group, Scalar};
use crate::network::Network;
use crate::program::{
    bytes_bits_le, push_bytes_bits_le, Identifier, ProgramID, ProgramIDView, Record,
    RecordCiphertext, RecordCiphertextView, RecordView,
};

verus! {

/// The commitment of a record: the hash of the program ID, the record name
/// and the record.
pub open spec fn spec_record_commitment<N: Network>(
    record: RecordView,
    program_id: ProgramIDView,
    record_name: Seq<u8>,
) -> Option<Field> {
    N::spec_hash_bhp1024(
        bytes_bits_le(program_id.name) + bytes_bits_le(program_id.network) + bytes_bits_le(
            record_name,
        ) + record.bits_le(),
    )
}

/// The serial number of a record from its gamma and commitment.
pub open spec fn spec_serial_number<N: Network>(gamma: Group, commitment: Field) -> Option<Field> {
    match N::spec_hash_to_scalar_psd2(seq![N::spec_serial_number_domain(), gamma.x]) {
        Some(sn_nonce) => N::spec_commit_bhp512(
            N::spec_serial_number_domain().bits_le() + commitment.bits_le(),
            sn_nonce,
        ),
        None => None,
    }
}

/// The tag of a record from the tag key and the commitment.
pub open spec fn spec_tag<N: Network>(sk_tag: Field, commitment: Field) -> Option<Field> {
    N::spec_hash_psd2(seq![sk_tag, commitment])
}

/// The generator `H` of a record: `HashToGroup(commitment)`.
pub open spec fn spec_record_generator<N: Network>(commitment: Field) -> Option<Group> {
    N::spec_hash_to_group_psd2(seq![N::spec_serial_number_domain(), commitment])
}

/// The field elements of a record that its encryption hides: owner, gates, data.
pub open spec fn record_secret_fields(record: RecordView) -> Seq<Field> {
    seq![record.owner.point.x, Field::spec_from_u64(record.gates)] + record.data
}

/// The randomizers of a record's encryption under the randomizer `r`: hashed
/// from the encryption domain and the record view key `(r * owner).x`.
pub open spec fn record_randomizers<N: Network>(record: RecordView, randomizer: Scalar) -> Seq<
    Field,
> {
    N::spec_hash_many_psd8(
        seq![
            N::spec_encryption_domain(),
            group_multiple::<N>(record.owner.point, randomizer).x,
        ],
        (record.data.len() + 2) as u16,
    )
}

/// The encryption of a record under a randomizer; `None` where the nonce is
/// not `randomizer * G`, or the data is too long to count in 16 bits.
pub open spec fn spec_record_encrypt<N: Network>(record: RecordView, randomizer: Scalar) -> Option<
    RecordCiphertextView,
> {
    if record.nonce != generator_multiple::<N>(randomizer) || record.data.len() + 2 > u16::MAX {
        None
    } else {
        let randomizers = record_randomizers::<N>(record, randomizer);
        Some(
            RecordCiphertextView {
                owner: N::field_sum(record.owner.point.x, randomizers[0]),
                gates: N::field_sum(Field::spec_from_u64(record.gates), randomizers[1]),
                data: Seq::new(
                    record.data.len(),
                    |i: int| N::field_sum(record.data[i], randomizers[i + 2]),
                ),
                nonce: record.nonce,
            },
        )
    }
}

/// The checksum of an encrypted record: the hash of its bits.
pub open spec fn spec_record_checksum<N: Network>(record: RecordCiphertextView) -> Option<Field> {
    N::spec_hash_bhp1024(record.bits_le())
}

impl Record {
    /// Computes the commitment of the record under a program ID and a record name.
    pub fn to_commitment<N: Network>(&self, program_id: &ProgramID, record_name: &Identifier) -> (r:
        Option<Field>)
        ensures
            r == spec_record_commitment::<N>(
                self.deep_view(),
                program_id.deep_view(),
                record_name.deep_view(),
            ),
    {
        let mut bits: Vec<bool> = Vec::new();
        push_bytes_bits_le(&mut bits, &program_id.name.name);
        push_bytes_bits_le(&mut bits, &program_id.network.name);
        push_bytes_bits_le(&mut bits, &record_name.name);
        self.push_bits_le(&mut bits);
        assert(bits@ =~= bytes_bits_le(program_id.deep_view().name) + bytes_bits_le(
            program_id.deep_view().network,
        ) + bytes_bits_le(record_name.deep_view()) + self.deep_view().bits_le());
        N::hash_bhp1024(&bits)
    }

    /// Computes the serial number of a record from its gamma and commitment.
    pub fn serial_number_from_gamma<N: Network>(gamma: &Group, commitment: Field) -> (r: Option<
        Field,
    >)
        ensures
            r == spec_serial_number::<N>(*gamma, commitment),
    {
        let domain = N::serial_number_domain();
        let mut preimage: Vec<Field> = Vec::new();
        preimage.push(domain);
        preimage.push(gamma.to_x_coordinate());
        assert(preimage@ =~= seq![N::spec_serial_number_domain(), gamma.x]);
        match N::hash_to_scalar_psd2(&preimage) {
            Some(sn_nonce) => {
                let mut bits: Vec<bool> = Vec::new();
                domain.push_bits_le(&mut bits);
                commitment.push_bits_le(&mut bits);
                assert(bits@ =~= N::spec_serial_number_domain().bits_le() + commitment.bits_le());
                N::commit_bhp512(&bits, &sn_nonce)
            },
            None => None,
        }
    }

    /// Computes the tag of a record from the tag key and the commitment.
    pub fn tag<N: Network>(sk_tag: Field, commitment: Field) -> (r: Option<Field>)
        ensures
            r == spec_tag::<N>(sk_tag, commitment),
    {
        let mut preimage: Vec<Field> = Vec::new();
        preimage.push(sk_tag);
        preimage.push(commitment);
        assert(preimage@ =~= seq![sk_tag, commitment]);
        N::hash_psd2(&preimage)
    }

    /// Computes the generator `H` of a record as `HashToGroup(commitment)`.
    pub fn generator<N: Network>(commitment: Field) -> (r: Option<Group>)
        ensures
            r == spec_record_generator::<N>(commitment),
    {
        let mut preimage: Vec<Field> = Vec::new();
        preimage.push(N::serial_number_domain());
        preimage.push(commitment);
        assert(preimage@ =~= seq![N::spec_serial_number_domain(), commitment]);
        N::hash_to_group_psd2(&preimage)
    }

    /// Encrypts the record under a randomizer, which must be the one that the
    /// record's nonce was made from.
    pub fn encrypt<N: Network>(&self, randomizer: &Scalar) -> (r: Option<RecordCiphertext>)
        ensures
            r.deep_view() == spec_record_encrypt::<N>(self.deep_view(), *randomizer),
    {
        if self.nonce != N::g_scalar_multiply(randomizer) {
            return None;
        }
        if self.data.len() > (u16::MAX - 2) as usize {
            return None;
        }
        let record_view_key = N::group_scale(&self.owner.point, randomizer).to_x_coordinate();
        let mut seed: Vec<Field> = Vec::new();
        seed.push(N::encryption_domain());
        seed.push(record_view_key);
        assert(seed@ =~= seq![
            N::spec_encryption_domain(),
            group_multiple::<N>(self.owner.point, *randomizer).x,
        ]);
        let randomizers = N::hash_many_psd8(&seed, (self.data.len() + 2) as u16);
        let owner = N::field_add(&self.owner.to_field(), &randomizers[0]);
        let gates = N::field_add(&Field::from_u64(self.gates), &randomizers[1]);
        let mut data: Vec<Field> = Vec::new();
        let mut i: usize = 0;
        let ghost full = Seq::new(
            self.data@.len(),
            |i: int| N::field_sum(self.data@[i], randomizers@[i + 2]),
        );
        while i < self.data.len()
            invariant
                i <= self.data.len() <= u16::MAX - 2,
                randomizers@.len() == self.data.len() + 2,
                full == Seq::new(
                    self.data@.len(),
                    |i: int| N::field_sum(self.data@[i], randomizers@[i + 2]),
                ),
                data@ == full.take(i as int),
            decreases self.data.len() - i,
        {
            data.push(N::field_add(&self.data[i], &randomizers[i + 2]));
            assert(data@ =~= full.take(i + 1));
            i += 1;
        }
        assert(data@ =~= full);
        Some(RecordCiphertext { owner, gates, data, nonce: self.nonce })
    }
}

impl RecordCiphertext {
    /// Computes the checksum of the encrypted record.
    pub fn to_checksum<N: Network>(&self) -> (r: Option<Field>)
        ensures
            r == spec_record_checksum::<N>(self.deep_view()),
    {
        let bits = self.to_bits_le();
        N::hash_bhp1024(&bits)
    }
}

} // verus!
