//! The values that a function call takes and gives: identifiers, plaintexts,
//! ciphertexts and records, with the encodings that the protocol hashes.

use vstd::prelude::*;
use crate::field::{push_u64_bits_le, u64_bits_le, Address, Field, Group};

verus! {

/// The bits of a byte string, each byte least significant bit first.
pub open spec fn bytes_bits_le(s: Seq<u8>) -> Seq<bool>
    decreases s.len(),
{
    if s.len() == 0 {
        Seq::empty()
    } else {
        bytes_bits_le(s.drop_last()) + u64_bits_le(s.last() as u64, 8)
    }
}

/// The bits of a list of field elements, 256 for each.
pub open spec fn fields_bits_le(s: Seq<Field>) -> Seq<bool>
    decreases s.len(),
{
    if s.len() == 0 {
        Seq::empty()
    } else {
        fields_bits_le(s.drop_last()) + s.last().bits_le()
    }
}

/// Appends the bits of a byte string, each byte least significant bit first.
pub fn push_bytes_bits_le(bits: &mut Vec<bool>, bytes: &Vec<u8>)
    ensures
        final(bits)@ == old(bits)@ + bytes_bits_le(bytes@),
{
    let mut i: usize = 0;
    assert(bytes@.take(0) =~= Seq::<u8>::empty());
    while i < bytes.len()
        invariant
            i <= bytes.len(),
            bits@ == old(bits)@ + bytes_bits_le(bytes@.take(i as int)),
        decreases bytes.len() - i,
    {
        let ghost before = bits@;
        push_u64_bits_le(bits, bytes[i] as u64, 8);
        proof {
            let next = bytes@.take(i + 1);
            assert(next.drop_last() =~= bytes@.take(i as int));
            assert(next.last() == bytes@[i as int]);
            assert(bits@ =~= old(bits)@ + bytes_bits_le(next));
        }
        i += 1;
    }
    assert(bytes@.take(i as int) =~= bytes@);
}

/// Appends the bits of a list of field elements, 256 for each.
pub fn push_fields_bits_le(bits: &mut Vec<bool>, fields: &Vec<Field>)
    ensures
        final(bits)@ == old(bits)@ + fields_bits_le(fields@),
{
    let mut i: usize = 0;
    assert(fields@.take(0) =~= Seq::<Field>::empty());
    while i < fields.len()
        invariant
            i <= fields.len(),
            bits@ == old(bits)@ + fields_bits_le(fields@.take(i as int)),
        decreases fields.len() - i,
    {
        fields[i].push_bits_le(bits);
        proof {
            let next = fields@.take(i + 1);
            assert(next.drop_last() =~= fields@.take(i as int));
            assert(next.last() == fields@[i as int]);
            assert(bits@ =~= old(bits)@ + fields_bits_le(next));
        }
        i += 1;
    }
    assert(fields@.take(i as int) =~= fields@);
}

/// Copies a list of field elements.
pub fn copy_fields(fields: &Vec<Field>) -> (r: Vec<Field>)
    ensures
        r@ == fields@,
{
    let mut out: Vec<Field> = Vec::new();
    let mut i: usize = 0;
    while i < fields.len()
        invariant
            i <= fields.len(),
            out@ == fields@.take(i as int),
        decreases fields.len() - i,
    {
        out.push(fields[i]);
        assert(out@ =~= fields@.take(i + 1));
        i += 1;
    }
    assert(fields@.take(i as int) =~= fields@);
    out
}

/// Copies a byte string.
pub fn copy_bytes(bytes: &Vec<u8>) -> (r: Vec<u8>)
    ensures
        r@ == bytes@,
{
    let mut out: Vec<u8> = Vec::new();
    let mut i: usize = 0;
    while i < bytes.len()
        invariant
            i <= bytes.len(),
            out@ == bytes@.take(i as int),
        decreases bytes.len() - i,
    {
        out.push(bytes[i]);
        assert(out@ =~= bytes@.take(i + 1));
        i += 1;
    }
    assert(bytes@.take(i as int) =~= bytes@);
    out
}

/// The name of a program, a function or a record type.
#[derive(Clone, PartialEq, Eq, Debug)]
pub struct Identifier {
    pub name: Vec<u8>,
}

impl DeepView for Identifier {
    type V = Seq<u8>;

    open spec fn deep_view(&self) -> Seq<u8> {
        self.name@
    }
}

impl Identifier {
    /// Copies the identifier.
    pub fn duplicate(&self) -> (r: Identifier)
        ensures
            r.deep_view() == self.deep_view(),
    {
        Identifier { name: copy_bytes(&self.name) }
    }

    /// Tells whether two identifiers hold the same name.
    pub fn is_equal(&self, other: &Identifier) -> (r: bool)
        ensures
            r == (self.deep_view() == other.deep_view()),
    {
        if self.name.len() != other.name.len() {
            return false;
        }
        let mut i: usize = 0;
        while i < self.name.len()
            invariant
                i <= self.name.len(),
                self.name.len() == other.name.len(),
                self.name@.take(i as int) == other.name@.take(i as int),
            decreases self.name.len() - i,
        {
            if self.name[i] != other.name[i] {
                return false;
            }
            assert(self.name@.take(i + 1) =~= self.name@.take(i as int).push(self.name@[i as int]));
            assert(other.name@.take(i + 1) =~= other.name@.take(i as int).push(
                other.name@[i as int],
            ));
            i += 1;
        }
        assert(self.name@.take(i as int) =~= self.name@);
        assert(other.name@.take(i as int) =~= other.name@);
        true
    }
}

/// The ghost value of a program ID.
pub struct ProgramIDView {
    pub name: Seq<u8>,
    pub network: Seq<u8>,
}

/// A program ID: the program's name and the name of its network domain.
#[derive(Clone, PartialEq, Eq, Debug)]
pub struct ProgramID {
    pub name: Identifier,
    pub network: Identifier,
}

impl DeepView for ProgramID {
    type V = ProgramIDView;

    open spec fn deep_view(&self) -> ProgramIDView {
        ProgramIDView { name: self.name.deep_view(), network: self.network.deep_view() }
    }
}

impl ProgramID {
    /// The program's name.
    pub fn name(&self) -> (r: &Identifier)
        ensures
            r == &self.name,
    {
        &self.name
    }

    /// The program's network domain.
    pub fn network(&self) -> (r: &Identifier)
        ensures
            r == &self.network,
    {
        &self.network
    }

    /// Copies the program ID.
    pub fn duplicate(&self) -> (r: ProgramID)
        ensures
            r.deep_view() == self.deep_view(),
    {
        ProgramID { name: self.name.duplicate(), network: self.network.duplicate() }
    }

    /// Tells whether two program IDs are the same.
    pub fn is_equal(&self, other: &ProgramID) -> (r: bool)
        ensures
            r == (self.deep_view() == other.deep_view()),
    {
        self.name.is_equal(&other.name) && self.network.is_equal(&other.network)
    }
}

/// A plaintext value, held as the field elements that it packs into.
#[derive(Clone, PartialEq, Eq, Debug)]
pub struct Plaintext {
    pub fields: Vec<Field>,
}

impl DeepView for Plaintext {
    type V = Seq<Field>;

    open spec fn deep_view(&self) -> Seq<Field> {
        self.fields@
    }
}

impl Plaintext {
    /// The field elements of the plaintext.
    pub fn to_fields(&self) -> (r: Vec<Field>)
        ensures
            r@ == self.deep_view(),
    {
        copy_fields(&self.fields)
    }

    /// Copies the plaintext.
    pub fn duplicate(&self) -> (r: Plaintext)
        ensures
            r.deep_view() == self.deep_view(),
    {
        Plaintext { fields: copy_fields(&self.fields) }
    }
}

/// An encrypted plaintext, one field element for each of the plaintext's.
#[derive(Clone, PartialEq, Eq, Debug)]
pub struct Ciphertext {
    pub fields: Vec<Field>,
}

impl DeepView for Ciphertext {
    type V = Seq<Field>;

    open spec fn deep_view(&self) -> Seq<Field> {
        self.fields@
    }
}

impl Ciphertext {
    /// The field elements of the ciphertext.
    pub fn to_fields(&self) -> (r: Vec<Field>)
        ensures
            r@ == self.deep_view(),
    {
        copy_fields(&self.fields)
    }

    /// Copies the ciphertext.
    pub fn duplicate(&self) -> (r: Ciphertext)
        ensures
            r.deep_view() == self.deep_view(),
    {
        Ciphertext { fields: copy_fields(&self.fields) }
    }
}

/// The largest balance, in gates, that a record may hold, plus one: `2^52`.
pub const GATES_BOUND: u64 = 0x10_0000_0000_0000;

/// The ghost value of a record.
pub struct RecordView {
    pub owner: Address,
    pub gates: u64,
    pub data: Seq<Field>,
    pub nonce: Group,
}

impl RecordView {
    /// The record as field elements: owner, gates, data, nonce.
    pub open spec fn fields(self) -> Seq<Field> {
        seq![self.owner.point.x, Field::spec_from_u64(self.gates)] + self.data + seq![self.nonce.x]
    }

    /// The record as bits: owner, gates, data, nonce.
    pub open spec fn bits_le(self) -> Seq<bool> {
        self.owner.point.x.bits_le() + u64_bits_le(self.gates, 64) + fields_bits_le(self.data)
            + self.nonce.x.bits_le()
    }

    /// Whether the balance fits in 52 bits.
    pub open spec fn gates_in_range(self) -> bool {
        self.gates < GATES_BOUND
    }
}

/// A record: an owner, a balance in gates, data, and a nonce.
#[derive(Clone, PartialEq, Eq, Debug)]
pub struct Record {
    pub owner: Address,
    pub gates: u64,
    pub data: Vec<Field>,
    pub nonce: Group,
}

impl DeepView for Record {
    type V = RecordView;

    open spec fn deep_view(&self) -> RecordView {
        RecordView { owner: self.owner, gates: self.gates, data: self.data@, nonce: self.nonce }
    }
}

impl Record {
    /// The owner of the record.
    pub fn owner(&self) -> (r: Address)
        ensures
            r == self.owner,
    {
        self.owner
    }

    /// The balance of the record, in gates.
    pub fn gates(&self) -> (r: u64)
        ensures
            r == self.gates,
    {
        self.gates
    }

    /// The nonce of the record.
    pub fn nonce(&self) -> (r: Group)
        ensures
            r == self.nonce,
    {
        self.nonce
    }

    /// Tells whether the balance fits in 52 bits.
    pub fn gates_in_range(&self) -> (r: bool)
        ensures
            r == self.deep_view().gates_in_range(),
    {
        self.gates < GATES_BOUND
    }

    /// The record as field elements: owner, gates, data, nonce.
    pub fn to_fields(&self) -> (r: Vec<Field>)
        ensures
            r@ == self.deep_view().fields(),
    {
        let mut out: Vec<Field> = Vec::new();
        out.push(self.owner.to_field());
        out.push(Field::from_u64(self.gates));
        let mut data = copy_fields(&self.data);
        out.append(&mut data);
        out.push(self.nonce.to_x_coordinate());
        assert(out@ =~= self.deep_view().fields());
        out
    }

    /// Appends the record as bits: owner, gates, data, nonce.
    pub fn push_bits_le(&self, bits: &mut Vec<bool>)
        ensures
            final(bits)@ == old(bits)@ + self.deep_view().bits_le(),
    {
        self.owner.to_field().push_bits_le(bits);
        push_u64_bits_le(bits, self.gates, 64);
        push_fields_bits_le(bits, &self.data);
        self.nonce.to_x_coordinate().push_bits_le(bits);
        assert(bits@ =~= old(bits)@ + self.deep_view().bits_le());
    }

    /// Copies the record.
    pub fn duplicate(&self) -> (r: Record)
        ensures
            r.deep_view() == self.deep_view(),
    {
        Record {
            owner: self.owner,
            gates: self.gates,
            data: copy_fields(&self.data),
            nonce: self.nonce,
        }
    }
}

/// The ghost value of an encrypted record.
pub struct RecordCiphertextView {
    pub owner: Field,
    pub gates: Field,
    pub data: Seq<Field>,
    pub nonce: Group,
}

impl RecordCiphertextView {
    /// The encrypted record as bits: owner, gates, data, nonce.
    pub open spec fn bits_le(self) -> Seq<bool> {
        self.owner.bits_le() + self.gates.bits_le() + fields_bits_le(self.data)
            + self.nonce.x.bits_le()
    }
}

/// An encrypted record: owner, balance and data are encrypted, the nonce is not.
#[derive(Clone, PartialEq, Eq, Debug)]
pub struct RecordCiphertext {
    pub owner: Field,
    pub gates: Field,
    pub data: Vec<Field>,
    pub nonce: Group,
}

impl DeepView for RecordCiphertext {
    type V = RecordCiphertextView;

    open spec fn deep_view(&self) -> RecordCiphertextView {
        RecordCiphertextView {
            owner: self.owner,
            gates: self.gates,
            data: self.data@,
            nonce: self.nonce,
        }
    }
}

impl RecordCiphertext {
    /// The nonce of the record.
    pub fn nonce(&self) -> (r: Group)
        ensures
            r == self.nonce,
    {
        self.nonce
    }

    /// The encrypted record as bits: owner, gates, data, nonce.
    pub fn to_bits_le(&self) -> (r: Vec<bool>)
        ensures
            r@ == self.deep_view().bits_le(),
    {
        let mut bits: Vec<bool> = Vec::new();
        self.owner.push_bits_le(&mut bits);
        self.gates.push_bits_le(&mut bits);
        push_fields_bits_le(&mut bits, &self.data);
        self.nonce.to_x_coordinate().push_bits_le(&mut bits);
        assert(bits@ =~= self.deep_view().bits_le());
        bits
    }

    /// Copies the encrypted record.
    pub fn duplicate(&self) -> (r: RecordCiphertext)
        ensures
            r.deep_view() == self.deep_view(),
    {
        RecordCiphertext {
            owner: self.owner,
            gates: self.gates,
            data: copy_fields(&self.data),
            nonce: self.nonce,
        }
    }
}

/// The ghost value of a `Value`.
pub enum ValueView {
    Plaintext(Seq<Field>),
    Record(RecordView),
}

impl ValueView {
    /// The value as field elements.
    pub open spec fn fields(self) -> Seq<Field> {
        match self {
            ValueView::Plaintext(fields) => fields,
            ValueView::Record(record) => record.fields(),
        }
    }
}

/// A value that a function takes or gives: a plaintext or a record.
#[derive(Clone, PartialEq, Eq, Debug)]
pub enum Value {
    Plaintext(Plaintext),
    Record(Record),
}

impl DeepView for Value {
    type V = ValueView;

    open spec fn deep_view(&self) -> ValueView {
        match self {
            Value::Plaintext(plaintext) => ValueView::Plaintext(plaintext.deep_view()),
            Value::Record(record) => ValueView::Record(record.deep_view()),
        }
    }
}

impl Value {
    /// The value as field elements.
    pub fn to_fields(&self) -> (r: Vec<Field>)
        ensures
            r@ == self.deep_view().fields(),
    {
        match self {
            Value::Plaintext(plaintext) => plaintext.to_fields(),
            Value::Record(record) => record.to_fields(),
        }
    }

    /// Copies the value.
    pub fn duplicate(&self) -> (r: Value)
        ensures
            r.deep_view() == self.deep_view(),
    {
        match self {
            Value::Plaintext(plaintext) => Value::Plaintext(plaintext.duplicate()),
            Value::Record(record) => Value::Record(record.duplicate()),
        }
    }
}

/// The ghost value of a `ValueType`.
pub enum ValueTypeView {
    Constant,
    Public,
    Private,
    Record(Seq<u8>),
    ExternalRecord,
}

/// The declared type of an input or an output: its visibility, and for a
/// record the name of the record type.
#[derive(Clone, PartialEq, Eq, Debug)]
pub enum ValueType {
    Constant,
    Public,
    Private,
    Record(Identifier),
    ExternalRecord,
}

impl DeepView for ValueType {
    type V = ValueTypeView;

    open spec fn deep_view(&self) -> ValueTypeView {
        match self {
            ValueType::Constant => ValueTypeView::Constant,
            ValueType::Public => ValueTypeView::Public,
            ValueType::Private => ValueTypeView::Private,
            ValueType::Record(name) => ValueTypeView::Record(name.deep_view()),
            ValueType::ExternalRecord => ValueTypeView::ExternalRecord,
        }
    }
}

/// A register of a function, named by its locator.
#[derive(Clone, Copy, PartialEq, Eq, Structural, Debug)]
pub struct Register {
    pub locator: u64,
}

impl Register {
    /// The locator of the register.
    pub fn locator(&self) -> (r: u64)
        ensures
            r == self.locator,
    {
        self.locator
    }
}

} // verus!
