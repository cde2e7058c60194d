//! The byte encodings of identifiers, plaintexts, ciphertexts, records and values.

use vstd::prelude::*;
use crate::bytes::{
    counted_decoding, counted_encoding, lemma_counted_roundtrip,
    lemma_fields_deep_view, read_counted, write_counted, DecodeError, LeBytes,
};
use crate::field::{Address, Field, Group};
use crate::program::{
    Ciphertext, Identifier, Plaintext, ProgramID, ProgramIDView, Record, RecordCiphertext,
    RecordCiphertextView, RecordView, Value, ValueView,
};

verus! {

impl LeBytes for Identifier {
    /// The length in one byte, then the name.
    open spec fn encoding(v: Seq<u8>) -> Seq<u8> {
        seq![(v.len() % 0x100) as u8] + v
    }

    open spec fn encodable(v: Seq<u8>) -> bool {
        v.len() <= u8::MAX
    }

    open spec fn decoding(bytes: Seq<u8>) -> Result<(Seq<u8>, int), DecodeError> {
        if bytes.len() < 1 {
            Err(DecodeError::UnexpectedEnd)
        } else if bytes.len() < 1 + bytes[0] {
            Err(DecodeError::UnexpectedEnd)
        } else {
            Ok((bytes.subrange(1, 1 + bytes[0]), 1 + bytes[0]))
        }
    }

    proof fn roundtrip(v: Seq<u8>, rest: Seq<u8>) {
        assert((Self::encoding(v) + rest).subrange(1, 1 + v.len() as int) =~= v);
    }

    fn write_le(&self, out: &mut Vec<u8>) {
        out.push((self.name.len() % 0x100) as u8);
        let mut name = crate::program::copy_bytes(&self.name);
        out.append(&mut name);
        assert(out@ =~= old(out)@ + Self::encoding(self.deep_view()));
    }

    fn read_le(bytes: &[u8], at: usize) -> (r: Result<(Identifier, usize), DecodeError>) {
        if bytes.len() - at < 1 {
            return Err(DecodeError::UnexpectedEnd);
        }
        let size = bytes[at] as usize;
        if bytes.len() - at - 1 < size {
            return Err(DecodeError::UnexpectedEnd);
        }
        let len = bytes.len();
        let mut name: Vec<u8> = Vec::new();
        let mut i: usize = 0;
        while i < size
            invariant
                i <= size,
                at + 1 + size <= len == bytes@.len(),
                name@ == bytes@.subrange(at + 1, at + 1 + i),
            decreases size - i,
        {
            name.push(bytes[at + 1 + i]);
            assert(name@ =~= bytes@.subrange(at + 1, at + 1 + i + 1));
            i += 1;
        }
        assert(name@ =~= bytes@.skip(at as int).subrange(1, 1 + size));
        Ok((Identifier { name }, at + 1 + size))
    }
}

impl LeBytes for ProgramID {
    /// The name, then the network.
    open spec fn encoding(v: ProgramIDView) -> Seq<u8> {
        Identifier::encoding(v.name) + Identifier::encoding(v.network)
    }

    open spec fn encodable(v: ProgramIDView) -> bool {
        Identifier::encodable(v.name) && Identifier::encodable(v.network)
    }

    open spec fn decoding(bytes: Seq<u8>) -> Result<(ProgramIDView, int), DecodeError> {
        match Identifier::decoding(bytes) {
            Err(e) => Err(e),
            Ok((name, n)) => match Identifier::decoding(bytes.skip(n)) {
                Err(e) => Err(e),
                Ok((network, m)) => Ok((ProgramIDView { name, network }, n + m)),
            },
        }
    }

    proof fn roundtrip(v: ProgramIDView, rest: Seq<u8>) {
        let tail = Identifier::encoding(v.network) + rest;
        Identifier::roundtrip(v.name, tail);
        Identifier::roundtrip(v.network, rest);
        assert(Self::encoding(v) + rest =~= Identifier::encoding(v.name) + tail);
        assert((Identifier::encoding(v.name) + tail).skip(Identifier::encoding(v.name).len() as int)
            =~= tail);
    }

    fn write_le(&self, out: &mut Vec<u8>) {
        self.name.write_le(out);
        self.network.write_le(out);
        assert(out@ =~= old(out)@ + Self::encoding(self.deep_view()));
    }

    fn read_le(bytes: &[u8], at: usize) -> (r: Result<(ProgramID, usize), DecodeError>) {
        let (name, next) = match Identifier::read_le(bytes, at) {
            Ok(read) => read,
            Err(e) => return Err(e),
        };
        assert(bytes@.skip(at as int).skip(next - at) =~= bytes@.skip(next as int));
        let (network, end) = match Identifier::read_le(bytes, next) {
            Ok(read) => read,
            Err(e) => return Err(e),
        };
        Ok((ProgramID { name, network }, end))
    }
}

impl LeBytes for Plaintext {
    /// The number of field elements in 16 bits, then the field elements.
    open spec fn encoding(v: Seq<Field>) -> Seq<u8> {
        counted_encoding::<Field>(v)
    }

    open spec fn encodable(v: Seq<Field>) -> bool {
        v.len() <= u16::MAX
    }

    open spec fn decoding(bytes: Seq<u8>) -> Result<(Seq<Field>, int), DecodeError> {
        counted_decoding::<Field>(bytes)
    }

    proof fn roundtrip(v: Seq<Field>, rest: Seq<u8>) {
        lemma_counted_roundtrip::<Field>(v, rest);
    }

    fn write_le(&self, out: &mut Vec<u8>) {
        proof {
            lemma_fields_deep_view(self.fields);
        }
        write_counted::<Field>(&self.fields, out);
    }

    fn read_le(bytes: &[u8], at: usize) -> (r: Result<(Plaintext, usize), DecodeError>) {
        match read_counted::<Field>(bytes, at) {
            Ok((fields, end)) => {
                proof {
                    lemma_fields_deep_view(fields);
                }
                Ok((Plaintext { fields }, end))
            },
            Err(e) => Err(e),
        }
    }
}

impl LeBytes for Ciphertext {
    /// The number of field elements in 16 bits, then the field elements.
    open spec fn encoding(v: Seq<Field>) -> Seq<u8> {
        counted_encoding::<Field>(v)
    }

    open spec fn encodable(v: Seq<Field>) -> bool {
        v.len() <= u16::MAX
    }

    open spec fn decoding(bytes: Seq<u8>) -> Result<(Seq<Field>, int), DecodeError> {
        counted_decoding::<Field>(bytes)
    }

    proof fn roundtrip(v: Seq<Field>, rest: Seq<u8>) {
        lemma_counted_roundtrip::<Field>(v, rest);
    }

    fn write_le(&self, out: &mut Vec<u8>) {
        proof {
            lemma_fields_deep_view(self.fields);
        }
        write_counted::<Field>(&self.fields, out);
    }

    fn read_le(bytes: &[u8], at: usize) -> (r: Result<(Ciphertext, usize), DecodeError>) {
        match read_counted::<Field>(bytes, at) {
            Ok((fields, end)) => {
                proof {
                    lemma_fields_deep_view(fields);
                }
                Ok((Ciphertext { fields }, end))
            },
            Err(e) => Err(e),
        }
    }
}

impl LeBytes for Record {
    /// The owner, the gates in 64 bits, the data with its count, the nonce.
    open spec fn encoding(v: RecordView) -> Seq<u8> {
        Field::encoding(v.owner.point.x) + u64::encoding(v.gates) + counted_encoding::<Field>(
            v.data,
        ) + Field::encoding(v.nonce.x)
    }

    open spec fn encodable(v: RecordView) -> bool {
        v.data.len() <= u16::MAX
    }

    open spec fn decoding(bytes: Seq<u8>) -> Result<(RecordView, int), DecodeError> {
        match Field::decoding(bytes) {
            Err(e) => Err(e),
            Ok((owner, _)) => match u64::decoding(bytes.skip(32)) {
                Err(e) => Err(e),
                Ok((gates, _)) => match counted_decoding::<Field>(bytes.skip(40)) {
                    Err(e) => Err(e),
                    Ok((data, n)) => match Field::decoding(bytes.skip(40 + n)) {
                        Err(e) => Err(e),
                        Ok((nonce, _)) => Ok(
                            (
                                RecordView {
                                    owner: Address { point: Group { x: owner } },
                                    gates,
                                    data,
                                    nonce: Group { x: nonce },
                                },
                                72 + n,
                            ),
                        ),
                    },
                },
            },
        }
    }

    proof fn roundtrip(v: RecordView, rest: Seq<u8>) {
        let owner = Field::encoding(v.owner.point.x);
        let gates = u64::encoding(v.gates);
        let data = counted_encoding::<Field>(v.data);
        let nonce = Field::encoding(v.nonce.x);
        let full = Self::encoding(v) + rest;
        Field::roundtrip(v.owner.point.x, gates + data + nonce + rest);
        u64::roundtrip(v.gates, data + nonce + rest);
        lemma_counted_roundtrip::<Field>(v.data, nonce + rest);
        Field::roundtrip(v.nonce.x, rest);
        assert(full =~= owner + (gates + data + nonce + rest));
        assert(full.skip(32) =~= gates + (data + nonce + rest));
        assert(full.skip(40) =~= data + (nonce + rest));
        assert(full.skip(40 + data.len() as int) =~= nonce + rest);
    }

    fn write_le(&self, out: &mut Vec<u8>) {
        proof {
            lemma_fields_deep_view(self.data);
        }
        Field::write_le(&self.owner.point.x, out);
        self.gates.write_le(out);
        write_counted::<Field>(&self.data, out);
        Field::write_le(&self.nonce.x, out);
        assert(out@ =~= old(out)@ + Self::encoding(self.deep_view()));
    }

    fn read_le(bytes: &[u8], at: usize) -> (r: Result<(Record, usize), DecodeError>) {
        let ghost s = bytes@.skip(at as int);
        let (owner, a1) = match <Field as LeBytes>::read_le(bytes, at) {
            Ok(read) => read,
            Err(e) => return Err(e),
        };
        assert(s.skip(32) =~= bytes@.skip(a1 as int));
        let (gates, a2) = match u64::read_le(bytes, a1) {
            Ok(read) => read,
            Err(e) => return Err(e),
        };
        assert(s.skip(40) =~= bytes@.skip(a2 as int));
        let (data, a3) = match read_counted::<Field>(bytes, a2) {
            Ok(read) => read,
            Err(e) => return Err(e),
        };
        assert(s.skip(40 + (a3 - a2)) =~= bytes@.skip(a3 as int));
        let (nonce, end) = match <Field as LeBytes>::read_le(bytes, a3) {
            Ok(read) => read,
            Err(e) => return Err(e),
        };
        proof {
            lemma_fields_deep_view(data);
        }
        Ok(
            (
                Record {
                    owner: Address { point: Group { x: owner } },
                    gates,
                    data,
                    nonce: Group { x: nonce },
                },
                end,
            ),
        )
    }
}

impl LeBytes for RecordCiphertext {
    /// The owner, the gates, the data with its count, the nonce.
    open spec fn encoding(v: RecordCiphertextView) -> Seq<u8> {
        Field::encoding(v.owner) + Field::encoding(v.gates) + counted_encoding::<Field>(v.data)
            + Field::encoding(v.nonce.x)
    }

    open spec fn encodable(v: RecordCiphertextView) -> bool {
        v.data.len() <= u16::MAX
    }

    open spec fn decoding(bytes: Seq<u8>) -> Result<(RecordCiphertextView, int), DecodeError> {
        match Field::decoding(bytes) {
            Err(e) => Err(e),
            Ok((owner, _)) => match Field::decoding(bytes.skip(32)) {
                Err(e) => Err(e),
                Ok((gates, _)) => match counted_decoding::<Field>(bytes.skip(64)) {
                    Err(e) => Err(e),
                    Ok((data, n)) => match Field::decoding(bytes.skip(64 + n)) {
                        Err(e) => Err(e),
                        Ok((nonce, _)) => Ok(
                            (
                                RecordCiphertextView {
                                    owner,
                                    gates,
                                    data,
                                    nonce: Group { x: nonce },
                                },
                                96 + n,
                            ),
                        ),
                    },
                },
            },
        }
    }

    proof fn roundtrip(v: RecordCiphertextView, rest: Seq<u8>) {
        let owner = Field::encoding(v.owner);
        let gates = Field::encoding(v.gates);
        let data = counted_encoding::<Field>(v.data);
        let nonce = Field::encoding(v.nonce.x);
        let full = Self::encoding(v) + rest;
        Field::roundtrip(v.owner, gates + data + nonce + rest);
        Field::roundtrip(v.gates, data + nonce + rest);
        lemma_counted_roundtrip::<Field>(v.data, nonce + rest);
        Field::roundtrip(v.nonce.x, rest);
        assert(full =~= owner + (gates + data + nonce + rest));
        assert(full.skip(32) =~= gates + (data + nonce + rest));
        assert(full.skip(64) =~= data + (nonce + rest));
        assert(full.skip(64 + data.len() as int) =~= nonce + rest);
    }

    fn write_le(&self, out: &mut Vec<u8>) {
        proof {
            lemma_fields_deep_view(self.data);
        }
        Field::write_le(&self.owner, out);
        Field::write_le(&self.gates, out);
        write_counted::<Field>(&self.data, out);
        Field::write_le(&self.nonce.x, out);
        assert(out@ =~= old(out)@ + Self::encoding(self.deep_view()));
    }

    fn read_le(bytes: &[u8], at: usize) -> (r: Result<(RecordCiphertext, usize), DecodeError>) {
        let ghost s = bytes@.skip(at as int);
        let (owner, a1) = match <Field as LeBytes>::read_le(bytes, at) {
            Ok(read) => read,
            Err(e) => return Err(e),
        };
        assert(s.skip(32) =~= bytes@.skip(a1 as int));
        let (gates, a2) = match <Field as LeBytes>::read_le(bytes, a1) {
            Ok(read) => read,
            Err(e) => return Err(e),
        };
        assert(s.skip(64) =~= bytes@.skip(a2 as int));
        let (data, a3) = match read_counted::<Field>(bytes, a2) {
            Ok(read) => read,
            Err(e) => return Err(e),
        };
        assert(s.skip(64 + (a3 - a2)) =~= bytes@.skip(a3 as int));
        let (nonce, end) = match <Field as LeBytes>::read_le(bytes, a3) {
            Ok(read) => read,
            Err(e) => return Err(e),
        };
        proof {
            lemma_fields_deep_view(data);
        }
        Ok((RecordCiphertext { owner, gates, data, nonce: Group { x: nonce } }, end))
    }
}

impl LeBytes for Value {
    /// A tag, 0 for a plaintext and 1 for a record, then the plaintext or the record.
    open spec fn encoding(v: ValueView) -> Seq<u8> {
        match v {
            ValueView::Plaintext(plaintext) => seq![0u8] + Plaintext::encoding(plaintext),
            ValueView::Record(record) => seq![1u8] + Record::encoding(record),
        }
    }

    open spec fn encodable(v: ValueView) -> bool {
        match v {
            ValueView::Plaintext(plaintext) => Plaintext::encodable(plaintext),
            ValueView::Record(record) => Record::encodable(record),
        }
    }

    open spec fn decoding(bytes: Seq<u8>) -> Result<(ValueView, int), DecodeError> {
        if bytes.len() < 1 {
            Err(DecodeError::UnexpectedEnd)
        } else if bytes[0] == 0 {
            match Plaintext::decoding(bytes.skip(1)) {
                Ok((plaintext, n)) => Ok((ValueView::Plaintext(plaintext), 1 + n)),
                Err(e) => Err(e),
            }
        } else if bytes[0] == 1 {
            match Record::decoding(bytes.skip(1)) {
                Ok((record, n)) => Ok((ValueView::Record(record), 1 + n)),
                Err(e) => Err(e),
            }
        } else {
            Err(DecodeError::InvalidValueVariant)
        }
    }

    proof fn roundtrip(v: ValueView, rest: Seq<u8>) {
        match v {
            ValueView::Plaintext(plaintext) => {
                Plaintext::roundtrip(plaintext, rest);
                assert((Self::encoding(v) + rest).skip(1) =~= Plaintext::encoding(plaintext)
                    + rest);
            },
            ValueView::Record(record) => {
                Record::roundtrip(record, rest);
                assert((Self::encoding(v) + rest).skip(1) =~= Record::encoding(record) + rest);
            },
        }
    }

    fn write_le(&self, out: &mut Vec<u8>) {
        match self {
            Value::Plaintext(plaintext) => {
                out.push(0u8);
                plaintext.write_le(out);
                assert(out@ =~= old(out)@ + Self::encoding(self.deep_view()));
            },
            Value::Record(record) => {
                out.push(1u8);
                record.write_le(out);
                assert(out@ =~= old(out)@ + Self::encoding(self.deep_view()));
            },
        }
    }

    fn read_le(bytes: &[u8], at: usize) -> (r: Result<(Value, usize), DecodeError>) {
        if bytes.len() - at < 1 {
            return Err(DecodeError::UnexpectedEnd);
        }
        let variant = bytes[at];
        assert(bytes@.skip(at as int).skip(1) =~= bytes@.skip(at + 1));
        if variant == 0 {
            match Plaintext::read_le(bytes, at + 1) {
                Ok((plaintext, end)) => Ok((Value::Plaintext(plaintext), end)),
                Err(e) => Err(e),
            }
        } else if variant == 1 {
            match Record::read_le(bytes, at + 1) {
                Ok((record, end)) => Ok((Value::Record(record), end)),
                Err(e) => Err(e),
            }
        } else {
            Err(DecodeError::InvalidValueVariant)
        }
    }
}

} // verus!
