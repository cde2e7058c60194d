//! The byte encoding of a transition input.

use vstd::prelude::*;
use crate::bytes::{
    hashed_decoding, hashed_encoding, lemma_hashed_roundtrip, option_encodable, read_hashed,
    write_hashed, DecodeError, LeBytes,
};
use crate::field::Field;
use crate::program::{Ciphertext, Plaintext};
use crate::transition::input::{Input, InputView};

verus! {

impl LeBytes for Input {
    /// The variant in one byte, then the fields of the variant; an optional
    /// value is written as whether it is there, then the value.
    open spec fn encoding(v: InputView) -> Seq<u8> {
        match v {
            InputView::Constant(plaintext_hash, plaintext) => hashed_encoding::<Plaintext>(
                0u8,
                plaintext_hash,
                plaintext,
            ),
            InputView::Public(plaintext_hash, plaintext) => hashed_encoding::<Plaintext>(
                1u8,
                plaintext_hash,
                plaintext,
            ),
            InputView::Private(ciphertext_hash, ciphertext) => hashed_encoding::<Ciphertext>(
                2u8,
                ciphertext_hash,
                ciphertext,
            ),
            InputView::Record(serial_number, tag) => seq![3u8] + Field::encoding(serial_number)
                + Field::encoding(tag),
            InputView::ExternalRecord(hash) => seq![4u8] + Field::encoding(hash),
        }
    }

    open spec fn encodable(v: InputView) -> bool {
        match v {
            InputView::Constant(_, plaintext) => option_encodable::<Plaintext>(plaintext),
            InputView::Public(_, plaintext) => option_encodable::<Plaintext>(plaintext),
            InputView::Private(_, ciphertext) => option_encodable::<Ciphertext>(ciphertext),
            InputView::Record(..) => true,
            InputView::ExternalRecord(_) => true,
        }
    }

    /// A variant of 5 or more is an error.
    open spec fn decoding(bytes: Seq<u8>) -> Result<(InputView, int), DecodeError> {
        if bytes.len() < 1 {
            Err(DecodeError::UnexpectedEnd)
        } else if bytes[0] == 0 {
            match hashed_decoding::<Plaintext>(bytes) {
                Err(e) => Err(e),
                Ok(((hash, plaintext), n)) => Ok((InputView::Constant(hash, plaintext), n)),
            }
        } else if bytes[0] == 1 {
            match hashed_decoding::<Plaintext>(bytes) {
                Err(e) => Err(e),
                Ok(((hash, plaintext), n)) => Ok((InputView::Public(hash, plaintext), n)),
            }
        } else if bytes[0] == 2 {
            match hashed_decoding::<Ciphertext>(bytes) {
                Err(e) => Err(e),
                Ok(((hash, ciphertext), n)) => Ok((InputView::Private(hash, ciphertext), n)),
            }
        } else if bytes[0] == 3 {
            match Field::decoding(bytes.skip(1)) {
                Err(e) => Err(e),
                Ok((serial_number, _)) => match Field::decoding(bytes.skip(33)) {
                    Err(e) => Err(e),
                    Ok((tag, _)) => Ok((InputView::Record(serial_number, tag), 65)),
                },
            }
        } else if bytes[0] == 4 {
            match Field::decoding(bytes.skip(1)) {
                Err(e) => Err(e),
                Ok((hash, _)) => Ok((InputView::ExternalRecord(hash), 33)),
            }
        } else {
            Err(DecodeError::InvalidInputVariant)
        }
    }

    proof fn roundtrip(v: InputView, rest: Seq<u8>) {
        let full = Self::encoding(v) + rest;
        match v {
            InputView::Constant(hash, plaintext) => {
                lemma_hashed_roundtrip::<Plaintext>(0u8, hash, plaintext, rest);
            },
            InputView::Public(hash, plaintext) => {
                lemma_hashed_roundtrip::<Plaintext>(1u8, hash, plaintext, rest);
            },
            InputView::Private(hash, ciphertext) => {
                lemma_hashed_roundtrip::<Ciphertext>(2u8, hash, ciphertext, rest);
            },
            InputView::Record(serial_number, tag) => {
                Field::roundtrip(serial_number, Field::encoding(tag) + rest);
                Field::roundtrip(tag, rest);
                assert(full.skip(1) =~= Field::encoding(serial_number) + (Field::encoding(tag)
                    + rest));
                assert(full.skip(33) =~= Field::encoding(tag) + rest);
            },
            InputView::ExternalRecord(hash) => {
                Field::roundtrip(hash, rest);
                assert(full.skip(1) =~= Field::encoding(hash) + rest);
            },
        }
    }

    /// Writes the input to a buffer.
    fn write_le(&self, out: &mut Vec<u8>) {
        match self {
            Self::Constant(plaintext_hash, plaintext) => {
                write_hashed::<Plaintext>(0u8, plaintext_hash, plaintext, out);
            },
            Self::Public(plaintext_hash, plaintext) => {
                write_hashed::<Plaintext>(1u8, plaintext_hash, plaintext, out);
            },
            Self::Private(ciphertext_hash, ciphertext) => {
                write_hashed::<Ciphertext>(2u8, ciphertext_hash, ciphertext, out);
            },
            Self::Record(serial_number, tag) => {
                out.push(3u8);
                Field::write_le(serial_number, out);
                Field::write_le(tag, out);
                assert(out@ =~= old(out)@ + Self::encoding(self.deep_view()));
            },
            Self::ExternalRecord(hash) => {
                out.push(4u8);
                Field::write_le(hash, out);
                assert(out@ =~= old(out)@ + Self::encoding(self.deep_view()));
            },
        }
    }

    /// Reads the input from a buffer.
    fn read_le(bytes: &[u8], at: usize) -> (r: Result<(Input, usize), DecodeError>) {
        if bytes.len() - at < 1 {
            return Err(DecodeError::UnexpectedEnd);
        }
        let ghost s = bytes@.skip(at as int);
        let index = bytes[at];
        assert(s.skip(1) =~= bytes@.skip(at + 1));
        match index {
            0 => match read_hashed::<Plaintext>(bytes, at) {
                Ok(((plaintext_hash, plaintext), end)) => Ok(
                    (Self::Constant(plaintext_hash, plaintext), end),
                ),
                Err(e) => Err(e),
            },
            1 => match read_hashed::<Plaintext>(bytes, at) {
                Ok(((plaintext_hash, plaintext), end)) => Ok(
                    (Self::Public(plaintext_hash, plaintext), end),
                ),
                Err(e) => Err(e),
            },
            2 => match read_hashed::<Ciphertext>(bytes, at) {
                Ok(((ciphertext_hash, ciphertext), end)) => Ok(
                    (Self::Private(ciphertext_hash, ciphertext), end),
                ),
                Err(e) => Err(e),
            },
            3 => {
                let (serial_number, a1) = match <Field as LeBytes>::read_le(bytes, at + 1) {
                    Ok(read) => read,
                    Err(e) => return Err(e),
                };
                assert(s.skip(33) =~= bytes@.skip(a1 as int));
                let (tag, end) = match <Field as LeBytes>::read_le(bytes, a1) {
                    Ok(read) => read,
                    Err(e) => return Err(e),
                };
                Ok((Self::Record(serial_number, tag), end))
            },
            4 => {
                let (hash, end) = match <Field as LeBytes>::read_le(bytes, at + 1) {
                    Ok(read) => read,
                    Err(e) => return Err(e),
                };
                Ok((Self::ExternalRecord(hash), end))
            },
            _ => Err(DecodeError::InvalidInputVariant),
        }
    }
}

} // verus!
