//! The byte encoding of a transition output.

use vstd::prelude::*;
use crate::bytes::{
    hashed_decoding, hashed_encoding, lemma_hashed_roundtrip, lemma_option_roundtrip,
    option_decoding, option_encodable, option_encoding, read_hashed, read_option, write_hashed,
    write_option, DecodeError, LeBytes,
};
use crate::field::Field;
use crate::program::{Ciphertext, Plaintext, RecordCiphertext};
use crate::transition::output::{Output, OutputView};

verus! {

impl LeBytes for Output {
    /// The variant in one byte, then the fields of the variant; an optional
    /// value is written as whether it is there, then the value.
    open spec fn encoding(v: OutputView) -> Seq<u8> {
        match v {
            OutputView::Constant(plaintext_hash, plaintext) => hashed_encoding::<Plaintext>(
                0u8,
                plaintext_hash,
                plaintext,
            ),
            OutputView::Public(plaintext_hash, plaintext) => hashed_encoding::<Plaintext>(
                1u8,
                plaintext_hash,
                plaintext,
            ),
            OutputView::Private(ciphertext_hash, ciphertext) => hashed_encoding::<Ciphertext>(
                2u8,
                ciphertext_hash,
                ciphertext,
            ),
            OutputView::Record(commitment, checksum, record_ciphertext) => seq![3u8]
                + Field::encoding(commitment) + Field::encoding(checksum) + option_encoding::<
                RecordCiphertext,
            >(record_ciphertext),
            OutputView::ExternalRecord(hash) => seq![4u8] + Field::encoding(hash),
        }
    }

    open spec fn encodable(v: OutputView) -> bool {
        match v {
            OutputView::Constant(_, plaintext) => option_encodable::<Plaintext>(plaintext),
            OutputView::Public(_, plaintext) => option_encodable::<Plaintext>(plaintext),
            OutputView::Private(_, ciphertext) => option_encodable::<Ciphertext>(ciphertext),
            OutputView::Record(_, _, record_ciphertext) => option_encodable::<RecordCiphertext>(
                record_ciphertext,
            ),
            OutputView::ExternalRecord(_) => true,
        }
    }

    /// A variant of 5 or more is an error.
    open spec fn decoding(bytes: Seq<u8>) -> Result<(OutputView, int), DecodeError> {
        if bytes.len() < 1 {
            Err(DecodeError::UnexpectedEnd)
        } else if bytes[0] == 0 {
            match hashed_decoding::<Plaintext>(bytes) {
                Err(e) => Err(e),
                Ok(((hash, plaintext), n)) => Ok((OutputView::Constant(hash, plaintext), n)),
            }
        } else if bytes[0] == 1 {
            match hashed_decoding::<Plaintext>(bytes) {
                Err(e) => Err(e),
                Ok(((hash, plaintext), n)) => Ok((OutputView::Public(hash, plaintext), n)),
            }
        } else if bytes[0] == 2 {
            match hashed_decoding::<Ciphertext>(bytes) {
                Err(e) => Err(e),
                Ok(((hash, ciphertext), n)) => Ok((OutputView::Private(hash, ciphertext), n)),
            }
        } else if bytes[0] == 3 {
            match Field::decoding(bytes.skip(1)) {
                Err(e) => Err(e),
                Ok((commitment, _)) => match Field::decoding(bytes.skip(33)) {
                    Err(e) => Err(e),
                    Ok((checksum, _)) => match option_decoding::<RecordCiphertext>(
                        bytes.skip(65),
                    ) {
                        Err(e) => Err(e),
                        Ok((record_ciphertext, n)) => Ok(
                            (OutputView::Record(commitment, checksum, record_ciphertext), 65 + n),
                        ),
                    },
                },
            }
        } else if bytes[0] == 4 {
            match Field::decoding(bytes.skip(1)) {
                Err(e) => Err(e),
                Ok((hash, _)) => Ok((OutputView::ExternalRecord(hash), 33)),
            }
        } else {
            Err(DecodeError::InvalidOutputVariant)
        }
    }

    proof fn roundtrip(v: OutputView, rest: Seq<u8>) {
        let full = Self::encoding(v) + rest;
        match v {
            OutputView::Constant(hash, plaintext) => {
                lemma_hashed_roundtrip::<Plaintext>(0u8, hash, plaintext, rest);
            },
            OutputView::Public(hash, plaintext) => {
                lemma_hashed_roundtrip::<Plaintext>(1u8, hash, plaintext, rest);
            },
            OutputView::Private(hash, ciphertext) => {
                lemma_hashed_roundtrip::<Ciphertext>(2u8, hash, ciphertext, rest);
            },
            OutputView::Record(commitment, checksum, record_ciphertext) => {
                let tail = option_encoding::<RecordCiphertext>(record_ciphertext) + rest;
                Field::roundtrip(commitment, Field::encoding(checksum) + tail);
                Field::roundtrip(checksum, tail);
                lemma_option_roundtrip::<RecordCiphertext>(record_ciphertext, rest);
                assert(full.skip(1) =~= Field::encoding(commitment) + (Field::encoding(checksum)
                    + tail));
                assert(full.skip(33) =~= Field::encoding(checksum) + tail);
                assert(full.skip(65) =~= tail);
            },
            OutputView::ExternalRecord(hash) => {
                Field::roundtrip(hash, rest);
                assert(full.skip(1) =~= Field::encoding(hash) + rest);
            },
        }
    }

    /// Writes the output to a buffer.
    fn write_le(&self, out: &mut Vec<u8>) {
        match self {
            Self::Constant(plaintext_hash, plaintext) => {
                write_hashed::<Plaintext>(0u8, plaintext_hash, plaintext, out);
            },
            Self::Public(plaintext_hash, plaintext) => {
                write_hashed::<Plaintext>(1u8, plaintext_hash, plaintext, out);
            },
            Self::Private(ciphertext_hash, ciphertext) => {
                write_hashed::<Ciphertext>(2u8, ciphertext_hash, ciphertext, out);
            },
            Self::Record(commitment, checksum, record_ciphertext) => {
                out.push(3u8);
                Field::write_le(commitment, out);
                Field::write_le(checksum, out);
                write_option::<RecordCiphertext>(record_ciphertext, out);
                assert(out@ =~= old(out)@ + Self::encoding(self.deep_view()));
            },
            Self::ExternalRecord(hash) => {
                out.push(4u8);
                Field::write_le(hash, out);
                assert(out@ =~= old(out)@ + Self::encoding(self.deep_view()));
            },
        }
    }

    /// Reads the output from a buffer.
    fn read_le(bytes: &[u8], at: usize) -> (r: Result<(Output, usize), DecodeError>) {
        if bytes.len() - at < 1 {
            return Err(DecodeError::UnexpectedEnd);
        }
        let ghost s = bytes@.skip(at as int);
        let index = bytes[at];
        assert(s.skip(1) =~= bytes@.skip(at + 1));
        match index {
            0 => match read_hashed::<Plaintext>(bytes, at) {
                Ok(((plaintext_hash, plaintext), end)) => Ok(
                    (Self::Constant(plaintext_hash, plaintext), end),
                ),
                Err(e) => Err(e),
            },
            1 => match read_hashed::<Plaintext>(bytes, at) {
                Ok(((plaintext_hash, plaintext), end)) => Ok(
                    (Self::Public(plaintext_hash, plaintext), end),
                ),
                Err(e) => Err(e),
            },
            2 => match read_hashed::<Ciphertext>(bytes, at) {
                Ok(((ciphertext_hash, ciphertext), end)) => Ok(
                    (Self::Private(ciphertext_hash, ciphertext), end),
                ),
                Err(e) => Err(e),
            },
            3 => {
                let (commitment, a1) = match <Field as LeBytes>::read_le(bytes, at + 1) {
                    Ok(read) => read,
                    Err(e) => return Err(e),
                };
                assert(s.skip(33) =~= bytes@.skip(a1 as int));
                let (checksum, a2) = match <Field as LeBytes>::read_le(bytes, a1) {
                    Ok(read) => read,
                    Err(e) => return Err(e),
                };
                assert(s.skip(65) =~= bytes@.skip(a2 as int));
                let (record_ciphertext, end) = match read_option::<RecordCiphertext>(bytes, a2) {
                    Ok(read) => read,
                    Err(e) => return Err(e),
                };
                Ok((Self::Record(commitment, checksum, record_ciphertext), end))
            },
            4 => {
                let (hash, end) = match <Field as LeBytes>::read_le(bytes, at + 1) {
                    Ok(read) => read,
                    Err(e) => return Err(e),
                };
                Ok((Self::ExternalRecord(hash), end))
            },
            _ => Err(DecodeError::InvalidOutputVariant),
        }
    }
}

} // verus!
