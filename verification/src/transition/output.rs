//! Transition outputs.

use vstd::prelude::*;
use crate::field::{Field, Group};
use crate::network::Network;
use crate::program::{Ciphertext, Plaintext, RecordCiphertext, RecordCiphertextView};
use crate::record::spec_record_checksum;
use crate::request::{spec_value_hash, value_hash};

verus! {

/// The ghost value of a transition output.
pub enum OutputView {
    Constant(Field, Option<Seq<Field>>),
    Public(Field, Option<Seq<Field>>),
    Private(Field, Option<Seq<Field>>),
    Record(Field, Field, Option<RecordCiphertextView>),
    ExternalRecord(Field),
}

/// The transition output.
#[derive(Clone, PartialEq, Eq, Debug)]
pub enum Output {
    /// The plaintext hash and (optional) plaintext.
    Constant(Field, Option<Plaintext>),
    /// The plaintext hash and (optional) plaintext.
    Public(Field, Option<Plaintext>),
    /// The ciphertext hash and (optional) ciphertext.
    Private(Field, Option<Ciphertext>),
    /// The commitment, checksum, and (optional) record ciphertext.
    Record(Field, Field, Option<RecordCiphertext>),
    /// The hash of the external record.
    ExternalRecord(Field),
}

impl DeepView for Output {
    type V = OutputView;

    open spec fn deep_view(&self) -> OutputView {
        match self {
            Output::Constant(hash, plaintext) => OutputView::Constant(*hash, plaintext.deep_view()),
            Output::Public(hash, plaintext) => OutputView::Public(*hash, plaintext.deep_view()),
            Output::Private(hash, ciphertext) => OutputView::Private(
                *hash,
                ciphertext.deep_view(),
            ),
            Output::Record(commitment, checksum, record) => OutputView::Record(
                *commitment,
                *checksum,
                record.deep_view(),
            ),
            Output::ExternalRecord(hash) => OutputView::ExternalRecord(*hash),
        }
    }
}

impl OutputView {
    /// The number that stands for the kind of the output.
    pub open spec fn variant(self) -> u8 {
        match self {
            OutputView::Constant(..) => 0,
            OutputView::Public(..) => 1,
            OutputView::Private(..) => 2,
            OutputView::Record(..) => 3,
            OutputView::ExternalRecord(..) => 4,
        }
    }

    /// The ID of the output.
    pub open spec fn id(self) -> Field {
        match self {
            OutputView::Constant(id, _) => id,
            OutputView::Public(id, _) => id,
            OutputView::Private(id, _) => id,
            OutputView::Record(id, _, _) => id,
            OutputView::ExternalRecord(id) => id,
        }
    }

    /// Whether the output is valid for a function ID, a transition commitment
    /// and an index: the hash of a constant or public output is
    /// `Hash(function ID || value || tcm || index)`, the hash of a private
    /// output is the hash of its ciphertext, and the checksum of a record
    /// output is the hash of its encrypted record. An output without its
    /// value is valid.
    pub open spec fn verifies<N: Network>(self, function_id: Field, tcm: Field, index: int) -> bool {
        match self {
            OutputView::Constant(hash, Some(fields)) => index <= u16::MAX && spec_value_hash::<N>(
                function_id,
                fields,
                tcm,
                index as u16,
            ) == Some(hash),
            OutputView::Public(hash, Some(fields)) => index <= u16::MAX && spec_value_hash::<N>(
                function_id,
                fields,
                tcm,
                index as u16,
            ) == Some(hash),
            OutputView::Private(hash, Some(fields)) => N::spec_hash_psd8(fields) == Some(hash),
            OutputView::Record(_, checksum, Some(record)) => spec_record_checksum::<N>(record)
                == Some(checksum),
            _ => true,
        }
    }
}

impl Output {
    /// Returns the variant of the output.
    pub fn variant(&self) -> (r: u8)
        ensures
            r == self.deep_view().variant(),
    {
        match self {
            Output::Constant(..) => 0,
            Output::Public(..) => 1,
            Output::Private(..) => 2,
            Output::Record(..) => 3,
            Output::ExternalRecord(..) => 4,
        }
    }

    /// Returns the ID of the output.
    pub fn id(&self) -> (r: Field)
        ensures
            r == self.deep_view().id(),
    {
        match self {
            Output::Constant(id, _) => *id,
            Output::Public(id, _) => *id,
            Output::Private(id, _) => *id,
            Output::Record(id, _, _) => *id,
            Output::ExternalRecord(id) => *id,
        }
    }

    /// Returns the commitment, if the output is a record.
    pub fn commitment(&self) -> (r: Option<Field>)
        ensures
            r == (match self.deep_view() {
                OutputView::Record(commitment, _, _) => Some(commitment),
                _ => None,
            }),
    {
        match self {
            Output::Record(commitment, _, _) => Some(*commitment),
            _ => None,
        }
    }

    /// Returns the nonce, if the output is a record that holds its ciphertext.
    pub fn nonce(&self) -> (r: Option<Group>)
        ensures
            r == (match self.deep_view() {
                OutputView::Record(_, _, Some(record)) => Some(record.nonce),
                _ => None,
            }),
    {
        match self {
            Output::Record(_, _, Some(record)) => Some(record.nonce()),
            _ => None,
        }
    }

    /// Returns the commitment and the encrypted record, if the output is a
    /// record that holds its ciphertext.
    pub fn record(&self) -> (r: Option<(Field, &RecordCiphertext)>)
        ensures
            match self {
                Output::Record(commitment, _, Some(record)) => r == Some((*commitment, record)),
                _ => r is None,
            },
    {
        match self {
            Output::Record(commitment, _, Some(record)) => Some((*commitment, record)),
            _ => None,
        }
    }

    /// Returns `true` if the output is well-formed.
    /// If the optional value exists, this method checks that it hashes to the output ID.
    pub fn verify<N: Network>(&self, function_id: Field, tcm: &Field, index: usize) -> (r: bool)
        ensures
            r == self.deep_view().verifies::<N>(function_id, *tcm, index as int),
    {
        match self {
            Output::Constant(hash, Some(output)) => {
                if index > u16::MAX as usize {
                    return false;
                }
                match value_hash::<N>(function_id, output.to_fields(), *tcm, index as u16) {
                    Some(candidate_hash) => *hash == candidate_hash,
                    None => false,
                }
            },
            Output::Public(hash, Some(output)) => {
                if index > u16::MAX as usize {
                    return false;
                }
                match value_hash::<N>(function_id, output.to_fields(), *tcm, index as u16) {
                    Some(candidate_hash) => *hash == candidate_hash,
                    None => false,
                }
            },
            Output::Private(hash, Some(value)) => match N::hash_psd8(&value.fields) {
                Some(candidate_hash) => *hash == candidate_hash,
                None => false,
            },
            Output::Record(_, checksum, Some(record)) => match record.to_checksum::<N>() {
                Some(candidate_hash) => *checksum == candidate_hash,
                None => false,
            },
            _ => true,
        }
    }
}

} // verus!
