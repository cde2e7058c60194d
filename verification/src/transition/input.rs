//! Transition inputs.

use vstd::prelude::*;
use crate::field::Field;
use crate::network::Network;
use crate::program::{Ciphertext, Plaintext};
use crate::request::{spec_value_hash, value_hash};

verus! {

/// The ghost value of a transition input.
pub enum InputView {
    Constant(Field, Option<Seq<Field>>),
    Public(Field, Option<Seq<Field>>),
    Private(Field, Option<Seq<Field>>),
    Record(Field, Field),
    ExternalRecord(Field),
}

/// The transition input.
#[derive(Clone, PartialEq, Eq, Debug)]
pub enum Input {
    /// The plaintext hash and (optional) plaintext.
    Constant(Field, Option<Plaintext>),
    /// The plaintext hash and (optional) plaintext.
    Public(Field, Option<Plaintext>),
    /// The ciphertext hash and (optional) ciphertext.
    Private(Field, Option<Ciphertext>),
    /// The serial number, and the tag of the record.
    Record(Field, Field),
    /// The hash of the external record.
    ExternalRecord(Field),
}

impl DeepView for Input {
    type V = InputView;

    open spec fn deep_view(&self) -> InputView {
        match self {
            Input::Constant(hash, plaintext) => InputView::Constant(*hash, plaintext.deep_view()),
            Input::Public(hash, plaintext) => InputView::Public(*hash, plaintext.deep_view()),
            Input::Private(hash, ciphertext) => InputView::Private(
                *hash,
                ciphertext.deep_view(),
            ),
            Input::Record(serial_number, tag) => InputView::Record(*serial_number, *tag),
            Input::ExternalRecord(hash) => InputView::ExternalRecord(*hash),
        }
    }
}

impl InputView {
    /// The number that stands for the kind of the input.
    pub open spec fn variant(self) -> u8 {
        match self {
            InputView::Constant(..) => 0,
            InputView::Public(..) => 1,
            InputView::Private(..) => 2,
            InputView::Record(..) => 3,
            InputView::ExternalRecord(..) => 4,
        }
    }

    /// The ID of the input.
    pub open spec fn id(self) -> Field {
        match self {
            InputView::Constant(id, _) => id,
            InputView::Public(id, _) => id,
            InputView::Private(id, _) => id,
            InputView::Record(id, _) => id,
            InputView::ExternalRecord(id) => id,
        }
    }

    /// Whether the input is valid for a function ID, a transition commitment
    /// and an index: the hash of a constant or public input is
    /// `Hash(function ID || value || tcm || index)`, and the hash of a private
    /// input is the hash of its ciphertext. An input without its value is
    /// valid.
    pub open spec fn verifies<N: Network>(self, function_id: Field, tcm: Field, index: int) -> bool {
        match self {
            InputView::Constant(hash, Some(fields)) => index <= u16::MAX && spec_value_hash::<N>(
                function_id,
                fields,
                tcm,
                index as u16,
            ) == Some(hash),
            InputView::Public(hash, Some(fields)) => index <= u16::MAX && spec_value_hash::<N>(
                function_id,
                fields,
                tcm,
                index as u16,
            ) == Some(hash),
            InputView::Private(hash, Some(fields)) => N::spec_hash_psd8(fields) == Some(hash),
            _ => true,
        }
    }
}

impl Input {
    /// Returns the variant of the input.
    pub fn variant(&self) -> (r: u8)
        ensures
            r == self.deep_view().variant(),
    {
        match self {
            Input::Constant(..) => 0,
            Input::Public(..) => 1,
            Input::Private(..) => 2,
            Input::Record(..) => 3,
            Input::ExternalRecord(..) => 4,
        }
    }

    /// Returns the ID of the input.
    pub fn id(&self) -> (r: Field)
        ensures
            r == self.deep_view().id(),
    {
        match self {
            Input::Constant(id, _) => *id,
            Input::Public(id, _) => *id,
            Input::Private(id, _) => *id,
            Input::Record(id, _) => *id,
            Input::ExternalRecord(id) => *id,
        }
    }

    /// Returns the serial number, if the input is a record.
    pub fn serial_number(&self) -> (r: Option<Field>)
        ensures
            r == (match self.deep_view() {
                InputView::Record(serial_number, _) => Some(serial_number),
                _ => None,
            }),
    {
        match self {
            Input::Record(serial_number, _) => Some(*serial_number),
            _ => None,
        }
    }

    /// Returns the tag, if the input is a record.
    pub fn tag(&self) -> (r: Option<Field>)
        ensures
            r == (match self.deep_view() {
                InputView::Record(_, tag) => Some(tag),
                _ => None,
            }),
    {
        match self {
            Input::Record(_, tag) => Some(*tag),
            _ => None,
        }
    }

    /// Returns `true` if the input is well-formed.
    /// If the optional value exists, this method checks that it hashes to the input ID.
    pub fn verify<N: Network>(&self, function_id: Field, tcm: &Field, index: usize) -> (r: bool)
        ensures
            r == self.deep_view().verifies::<N>(function_id, *tcm, index as int),
    {
        match self {
            Input::Constant(hash, Some(input)) => {
                if index > u16::MAX as usize {
                    return false;
                }
                match value_hash::<N>(function_id, input.to_fields(), *tcm, index as u16) {
                    Some(candidate_hash) => *hash == candidate_hash,
                    None => false,
                }
            },
            Input::Public(hash, Some(input)) => {
                if index > u16::MAX as usize {
                    return false;
                }
                match value_hash::<N>(function_id, input.to_fields(), *tcm, index as u16) {
                    Some(candidate_hash) => *hash == candidate_hash,
                    None => false,
                }
            },
            Input::Private(hash, Some(value)) => match N::hash_psd8(&value.fields) {
                Some(candidate_hash) => *hash == candidate_hash,
                None => false,
            },
            _ => true,
        }
    }
}

} // verus!
