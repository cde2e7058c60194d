//! Little-endian byte encodings: what a value is written as, and what a
//! buffer is read as.

use vstd::prelude::*;
use vstd::bytes::{
    lemma_auto_spec_u16_to_from_le_bytes, lemma_auto_spec_u64_to_from_le_bytes,
    spec_u16_from_le_bytes, spec_u16_to_le_bytes, spec_u64_from_le_bytes, spec_u64_to_le_bytes,
    u16_from_le_bytes, u16_to_le_bytes, u64_from_le_bytes, u64_to_le_bytes,
};
use vstd::slice::slice_subrange;
use crate::field::{lemma_field_bytes_roundtrip, Field, Group};

verus! {

/// Why a buffer could not be read.
#[derive(Clone, Copy, PartialEq, Eq, Structural, Debug)]
pub enum DecodeError {
    /// The buffer ends before the value does.
    UnexpectedEnd,
    /// A byte that stands for a `bool` is neither 0 nor 1.
    InvalidBool,
    /// The tag of a value is neither 0 (plaintext) nor 1 (record).
    InvalidValueVariant,
    /// The tag of an input is above 4.
    InvalidInputVariant,
    /// The tag of an output is above 4.
    InvalidOutputVariant,
    /// The version of a transition is not 0.
    InvalidVersion,
    /// The finalize tag of a transition is neither 0 nor 1.
    InvalidFinalizeVariant,
    /// The inputs and outputs of a transition have no transition ID.
    InvalidTransition,
    /// The transition ID is not that of the inputs and outputs: possible data corruption.
    IncorrectTransitionID,
}

/// A type with a little-endian byte encoding.
pub trait LeBytes: DeepView + Sized {
    /// The bytes that a value is written as.
    spec fn encoding(v: Self::V) -> Seq<u8>;

    /// Whether a value is read back from its encoding: its counts fit their
    /// counters.
    spec fn encodable(v: Self::V) -> bool;

    /// The value that a buffer starts with and the number of bytes it takes,
    /// or the error that reading fails with.
    spec fn decoding(bytes: Seq<u8>) -> Result<(Self::V, int), DecodeError>;

    /// An encodable value is read back from its encoding, whatever follows it.
    proof fn roundtrip(v: Self::V, rest: Seq<u8>)
        requires
            Self::encodable(v),
        ensures
            Self::decoding(Self::encoding(v) + rest) == Ok::<(Self::V, int), DecodeError>(
                (v, Self::encoding(v).len() as int),
            ),
    ;

    /// Appends the encoding of the value.
    fn write_le(&self, out: &mut Vec<u8>)
        ensures
            final(out)@ == old(out)@ + Self::encoding(self.deep_view()),
    ;

    /// Reads a value from the buffer at `at`; gives the value and where it ends.
    fn read_le(bytes: &[u8], at: usize) -> (r: Result<(Self, usize), DecodeError>)
        requires
            at <= bytes@.len(),
        ensures
            match Self::decoding(bytes@.skip(at as int)) {
                Ok((v, n)) => r matches Ok((x, end)) && x.deep_view() == v && end == at + n && at
                    <= end <= bytes@.len(),
                Err(e) => r == Err::<(Self, usize), DecodeError>(e),
            },
    ;
}

impl LeBytes for u8 {
    open spec fn encoding(v: u8) -> Seq<u8> {
        seq![v]
    }

    open spec fn encodable(v: u8) -> bool {
        true
    }

    open spec fn decoding(bytes: Seq<u8>) -> Result<(u8, int), DecodeError> {
        if bytes.len() < 1 {
            Err(DecodeError::UnexpectedEnd)
        } else {
            Ok((bytes[0], 1))
        }
    }

    proof fn roundtrip(v: u8, rest: Seq<u8>) {
    }

    fn write_le(&self, out: &mut Vec<u8>) {
        out.push(*self);
        assert(out@ =~= old(out)@ + seq![*self]);
    }

    fn read_le(bytes: &[u8], at: usize) -> (r: Result<(u8, usize), DecodeError>) {
        if bytes.len() - at < 1 {
            return Err(DecodeError::UnexpectedEnd);
        }
        Ok((bytes[at], at + 1))
    }
}

impl LeBytes for bool {
    open spec fn encoding(v: bool) -> Seq<u8> {
        seq![if v {
            1u8
        } else {
            0u8
        }]
    }

    open spec fn encodable(v: bool) -> bool {
        true
    }

    open spec fn decoding(bytes: Seq<u8>) -> Result<(bool, int), DecodeError> {
        if bytes.len() < 1 {
            Err(DecodeError::UnexpectedEnd)
        } else if bytes[0] == 0 {
            Ok((false, 1))
        } else if bytes[0] == 1 {
            Ok((true, 1))
        } else {
            Err(DecodeError::InvalidBool)
        }
    }

    proof fn roundtrip(v: bool, rest: Seq<u8>) {
    }

    fn write_le(&self, out: &mut Vec<u8>) {
        out.push(if *self {
            1u8
        } else {
            0u8
        });
        assert(out@ =~= old(out)@ + <bool as LeBytes>::encoding(*self));
    }

    fn read_le(bytes: &[u8], at: usize) -> (r: Result<(bool, usize), DecodeError>) {
        if bytes.len() - at < 1 {
            return Err(DecodeError::UnexpectedEnd);
        }
        if bytes[at] == 0 {
            Ok((false, at + 1))
        } else if bytes[at] == 1 {
            Ok((true, at + 1))
        } else {
            Err(DecodeError::InvalidBool)
        }
    }
}

impl LeBytes for u16 {
    open spec fn encoding(v: u16) -> Seq<u8> {
        spec_u16_to_le_bytes(v)
    }

    open spec fn encodable(v: u16) -> bool {
        true
    }

    open spec fn decoding(bytes: Seq<u8>) -> Result<(u16, int), DecodeError> {
        if bytes.len() < 2 {
            Err(DecodeError::UnexpectedEnd)
        } else {
            Ok((spec_u16_from_le_bytes(bytes.subrange(0, 2)), 2))
        }
    }

    proof fn roundtrip(v: u16, rest: Seq<u8>) {
        lemma_auto_spec_u16_to_from_le_bytes();
        assert((spec_u16_to_le_bytes(v) + rest).subrange(0, 2) =~= spec_u16_to_le_bytes(v));
    }

    fn write_le(&self, out: &mut Vec<u8>) {
        let mut b = u16_to_le_bytes(*self);
        out.append(&mut b);
    }

    fn read_le(bytes: &[u8], at: usize) -> (r: Result<(u16, usize), DecodeError>) {
        if bytes.len() - at < 2 {
            return Err(DecodeError::UnexpectedEnd);
        }
        let x = u16_from_le_bytes(slice_subrange(bytes, at, at + 2));
        assert(bytes@.subrange(at as int, at + 2) =~= bytes@.skip(at as int).subrange(0, 2));
        Ok((x, at + 2))
    }
}

impl LeBytes for u64 {
    open spec fn encoding(v: u64) -> Seq<u8> {
        spec_u64_to_le_bytes(v)
    }

    open spec fn encodable(v: u64) -> bool {
        true
    }

    open spec fn decoding(bytes: Seq<u8>) -> Result<(u64, int), DecodeError> {
        if bytes.len() < 8 {
            Err(DecodeError::UnexpectedEnd)
        } else {
            Ok((spec_u64_from_le_bytes(bytes.subrange(0, 8)), 8))
        }
    }

    proof fn roundtrip(v: u64, rest: Seq<u8>) {
        lemma_auto_spec_u64_to_from_le_bytes();
        assert((spec_u64_to_le_bytes(v) + rest).subrange(0, 8) =~= spec_u64_to_le_bytes(v));
    }

    fn write_le(&self, out: &mut Vec<u8>) {
        let mut b = u64_to_le_bytes(*self);
        out.append(&mut b);
    }

    fn read_le(bytes: &[u8], at: usize) -> (r: Result<(u64, usize), DecodeError>) {
        if bytes.len() - at < 8 {
            return Err(DecodeError::UnexpectedEnd);
        }
        let x = u64_from_le_bytes(slice_subrange(bytes, at, at + 8));
        assert(bytes@.subrange(at as int, at + 8) =~= bytes@.skip(at as int).subrange(0, 8));
        Ok((x, at + 8))
    }
}

impl DeepView for Field {
    type V = Field;

    open spec fn deep_view(&self) -> Field {
        *self
    }
}

impl LeBytes for Field {
    open spec fn encoding(v: Field) -> Seq<u8> {
        v.bytes_le()
    }

    open spec fn encodable(v: Field) -> bool {
        true
    }

    open spec fn decoding(bytes: Seq<u8>) -> Result<(Field, int), DecodeError> {
        if bytes.len() < 32 {
            Err(DecodeError::UnexpectedEnd)
        } else {
            Ok((Field::from_bytes_le(bytes.subrange(0, 32)), 32))
        }
    }

    proof fn roundtrip(v: Field, rest: Seq<u8>) {
        lemma_field_bytes_roundtrip(v, rest);
    }

    fn write_le(&self, out: &mut Vec<u8>) {
        Field::write_le(self, out)
    }

    fn read_le(bytes: &[u8], at: usize) -> (r: Result<(Field, usize), DecodeError>) {
        if bytes.len() - at < 32 {
            return Err(DecodeError::UnexpectedEnd);
        }
        let x = Field::read_le(bytes, at);
        assert(bytes@.subrange(at as int, at + 32) =~= bytes@.skip(at as int).subrange(0, 32));
        Ok((x, at + 32))
    }
}

impl DeepView for Group {
    type V = Group;

    open spec fn deep_view(&self) -> Group {
        *self
    }
}

impl LeBytes for Group {
    open spec fn encoding(v: Group) -> Seq<u8> {
        v.x.bytes_le()
    }

    open spec fn encodable(v: Group) -> bool {
        true
    }

    open spec fn decoding(bytes: Seq<u8>) -> Result<(Group, int), DecodeError> {
        match <Field as LeBytes>::decoding(bytes) {
            Ok((x, n)) => Ok((Group { x }, n)),
            Err(e) => Err(e),
        }
    }

    proof fn roundtrip(v: Group, rest: Seq<u8>) {
        <Field as LeBytes>::roundtrip(v.x, rest);
    }

    fn write_le(&self, out: &mut Vec<u8>) {
        Field::write_le(&self.x, out)
    }

    fn read_le(bytes: &[u8], at: usize) -> (r: Result<(Group, usize), DecodeError>) {
        match <Field as LeBytes>::read_le(bytes, at) {
            Ok((x, end)) => Ok((Group { x }, end)),
            Err(e) => Err(e),
        }
    }
}

/// The encoding of an optional value: whether it is there, then the value.
pub open spec fn option_encoding<T: LeBytes>(v: Option<T::V>) -> Seq<u8> {
    match v {
        Some(x) => seq![1u8] + T::encoding(x),
        None => seq![0u8],
    }
}

/// Whether an optional value is read back from its encoding.
pub open spec fn option_encodable<T: LeBytes>(v: Option<T::V>) -> bool {
    match v {
        Some(x) => T::encodable(x),
        None => true,
    }
}

/// The optional value that a buffer starts with.
pub open spec fn option_decoding<T: LeBytes>(bytes: Seq<u8>) -> Result<
    (Option<T::V>, int),
    DecodeError,
> {
    match <bool as LeBytes>::decoding(bytes) {
        Err(e) => Err(e),
        Ok((false, _)) => Ok((None, 1)),
        Ok((true, _)) => match T::decoding(bytes.skip(1)) {
            Ok((x, n)) => Ok((Some(x), 1 + n)),
            Err(e) => Err(e),
        },
    }
}

/// An encodable optional value is read back from its encoding.
pub proof fn lemma_option_roundtrip<T: LeBytes>(v: Option<T::V>, rest: Seq<u8>)
    requires
        option_encodable::<T>(v),
    ensures
        option_decoding::<T>(option_encoding::<T>(v) + rest) == Ok::<
            (Option<T::V>, int),
            DecodeError,
        >((v, option_encoding::<T>(v).len() as int)),
{
    match v {
        Some(x) => {
            T::roundtrip(x, rest);
            assert((option_encoding::<T>(v) + rest).skip(1) =~= T::encoding(x) + rest);
        },
        None => {},
    }
}

/// Appends the encoding of an optional value.
pub fn write_option<T: LeBytes>(v: &Option<T>, out: &mut Vec<u8>)
    ensures
        final(out)@ == old(out)@ + option_encoding::<T>(
            match v {
                Some(x) => Some(x.deep_view()),
                None => None,
            },
        ),
{
    match v {
        Some(x) => {
            out.push(1u8);
            x.write_le(out);
            assert(out@ =~= old(out)@ + (seq![1u8] + T::encoding(x.deep_view())));
        },
        None => {
            out.push(0u8);
            assert(out@ =~= old(out)@ + seq![0u8]);
        },
    }
}

/// Reads an optional value from the buffer at `at`.
pub fn read_option<T: LeBytes>(bytes: &[u8], at: usize) -> (r: Result<
    (Option<T>, usize),
    DecodeError,
>)
    requires
        at <= bytes@.len(),
    ensures
        match option_decoding::<T>(bytes@.skip(at as int)) {
            Ok((v, n)) => r matches Ok((x, end)) && v == (match x {
                Some(y) => Some(y.deep_view()),
                None => None,
            }) && end == at + n && at <= end <= bytes@.len(),
            Err(e) => r == Err::<(Option<T>, usize), DecodeError>(e),
        },
{
    let (exists, next) = match <bool as LeBytes>::read_le(bytes, at) {
        Ok(read) => read,
        Err(e) => return Err(e),
    };
    if !exists {
        return Ok((None, next));
    }
    assert(bytes@.skip(at as int).skip(1) =~= bytes@.skip(next as int));
    match T::read_le(bytes, next) {
        Ok((x, end)) => Ok((Some(x), end)),
        Err(e) => Err(e),
    }
}

/// The encoding of a list of values: one after the other.
pub open spec fn seq_encoding<T: LeBytes>(vs: Seq<T::V>) -> Seq<u8>
    decreases vs.len(),
{
    if vs.len() == 0 {
        Seq::empty()
    } else {
        seq_encoding::<T>(vs.drop_last()) + T::encoding(vs.last())
    }
}

/// Whether each value of a list is read back from its encoding.
pub open spec fn seq_encodable<T: LeBytes>(vs: Seq<T::V>) -> bool {
    forall|i: int| 0 <= i < vs.len() ==> T::encodable(#[trigger] vs[i])
}

/// The `n` values that a buffer starts with.
pub open spec fn seq_decoding<T: LeBytes>(bytes: Seq<u8>, n: nat) -> Result<
    (Seq<T::V>, int),
    DecodeError,
>
    decreases n,
{
    if n == 0 {
        Ok((Seq::empty(), 0))
    } else {
        match seq_decoding::<T>(bytes, (n - 1) as nat) {
            Err(e) => Err(e),
            Ok((vs, m)) => match T::decoding(bytes.skip(m)) {
                Ok((v, k)) => Ok((vs.push(v), m + k)),
                Err(e) => Err(e),
            },
        }
    }
}

/// A value that cannot be read keeps the list from being read, however many
/// more values are asked for.
pub proof fn lemma_seq_decoding_error_stays<T: LeBytes>(bytes: Seq<u8>, n: nat, m: nat)
    requires
        n <= m,
        seq_decoding::<T>(bytes, n) is Err,
    ensures
        seq_decoding::<T>(bytes, m) == seq_decoding::<T>(bytes, n),
    decreases m,
{
    if n < m {
        lemma_seq_decoding_error_stays::<T>(bytes, n, (m - 1) as nat);
    }
}

/// A list of encodable values is read back from its encoding.
pub proof fn lemma_seq_roundtrip<T: LeBytes>(vs: Seq<T::V>, rest: Seq<u8>)
    requires
        seq_encodable::<T>(vs),
    ensures
        seq_decoding::<T>(seq_encoding::<T>(vs) + rest, vs.len()) == Ok::<
            (Seq<T::V>, int),
            DecodeError,
        >((vs, seq_encoding::<T>(vs).len() as int)),
    decreases vs.len(),
{
    if vs.len() == 0 {
        assert(vs =~= Seq::<T::V>::empty());
    } else {
        let head = vs.drop_last();
        let tail = T::encoding(vs.last()) + rest;
        let full = seq_encoding::<T>(vs) + rest;
        assert(seq_encodable::<T>(head)) by {
            assert forall|i: int| 0 <= i < head.len() implies T::encodable(#[trigger] head[i]) by {
                assert(head[i] == vs[i]);
            }
        }
        lemma_seq_roundtrip::<T>(head, tail);
        assert(full =~= seq_encoding::<T>(head) + tail);
        assert(seq_decoding::<T>(full, head.len()) == Ok::<(Seq<T::V>, int), DecodeError>(
            (head, seq_encoding::<T>(head).len() as int),
        ));
        T::roundtrip(vs.last(), rest);
        assert(full.skip(seq_encoding::<T>(head).len() as int) =~= tail);
        assert(head.push(vs.last()) =~= vs);
        assert(T::encodable(vs[vs.len() - 1]));
        assert(seq_encoding::<T>(vs).len() == seq_encoding::<T>(head).len() + T::encoding(
            vs.last(),
        ).len());
    }
}

/// Appends the encodings of the values of a list, one after the other.
pub fn write_vec<T: LeBytes>(vs: &Vec<T>, out: &mut Vec<u8>)
    ensures
        final(out)@ == old(out)@ + seq_encoding::<T>(vs.deep_view()),
{
    let mut i: usize = 0;
    assert(vs.deep_view().take(0) =~= Seq::<T::V>::empty());
    while i < vs.len()
        invariant
            i <= vs.len(),
            out@ == old(out)@ + seq_encoding::<T>(vs.deep_view().take(i as int)),
        decreases vs.len() - i,
    {
        vs[i].write_le(out);
        proof {
            let next = vs.deep_view().take(i + 1);
            assert(next.drop_last() =~= vs.deep_view().take(i as int));
            assert(next.last() == vs@[i as int].deep_view());
            assert(out@ =~= old(out)@ + seq_encoding::<T>(next));
        }
        i += 1;
    }
    assert(vs.deep_view().take(i as int) =~= vs.deep_view());
}

/// Reads `n` values from the buffer at `at`.
pub fn read_vec<T: LeBytes>(bytes: &[u8], at: usize, n: usize) -> (r: Result<
    (Vec<T>, usize),
    DecodeError,
>)
    requires
        at <= bytes@.len(),
    ensures
        match seq_decoding::<T>(bytes@.skip(at as int), n as nat) {
            Ok((vs, k)) => r matches Ok((xs, end)) && xs.deep_view() == vs && end == at + k && at
                <= end <= bytes@.len(),
            Err(e) => r == Err::<(Vec<T>, usize), DecodeError>(e),
        },
{
    let mut out: Vec<T> = Vec::new();
    let mut cursor: usize = at;
    let mut i: usize = 0;
    assert(out.deep_view() =~= Seq::<T::V>::empty());
    while i < n
        invariant
            i <= n,
            at <= cursor <= bytes@.len(),
            seq_decoding::<T>(bytes@.skip(at as int), i as nat) == Ok::<
                (Seq<T::V>, int),
                DecodeError,
            >((out.deep_view(), cursor - at)),
        decreases n - i,
    {
        assert(bytes@.skip(at as int).skip(cursor - at) =~= bytes@.skip(cursor as int));
        match T::read_le(bytes, cursor) {
            Ok((x, end)) => {
                let ghost before = out.deep_view();
                let ghost v = x.deep_view();
                out.push(x);
                assert(out.deep_view() =~= before.push(v));
                cursor = end;
            },
            Err(e) => {
                proof {
                    assert(seq_decoding::<T>(bytes@.skip(at as int), (i + 1) as nat) is Err);
                    lemma_seq_decoding_error_stays::<T>(
                        bytes@.skip(at as int),
                        (i + 1) as nat,
                        n as nat,
                    );
                }
                return Err(e);
            },
        }
        i += 1;
    }
    Ok((out, cursor))
}

/// The encoding of a list with its count: the count in 16 bits, then the values.
pub open spec fn counted_encoding<T: LeBytes>(vs: Seq<T::V>) -> Seq<u8> {
    spec_u16_to_le_bytes((vs.len() % 0x1_0000) as u16) + seq_encoding::<T>(vs)
}

/// Whether a list is read back from its encoding with its count.
pub open spec fn counted_encodable<T: LeBytes>(vs: Seq<T::V>) -> bool {
    vs.len() <= u16::MAX && seq_encodable::<T>(vs)
}

/// The list that a buffer starts with: a count in 16 bits, then as many values.
pub open spec fn counted_decoding<T: LeBytes>(bytes: Seq<u8>) -> Result<
    (Seq<T::V>, int),
    DecodeError,
> {
    match <u16 as LeBytes>::decoding(bytes) {
        Err(e) => Err(e),
        Ok((count, _)) => match seq_decoding::<T>(bytes.skip(2), count as nat) {
            Ok((vs, n)) => Ok((vs, 2 + n)),
            Err(e) => Err(e),
        },
    }
}

/// An encodable list is read back from its encoding with its count.
pub proof fn lemma_counted_roundtrip<T: LeBytes>(vs: Seq<T::V>, rest: Seq<u8>)
    requires
        counted_encodable::<T>(vs),
    ensures
        counted_decoding::<T>(counted_encoding::<T>(vs) + rest) == Ok::<
            (Seq<T::V>, int),
            DecodeError,
        >((vs, counted_encoding::<T>(vs).len() as int)),
{
    let count = (vs.len() % 0x1_0000) as u16;
    <u16 as LeBytes>::roundtrip(count, seq_encoding::<T>(vs) + rest);
    lemma_auto_spec_u16_to_from_le_bytes();
    assert(counted_encoding::<T>(vs) + rest =~= spec_u16_to_le_bytes(count) + (seq_encoding::<T>(
        vs,
    ) + rest));
    assert((counted_encoding::<T>(vs) + rest).skip(2) =~= seq_encoding::<T>(vs) + rest);
    lemma_seq_roundtrip::<T>(vs, rest);
}

/// Appends the encoding of a list with its count.
pub fn write_counted<T: LeBytes>(vs: &Vec<T>, out: &mut Vec<u8>)
    ensures
        final(out)@ == old(out)@ + counted_encoding::<T>(vs.deep_view()),
{
    let count: u16 = (vs.len() % 0x1_0000) as u16;
    count.write_le(out);
    write_vec(vs, out);
    assert(out@ =~= old(out)@ + counted_encoding::<T>(vs.deep_view()));
}

/// Reads a list with its count from the buffer at `at`.
pub fn read_counted<T: LeBytes>(bytes: &[u8], at: usize) -> (r: Result<
    (Vec<T>, usize),
    DecodeError,
>)
    requires
        at <= bytes@.len(),
    ensures
        match counted_decoding::<T>(bytes@.skip(at as int)) {
            Ok((vs, k)) => r matches Ok((xs, end)) && xs.deep_view() == vs && end == at + k && at
                <= end <= bytes@.len(),
            Err(e) => r == Err::<(Vec<T>, usize), DecodeError>(e),
        },
{
    let (count, next) = match <u16 as LeBytes>::read_le(bytes, at) {
        Ok(read) => read,
        Err(e) => return Err(e),
    };
    assert(bytes@.skip(at as int).skip(2) =~= bytes@.skip(next as int));
    read_vec::<T>(bytes, next, count as usize)
}

/// A list of field elements is its own ghost value.
pub proof fn lemma_fields_deep_view(fields: Vec<Field>)
    ensures
        fields.deep_view() == fields@,
{
    assert(fields.deep_view() =~= fields@);
}

/// The encoding of a tagged hash with an optional value: the tag in one
/// byte, the hash, then the optional value.
pub open spec fn hashed_encoding<T: LeBytes>(tag: u8, hash: Field, value: Option<T::V>) -> Seq<u8> {
    seq![tag] + Field::encoding(hash) + option_encoding::<T>(value)
}

/// The hash and the optional value that follow the tag at the start of a buffer.
pub open spec fn hashed_decoding<T: LeBytes>(bytes: Seq<u8>) -> Result<
    ((Field, Option<T::V>), int),
    DecodeError,
> {
    match Field::decoding(bytes.skip(1)) {
        Err(e) => Err(e),
        Ok((hash, _)) => match option_decoding::<T>(bytes.skip(33)) {
            Err(e) => Err(e),
            Ok((value, n)) => Ok(((hash, value), 33 + n)),
        },
    }
}

/// A tagged hash with an encodable optional value is read back from its encoding.
pub proof fn lemma_hashed_roundtrip<T: LeBytes>(
    tag: u8,
    hash: Field,
    value: Option<T::V>,
    rest: Seq<u8>,
)
    requires
        option_encodable::<T>(value),
    ensures
        (hashed_encoding::<T>(tag, hash, value) + rest)[0] == tag,
        hashed_decoding::<T>(hashed_encoding::<T>(tag, hash, value) + rest) == Ok::<
            ((Field, Option<T::V>), int),
            DecodeError,
        >(((hash, value), hashed_encoding::<T>(tag, hash, value).len() as int)),
{
    let full = hashed_encoding::<T>(tag, hash, value) + rest;
    let tail = option_encoding::<T>(value) + rest;
    Field::roundtrip(hash, tail);
    lemma_option_roundtrip::<T>(value, rest);
    assert(full.skip(1) =~= Field::encoding(hash) + tail);
    assert(full.skip(33) =~= tail);
}

/// Appends the encoding of a tagged hash with an optional value.
pub fn write_hashed<T: LeBytes>(tag: u8, hash: &Field, value: &Option<T>, out: &mut Vec<u8>)
    ensures
        final(out)@ == old(out)@ + hashed_encoding::<T>(
            tag,
            *hash,
            match value {
                Some(x) => Some(x.deep_view()),
                None => None,
            },
        ),
{
    out.push(tag);
    Field::write_le(hash, out);
    let ghost middle = out@;
    write_option::<T>(value, out);
    assert(out@ =~= old(out)@ + hashed_encoding::<T>(
        tag,
        *hash,
        match value {
            Some(x) => Some(x.deep_view()),
            None => None,
        },
    ));
}

/// Reads the hash and the optional value that follow the tag at `at`.
pub fn read_hashed<T: LeBytes>(bytes: &[u8], at: usize) -> (r: Result<
    ((Field, Option<T>), usize),
    DecodeError,
>)
    requires
        at < bytes@.len(),
    ensures
        match hashed_decoding::<T>(bytes@.skip(at as int)) {
            Ok(((hash, value), n)) => r matches Ok(((h, x), end)) && h == hash && value == (match x {
                Some(y) => Some(y.deep_view()),
                None => None,
            }) && end == at + n && at <= end <= bytes@.len(),
            Err(e) => r == Err::<((Field, Option<T>), usize), DecodeError>(e),
        },
{
    let ghost s = bytes@.skip(at as int);
    let len = bytes.len();
    assert(s.skip(1) =~= bytes@.skip(at + 1));
    let (hash, next) = match <Field as LeBytes>::read_le(bytes, at + 1) {
        Ok(read) => read,
        Err(e) => return Err(e),
    };
    assert(s.skip(33) =~= bytes@.skip(next as int));
    let (value, end) = match read_option::<T>(bytes, next) {
        Ok(read) => read,
        Err(e) => return Err(e),
    };
    Ok(((hash, value), end))
}

impl LeBytes for i64 {
    /// The eight bytes of the two's complement of the value.
    open spec fn encoding(v: i64) -> Seq<u8> {
        spec_u64_to_le_bytes(v as u64)
    }

    open spec fn encodable(v: i64) -> bool {
        true
    }

    open spec fn decoding(bytes: Seq<u8>) -> Result<(i64, int), DecodeError> {
        if bytes.len() < 8 {
            Err(DecodeError::UnexpectedEnd)
        } else {
            Ok((spec_u64_from_le_bytes(bytes.subrange(0, 8)) as i64, 8))
        }
    }

    proof fn roundtrip(v: i64, rest: Seq<u8>) {
        lemma_auto_spec_u64_to_from_le_bytes();
        assert((spec_u64_to_le_bytes(v as u64) + rest).subrange(0, 8) =~= spec_u64_to_le_bytes(
            v as u64,
        ));
        assert((v as u64) as i64 == v) by (bit_vector);
    }

    fn write_le(&self, out: &mut Vec<u8>) {
        let mut b = u64_to_le_bytes(*self as u64);
        out.append(&mut b);
    }

    fn read_le(bytes: &[u8], at: usize) -> (r: Result<(i64, usize), DecodeError>) {
        if bytes.len() - at < 8 {
            return Err(DecodeError::UnexpectedEnd);
        }
        let x = u64_from_le_bytes(slice_subrange(bytes, at, at + 8));
        assert(bytes@.subrange(at as int, at + 8) =~= bytes@.skip(at as int).subrange(0, 8));
        Ok((x as i64, at + 8))
    }
}

impl<A: LeBytes, B: LeBytes> LeBytes for (A, B) {
    /// The first, then the second.
    open spec fn encoding(v: (A::V, B::V)) -> Seq<u8> {
        A::encoding(v.0) + B::encoding(v.1)
    }

    open spec fn encodable(v: (A::V, B::V)) -> bool {
        A::encodable(v.0) && B::encodable(v.1)
    }

    open spec fn decoding(bytes: Seq<u8>) -> Result<((A::V, B::V), int), DecodeError> {
        match A::decoding(bytes) {
            Err(e) => Err(e),
            Ok((a, n)) => match B::decoding(bytes.skip(n)) {
                Err(e) => Err(e),
                Ok((b, m)) => Ok(((a, b), n + m)),
            },
        }
    }

    proof fn roundtrip(v: (A::V, B::V), rest: Seq<u8>) {
        let tail = B::encoding(v.1) + rest;
        A::roundtrip(v.0, tail);
        B::roundtrip(v.1, rest);
        assert(Self::encoding(v) + rest =~= A::encoding(v.0) + tail);
        assert((A::encoding(v.0) + tail).skip(A::encoding(v.0).len() as int) =~= tail);
    }

    fn write_le(&self, out: &mut Vec<u8>) {
        self.0.write_le(out);
        self.1.write_le(out);
        assert(out@ =~= old(out)@ + Self::encoding(self.deep_view()));
    }

    fn read_le(bytes: &[u8], at: usize) -> (r: Result<((A, B), usize), DecodeError>) {
        let (a, next) = match A::read_le(bytes, at) {
            Ok(read) => read,
            Err(e) => return Err(e),
        };
        assert(bytes@.skip(at as int).skip(next - at) =~= bytes@.skip(next as int));
        let (b, end) = match B::read_le(bytes, next) {
            Ok(read) => read,
            Err(e) => return Err(e),
        };
        Ok(((a, b), end))
    }
}

impl<T: LeBytes> LeBytes for Vec<T> {
    /// The number of values in 16 bits, then the values.
    open spec fn encoding(v: Seq<T::V>) -> Seq<u8> {
        counted_encoding::<T>(v)
    }

    open spec fn encodable(v: Seq<T::V>) -> bool {
        counted_encodable::<T>(v)
    }

    open spec fn decoding(bytes: Seq<u8>) -> Result<(Seq<T::V>, int), DecodeError> {
        counted_decoding::<T>(bytes)
    }

    proof fn roundtrip(v: Seq<T::V>, rest: Seq<u8>) {
        lemma_counted_roundtrip::<T>(v, rest);
    }

    fn write_le(&self, out: &mut Vec<u8>) {
        write_counted::<T>(self, out);
    }

    fn read_le(bytes: &[u8], at: usize) -> (r: Result<(Vec<T>, usize), DecodeError>) {
        read_counted::<T>(bytes, at)
    }
}

} // verus!
