//! The byte encoding of a transition.

use vstd::prelude::*;
use crate::bytes::{
    counted_decoding, counted_encodable, counted_encoding, lemma_counted_roundtrip, read_counted,
    write_counted, DecodeError, LeBytes,
};
use crate::field::{Field, Group};
use crate::network::Network;
use crate::program::{Identifier, ProgramID, Value, ValueView};
use crate::transition::input::Input;
use crate::transition::output::Output;
use crate::transition::{
    spec_transition_id, well_formed, Proof, Transition, TransitionView,
};

verus! {

impl LeBytes for Proof {
    /// The number of bytes in 16 bits, then the bytes.
    open spec fn encoding(v: Seq<u8>) -> Seq<u8> {
        counted_encoding::<u8>(v)
    }

    open spec fn encodable(v: Seq<u8>) -> bool {
        v.len() <= u16::MAX
    }

    open spec fn decoding(bytes: Seq<u8>) -> Result<(Seq<u8>, int), DecodeError> {
        counted_decoding::<u8>(bytes)
    }

    proof fn roundtrip(v: Seq<u8>, rest: Seq<u8>) {
        lemma_counted_roundtrip::<u8>(v, rest);
    }

    fn write_le(&self, out: &mut Vec<u8>) {
        assert(self.bytes.deep_view() =~= self.bytes@);
        write_counted::<u8>(&self.bytes, out);
    }

    fn read_le(bytes: &[u8], at: usize) -> (r: Result<(Proof, usize), DecodeError>) {
        match read_counted::<u8>(bytes, at) {
            Ok((proof, end)) => {
                assert(proof.deep_view() =~= proof@);
                Ok((Proof { bytes: proof }, end))
            },
            Err(e) => Err(e),
        }
    }
}

/// What follows the version: the ID, the program ID, the function name, the
/// inputs and the outputs, the lists with their counts.
pub type Head = (Field, (ProgramID, (Identifier, (Vec<Input>, Vec<Output>))));

/// What follows the inputs for finalize: the proof, the transition public
/// key, the transition commitment and the fee.
pub type Tail = (Proof, (Group, (Field, i64)));

/// The encoding of the inputs for finalize: 0 where there are none, else 1
/// and the inputs with their count.
#[verifier::opaque]
pub open spec fn finalize_encoding(finalize: Option<Seq<ValueView>>) -> Seq<u8> {
    match finalize {
        None => seq![0u8],
        Some(values) => seq![1u8] + counted_encoding::<Value>(values),
    }
}

/// Whether the inputs for finalize are read back from their encoding.
pub open spec fn finalize_encodable(finalize: Option<Seq<ValueView>>) -> bool {
    match finalize {
        None => true,
        Some(values) => counted_encodable::<Value>(values),
    }
}

/// The inputs for finalize that a buffer starts with; a variant of 2 or more
/// is an error.
#[verifier::opaque]
pub open spec fn finalize_decoding(bytes: Seq<u8>) -> Result<
    (Option<Seq<ValueView>>, int),
    DecodeError,
> {
    if bytes.len() < 1 {
        Err(DecodeError::UnexpectedEnd)
    } else if bytes[0] == 0 {
        Ok((None, 1))
    } else if bytes[0] == 1 {
        match counted_decoding::<Value>(bytes.skip(1)) {
            Err(e) => Err(e),
            Ok((values, n)) => Ok((Some(values), 1 + n)),
        }
    } else {
        Err(DecodeError::InvalidFinalizeVariant)
    }
}

/// The head of a transition, as the codec takes it.
pub open spec fn head_of(t: TransitionView) -> <Head as DeepView>::V {
    (t.id, (t.program_id, (t.function_name, (t.inputs, t.outputs))))
}

/// The tail of a transition, as the codec takes it.
pub open spec fn tail_of(t: TransitionView) -> <Tail as DeepView>::V {
    (t.proof, (t.tpk, (t.tcm, t.fee)))
}

/// The encoding of the head of a transition: the ID, the program ID, the
/// function name, the inputs with their count, the outputs with their count.
#[verifier::opaque]
pub open spec fn head_encoding(t: TransitionView) -> Seq<u8> {
    Head::encoding(head_of(t))
}

/// The head of a transition that a buffer starts with.
#[verifier::opaque]
pub open spec fn head_decoding(bytes: Seq<u8>) -> Result<(<Head as DeepView>::V, int), DecodeError> {
    Head::decoding(bytes)
}

/// The encoding of the tail of a transition: the proof with its length, the
/// transition public key, the transition commitment, the fee.
#[verifier::opaque]
pub open spec fn tail_encoding(t: TransitionView) -> Seq<u8> {
    Tail::encoding(tail_of(t))
}

/// The tail of a transition that a buffer starts with.
#[verifier::opaque]
pub open spec fn tail_decoding(bytes: Seq<u8>) -> Result<(<Tail as DeepView>::V, int), DecodeError> {
    Tail::decoding(bytes)
}

/// The bytes that a transition is written as:
/// `version (0) | id | program ID | function name | inputs | outputs |
/// finalize | proof | tpk | tcm | fee`.
pub open spec fn transition_encoding(t: TransitionView) -> Seq<u8> {
    u16::encoding(0u16) + (head_encoding(t) + (finalize_encoding(t.finalize) + tail_encoding(t)))
}

/// Whether the counts of a transition fit their counters.
pub open spec fn transition_encodable(t: TransitionView) -> bool {
    Head::encodable(head_of(t)) && finalize_encodable(t.finalize) && Tail::encodable(tail_of(t))
}

/// The transition that a buffer starts with and the number of bytes it
/// takes, or the error that reading fails with. The version must be 0, and
/// the ID that was written must be the ID of the inputs and outputs that
/// were read.
pub open spec fn transition_decoding<N: Network>(bytes: Seq<u8>) -> Result<
    (TransitionView, int),
    DecodeError,
> {
    match u16::decoding(bytes) {
        Err(e) => Err(e),
        Ok((version, _)) => if version != 0 {
            Err(DecodeError::InvalidVersion)
        } else {
            match head_decoding(bytes.skip(2)) {
                Err(e) => Err(e),
                Ok((head, n)) => match finalize_decoding(bytes.skip(2 + n)) {
                    Err(e) => Err(e),
                    Ok((finalize, m)) => match tail_decoding(bytes.skip(2 + n + m)) {
                        Err(e) => Err(e),
                        Ok((tail, k)) => match spec_transition_id::<N>(
                            head.1.1.1.0,
                            head.1.1.1.1,
                        ) {
                            None => Err(DecodeError::InvalidTransition),
                            Some(id) => if id != head.0 {
                                Err(DecodeError::IncorrectTransitionID)
                            } else {
                                Ok(
                                    (
                                        TransitionView {
                                            id,
                                            program_id: head.1.0,
                                            function_name: head.1.1.0,
                                            inputs: head.1.1.1.0,
                                            outputs: head.1.1.1.1,
                                            finalize,
                                            proof: tail.0,
                                            tpk: tail.1.0,
                                            tcm: tail.1.1.0,
                                            fee: tail.1.1.1,
                                        },
                                        2 + n + m + k,
                                    ),
                                )
                            },
                        },
                    },
                },
            }
        },
    }
}

/// The inputs for finalize are read back from their encoding.
pub proof fn lemma_finalize_roundtrip(finalize: Option<Seq<ValueView>>, rest: Seq<u8>)
    requires
        finalize_encodable(finalize),
    ensures
        finalize_decoding(finalize_encoding(finalize) + rest) == Ok::<
            (Option<Seq<ValueView>>, int),
            DecodeError,
        >((finalize, finalize_encoding(finalize).len() as int)),
{
    reveal(finalize_encoding);
    reveal(finalize_decoding);
    match finalize {
        Some(values) => {
            lemma_counted_roundtrip::<Value>(values, rest);
            assert((finalize_encoding(finalize) + rest).skip(1) =~= counted_encoding::<Value>(
                values,
            ) + rest);
        },
        None => {},
    }
}

/// The head of a transition is read back from its encoding.
pub proof fn lemma_head_roundtrip(t: TransitionView, rest: Seq<u8>)
    requires
        Head::encodable(head_of(t)),
    ensures
        head_decoding(head_encoding(t) + rest) == Ok::<(<Head as DeepView>::V, int), DecodeError>(
            (head_of(t), head_encoding(t).len() as int),
        ),
{
    reveal(head_encoding);
    reveal(head_decoding);
    Head::roundtrip(head_of(t), rest);
}

/// The tail of a transition is read back from its encoding.
pub proof fn lemma_tail_roundtrip(t: TransitionView, rest: Seq<u8>)
    requires
        Tail::encodable(tail_of(t)),
    ensures
        tail_decoding(tail_encoding(t) + rest) == Ok::<(<Tail as DeepView>::V, int), DecodeError>(
            (tail_of(t), tail_encoding(t).len() as int),
        ),
{
    reveal(tail_encoding);
    reveal(tail_decoding);
    Tail::roundtrip(tail_of(t), rest);
}

/// Appending is associative.
pub proof fn lemma_append_assoc(a: Seq<u8>, b: Seq<u8>, c: Seq<u8>)
    ensures
        (a + b) + c == a + (b + c),
{
    assert((a + b) + c =~= a + (b + c));
}

/// What stands behind a prefix is what was appended to it.
pub proof fn lemma_skip_prefix(a: Seq<u8>, b: Seq<u8>, n: int)
    requires
        0 <= n <= b.len(),
    ensures
        (a + b).skip(a.len() as int) == b,
        (a + b).skip(a.len() as int).skip(n) == (a + b).skip(a.len() + n),
{
    assert((a + b).skip(a.len() as int) =~= b);
    assert((a + b).skip(a.len() as int).skip(n) =~= (a + b).skip(a.len() + n));
}

/// Transition byte round trip: a transition whose ID is that of its inputs
/// and outputs, and whose counts fit their counters, is read back from its
/// encoding, whatever follows it.
pub proof fn law_transition_roundtrip<N: Network>(t: TransitionView, rest: Seq<u8>)
    requires
        well_formed::<N>(t),
        transition_encodable(t),
    ensures
        transition_decoding::<N>(transition_encoding(t) + rest) == Ok::<
            (TransitionView, int),
            DecodeError,
        >((t, transition_encoding(t).len() as int)),
{
    let version = u16::encoding(0u16);
    let head = head_encoding(t);
    let finalize = finalize_encoding(t.finalize);
    let tail = tail_encoding(t);
    let r3 = tail + rest;
    let r2 = finalize + r3;
    let r1 = head + r2;
    let full = transition_encoding(t) + rest;
    lemma_append_assoc(finalize, tail, rest);
    lemma_append_assoc(head, finalize + tail, rest);
    lemma_append_assoc(version, head + (finalize + tail), rest);
    assert(full == version + r1);
    u16::roundtrip(0u16, r1);
    lemma_head_roundtrip(t, r2);
    lemma_finalize_roundtrip(t.finalize, r3);
    lemma_tail_roundtrip(t, rest);
    assert(version.len() == 2);
    lemma_skip_prefix(version, r1, 0);
    assert(full.skip(2) == r1);
    lemma_skip_prefix(head, r2, 0);
    lemma_skip_prefix(version, r1, head.len() as int);
    assert(full.skip(2 + head.len() as int) == r2);
    lemma_skip_prefix(finalize, r3, 0);
    lemma_skip_prefix(head, r2, finalize.len() as int);
    lemma_skip_prefix(version, r1, head.len() as int + finalize.len() as int);
    assert(full.skip(2 + head.len() as int + finalize.len() as int) == r3);
    assert(transition_encoding(t).len() == 2 + head.len() + finalize.len() + tail.len());
}

/// A buffer whose version is not 0 is refused as of an invalid version.
pub proof fn law_transition_version<N: Network>(bytes: Seq<u8>)
    requires
        bytes.len() >= 2,
        u16::decoding(bytes) matches Ok((version, _)) && version != 0,
    ensures
        transition_decoding::<N>(bytes) == Err::<(TransitionView, int), DecodeError>(
            DecodeError::InvalidVersion,
        ),
{
}

/// Output byte round trip, second part: a buffer whose variant is 5 or more
/// is refused.
pub proof fn law_output_variant_out_of_range(bytes: Seq<u8>)
    requires
        bytes.len() >= 1,
        bytes[0] >= 5,
    ensures
        Output::decoding(bytes) == Err::<(crate::transition::output::OutputView, int), DecodeError>(
            DecodeError::InvalidOutputVariant,
        ),
{
}

/// Appends the encoding of the inputs for finalize.
fn write_finalize(finalize: &Option<Vec<Value>>, out: &mut Vec<u8>)
    ensures
        final(out)@ == old(out)@ + finalize_encoding(finalize.deep_view()),
{
    reveal(finalize_encoding);
    match finalize {
        None => {
            // Write the finalize variant.
            out.push(0u8);
            assert(out@ =~= old(out)@ + seq![0u8]);
        },
        Some(finalize) => {
            // Write the finalize variant.
            out.push(1u8);
            // Write the number of inputs to finalize, and the inputs.
            write_counted::<Value>(finalize, out);
            assert(out@ =~= old(out)@ + (seq![1u8] + counted_encoding::<Value>(
                finalize.deep_view(),
            )));
        },
    }
}

/// Reads the inputs for finalize from the buffer at `at`.
fn read_finalize(bytes: &[u8], at: usize) -> (r: Result<(Option<Vec<Value>>, usize), DecodeError>)
    requires
        at <= bytes@.len(),
    ensures
        match finalize_decoding(bytes@.skip(at as int)) {
            Ok((v, n)) => r matches Ok((x, end)) && x.deep_view() == v && end == at + n && at
                <= end <= bytes@.len(),
            Err(e) => r == Err::<(Option<Vec<Value>>, usize), DecodeError>(e),
        },
{
    reveal(finalize_decoding);
    if bytes.len() - at < 1 {
        return Err(DecodeError::UnexpectedEnd);
    }
    // Read the finalize variant.
    let finalize_variant = bytes[at];
    assert(bytes@.skip(at as int).skip(1) =~= bytes@.skip(at + 1));
    match finalize_variant {
        0 => Ok((None, at + 1)),
        1 => match read_counted::<Value>(bytes, at + 1) {
            Ok((finalize, end)) => Ok((Some(finalize), end)),
            Err(e) => Err(e),
        },
        _ => Err(DecodeError::InvalidFinalizeVariant),
    }
}

impl Transition {
    /// Writes the transition ID, the program ID, the function name, the
    /// inputs and the outputs.
    fn write_head(&self, out: &mut Vec<u8>)
        ensures
            final(out)@ == old(out)@ + head_encoding(self.deep_view()),
    {
        reveal(head_encoding);
        // Write the transition ID.
        LeBytes::write_le(&self.id, out);
        // Write the program ID.
        self.program_id.write_le(out);
        // Write the function name.
        self.function_name.write_le(out);
        let ghost o3 = out@;
        // Write the number of inputs, and the inputs.
        self.inputs.write_le(out);
        // Write the number of outputs, and the outputs.
        self.outputs.write_le(out);
        proof {
            let e_id = Field::encoding(self.id);
            let e_pid = ProgramID::encoding(self.program_id.deep_view());
            let e_fn = Identifier::encoding(self.function_name.deep_view());
            let e_in = <Vec<Input> as LeBytes>::encoding(self.inputs.deep_view());
            let e_out = <Vec<Output> as LeBytes>::encoding(self.outputs.deep_view());
            lemma_append_assoc(o3, e_in, e_out);
            lemma_append_assoc(old(out)@ + e_id + e_pid, e_fn, e_in + e_out);
            lemma_append_assoc(old(out)@ + e_id, e_pid, e_fn + (e_in + e_out));
            lemma_append_assoc(old(out)@, e_id, e_pid + (e_fn + (e_in + e_out)));
        }
    }

    /// Writes the proof, the transition public key, the transition commitment
    /// and the fee.
    fn write_tail(&self, out: &mut Vec<u8>)
        ensures
            final(out)@ == old(out)@ + tail_encoding(self.deep_view()),
    {
        reveal(tail_encoding);
        // Write the proof.
        self.proof.write_le(out);
        // Write the transition public key.
        LeBytes::write_le(&self.tpk, out);
        // Write the transition commitment.
        LeBytes::write_le(&self.tcm, out);
        // Write the transition fee.
        self.fee.write_le(out);
        proof {
            let e_proof = Proof::encoding(self.proof.deep_view());
            let e_tpk = Group::encoding(self.tpk);
            let e_tcm = Field::encoding(self.tcm);
            let e_fee = i64::encoding(self.fee);
            lemma_append_assoc(old(out)@ + e_proof + e_tpk, e_tcm, e_fee);
            lemma_append_assoc(old(out)@ + e_proof, e_tpk, e_tcm + e_fee);
            lemma_append_assoc(old(out)@, e_proof, e_tpk + (e_tcm + e_fee));
        }
    }

    /// Writes the transition to a buffer.
    pub fn write_le(&self, out: &mut Vec<u8>)
        ensures
            final(out)@ == old(out)@ + transition_encoding(self.deep_view()),
    {
        // Write the version.
        0u16.write_le(out);
        self.write_head(out);
        // Write the finalize inputs.
        write_finalize(&self.finalize, out);
        self.write_tail(out);
        proof {
            let version = u16::encoding(0u16);
            let head = head_encoding(self.deep_view());
            let finalize = finalize_encoding(self.deep_view().finalize);
            let tail = tail_encoding(self.deep_view());
            lemma_append_assoc(old(out)@ + version + head, finalize, tail);
            lemma_append_assoc(old(out)@ + version, head, finalize + tail);
            lemma_append_assoc(old(out)@, version, head + (finalize + tail));
        }
    }

    /// Returns the bytes that the transition is written as.
    pub fn to_bytes_le(&self) -> (r: Vec<u8>)
        ensures
            r@ == transition_encoding(self.deep_view()),
    {
        let mut out: Vec<u8> = Vec::new();
        self.write_le(&mut out);
        assert(out@ =~= transition_encoding(self.deep_view()));
        out
    }

    /// Reads the transition from a buffer.
    pub fn read_le<N: Network>(bytes: &[u8]) -> (r: Result<Transition, DecodeError>)
        ensures
            r matches Ok(t) ==> well_formed::<N>(t.deep_view()),
            match transition_decoding::<N>(bytes@) {
                Ok((v, _)) => r matches Ok(t) && t.deep_view() == v,
                Err(e) => r == Err::<Transition, DecodeError>(e),
            },
    {
        reveal(head_decoding);
        reveal(tail_decoding);
        assert(bytes@.skip(0) =~= bytes@);
        // Read the version.
        let (version, a0) = match u16::read_le(bytes, 0) {
            Ok(read) => read,
            Err(e) => return Err(e),
        };
        // Ensure the version is valid.
        if version != 0 {
            return Err(DecodeError::InvalidVersion);
        }
        // Read the transition ID, the program ID, the function name, the inputs and the outputs.
        let (head, a1) = match <Head as LeBytes>::read_le(bytes, a0) {
            Ok(read) => read,
            Err(e) => return Err(e),
        };
        let (transition_id, (program_id, (function_name, (inputs, outputs)))) = head;
        // Read the finalize inputs.
        let (finalize, a2) = match read_finalize(bytes, a1) {
            Ok(read) => read,
            Err(e) => return Err(e),
        };
        // Read the proof, the transition public key, the transition commitment and the fee.
        let (tail, _) = match <Tail as LeBytes>::read_le(bytes, a2) {
            Ok(read) => read,
            Err(e) => return Err(e),
        };
        let (proof, (tpk, (tcm, fee))) = tail;

        // Construct the candidate transition.
        let transition = match Self::new::<N>(
            program_id,
            function_name,
            inputs,
            outputs,
            finalize,
            proof,
            tpk,
            tcm,
            fee,
        ) {
            Ok(transition) => transition,
            Err(_) => return Err(DecodeError::InvalidTransition),
        };
        // Ensure the transition ID matches the expected ID.
        if transition_id == transition.id {
            Ok(transition)
        } else {
            Err(DecodeError::IncorrectTransitionID)
        }
    }
}

} // verus!
