//! Laws that relate signing and checking.

use vstd::prelude::*;
use vstd::arithmetic::div_mod::{lemma_mod_bound, lemma_mod_equivalence};
use crate::account::{spec_address, spec_compute_key, PrivateKey, Signature};
use crate::algebra::{lemma_recover_generator_multiple, lemma_recover_multiple};
use crate::environment::{
    generator_multiple, group_multiple, scalar_difference, scalar_product,
};
use crate::field::{Field, Group, Scalar};
use crate::network::Network;
use crate::program::{ProgramIDView, ValueTypeView, ValueView};
use crate::record::{spec_record_commitment, spec_record_generator};
use crate::request::sign::{
    lemma_sign_inputs_error_stays, message_head, spec_sign, spec_sign_input, spec_sign_inputs,
    spec_signer_state, SignerState,
};
use crate::request::verify::{
    spec_check_input, spec_check_inputs,
    spec_verify, VerifierState,
};
use crate::request::{spec_to_tpk, InputID, RequestError, RequestView};

verus! {

/// What of the signer's state is public in the request.
pub open spec fn verifier_of(state: SignerState) -> VerifierState {
    VerifierState {
        function_id: state.function_id,
        caller: state.caller,
        sk_tag: state.sk_tag,
        tvk: state.tvk,
        tcm: state.tcm,
    }
}

/// An input that was signed matches its ID, and adds to the verifier's
/// message what it added to the signer's.
pub proof fn lemma_signed_input_checks<N: Network>(
    state: SignerState,
    program_id: ProgramIDView,
    signature: Signature,
    index: int,
    input: ValueView,
    input_type: ValueTypeView,
)
    requires
        spec_sign_input::<N>(state, program_id, index, input, input_type) is Ok,
        signature.response == scalar_difference::<N>(
            state.tsk,
            scalar_product::<N>(signature.challenge, state.sk_sig),
        ),
    ensures
        spec_check_input::<N>(
            verifier_of(state),
            program_id,
            Some(signature),
            index,
            spec_sign_input::<N>(state, program_id, index, input, input_type).unwrap().0,
            input,
            input_type,
        ) == Ok::<(bool, Seq<Field>), RequestError>(
            (true, spec_sign_input::<N>(state, program_id, index, input, input_type).unwrap().1),
        ),
{
    match (input_type, input) {
        (ValueTypeView::Record(record_name), ValueView::Record(record)) => {
            let commitment = spec_record_commitment::<N>(record, program_id, record_name).unwrap();
            let h = spec_record_generator::<N>(commitment).unwrap();
            lemma_recover_multiple::<N>(h, state.sk_sig, signature.challenge, state.tsk);
        },
        _ => {},
    }
}

/// Where all the inputs were signed, the first `n` were, and their IDs are
/// the first `n` of all the IDs.
pub proof fn lemma_sign_inputs_prefix<N: Network>(
    state: SignerState,
    program_id: ProgramIDView,
    inputs: Seq<ValueView>,
    input_types: Seq<ValueTypeView>,
    n: nat,
    m: nat,
)
    requires
        n <= m,
        spec_sign_inputs::<N>(state, program_id, inputs, input_types, m) is Ok,
    ensures
        spec_sign_inputs::<N>(state, program_id, inputs, input_types, n) is Ok,
        spec_sign_inputs::<N>(state, program_id, inputs, input_types, m).unwrap().0.len() == m,
        spec_sign_inputs::<N>(state, program_id, inputs, input_types, n).unwrap().0
            == spec_sign_inputs::<N>(state, program_id, inputs, input_types, m).unwrap().0.take(
            n as int,
        ),
    decreases m,
{
    let full = spec_sign_inputs::<N>(state, program_id, inputs, input_types, m).unwrap().0;
    if m == 0 {
        assert(full.take(0) =~= full);
    } else {
        lemma_sign_inputs_prefix::<N>(
            state,
            program_id,
            inputs,
            input_types,
            if n < m {
                n
            } else {
                (m - 1) as nat
            },
            (m - 1) as nat,
        );
        let before = spec_sign_inputs::<N>(
            state,
            program_id,
            inputs,
            input_types,
            (m - 1) as nat,
        ).unwrap().0;
        if n < m {
            assert(before.take(n as int) =~= full.take(n as int));
        } else {
            assert(full.take(m as int) =~= full);
        }
    }
}

/// Where all the inputs were signed, the first `n` match their IDs, and add
/// to the verifier's message what they added to the signer's.
pub proof fn lemma_signed_inputs_check<N: Network>(
    state: SignerState,
    program_id: ProgramIDView,
    signature: Signature,
    inputs: Seq<ValueView>,
    input_types: Seq<ValueTypeView>,
    n: nat,
)
    requires
        n <= inputs.len(),
        spec_sign_inputs::<N>(state, program_id, inputs, input_types, inputs.len()) is Ok,
        signature.response == scalar_difference::<N>(
            state.tsk,
            scalar_product::<N>(signature.challenge, state.sk_sig),
        ),
    ensures
        spec_sign_inputs::<N>(state, program_id, inputs, input_types, n) is Ok,
        spec_check_inputs::<N>(
            verifier_of(state),
            program_id,
            Some(signature),
            spec_sign_inputs::<N>(state, program_id, inputs, input_types, inputs.len()).unwrap().0,
            inputs,
            input_types,
            n,
        ) == Ok::<(bool, Seq<Field>), RequestError>(
            (true, spec_sign_inputs::<N>(state, program_id, inputs, input_types, n).unwrap().1),
        ),
    decreases n,
{
    lemma_sign_inputs_prefix::<N>(state, program_id, inputs, input_types, n, inputs.len());
    if n > 0 {
        lemma_signed_inputs_check::<N>(
            state,
            program_id,
            signature,
            inputs,
            input_types,
            (n - 1) as nat,
        );
        lemma_signed_input_checks::<N>(
            state,
            program_id,
            signature,
            n - 1,
            inputs[n - 1],
            input_types[n - 1],
        );
        let ids_n = spec_sign_inputs::<N>(state, program_id, inputs, input_types, n).unwrap().0;
        let full = spec_sign_inputs::<N>(
            state,
            program_id,
            inputs,
            input_types,
            inputs.len(),
        ).unwrap().0;
        lemma_sign_inputs_prefix::<N>(state, program_id, inputs, input_types, n, n);
        lemma_sign_inputs_prefix::<N>(
            state,
            program_id,
            inputs,
            input_types,
            (n - 1) as nat,
            (n - 1) as nat,
        );
        let before = spec_sign_inputs::<N>(
            state,
            program_id,
            inputs,
            input_types,
            (n - 1) as nat,
        ).unwrap();
        let step = spec_sign_input::<N>(
            state,
            program_id,
            n - 1,
            inputs[n - 1],
            input_types[n - 1],
        ).unwrap();
        assert(spec_sign_inputs::<N>(state, program_id, inputs, input_types, n)
            == Ok::<(Seq<InputID>, Seq<Field>), RequestError>(
            (before.0.push(step.0), before.1 + step.1),
        ));
        assert(ids_n == full.take(n as int));
        assert(ids_n[n - 1] == full[n - 1]);
        assert(full[n - 1] == step.0);
    }
}

/// Round trip: a request that was signed is valid for the transition public
/// key `tsk * G`.
pub proof fn law_signed_request_verifies<N: Network>(
    private_key: PrivateKey,
    program_id: ProgramIDView,
    function_name: Seq<u8>,
    inputs: Seq<ValueView>,
    input_types: Seq<ValueTypeView>,
    nonce: Field,
)
    requires
        spec_sign::<N>(private_key, program_id, function_name, inputs, input_types, nonce) is Ok,
    ensures
        spec_verify::<N>(
            spec_sign::<N>(
                private_key,
                program_id,
                function_name,
                inputs,
                input_types,
                nonce,
            ).unwrap(),
            input_types,
            generator_multiple::<N>(
                spec_sign::<N>(
                    private_key,
                    program_id,
                    function_name,
                    inputs,
                    input_types,
                    nonce,
                ).unwrap().tsk,
            ),
        ) == Ok::<bool, RequestError>(true),
{
    let request = spec_sign::<N>(
        private_key,
        program_id,
        function_name,
        inputs,
        input_types,
        nonce,
    ).unwrap();
    let (state, compute_key) = spec_signer_state::<N>(
        private_key,
        program_id,
        function_name,
        nonce,
    ).unwrap();
    let signature = request.signature;
    lemma_signed_inputs_check::<N>(
        state,
        program_id,
        signature,
        inputs,
        input_types,
        inputs.len(),
    );
    lemma_sign_inputs_prefix::<N>(
        state,
        program_id,
        inputs,
        input_types,
        inputs.len(),
        inputs.len(),
    );
    lemma_recover_generator_multiple::<N>(state.sk_sig, signature.challenge, state.tsk);
    let message = spec_sign_inputs::<N>(
        state,
        program_id,
        inputs,
        input_types,
        inputs.len(),
    ).unwrap().1;
    assert(verifier_of(state) == (VerifierState {
        function_id: state.function_id,
        caller: request.caller,
        sk_tag: request.sk_tag,
        tvk: request.tvk,
        tcm: request.tcm,
    }));
    assert(seq![
        generator_multiple::<N>(request.tsk).x,
        request.signature.compute_key.pk_sig.x,
        request.signature.compute_key.pr_sig.x,
        request.caller.point.x,
        request.tvk,
        request.tcm,
        state.function_id,
    ] + message =~= message_head::<N>(state, compute_key) + message);
}

/// Whether the first `n` inputs all match their IDs: no error, and no
/// mismatch.
pub open spec fn inputs_all_match<N: Network>(
    state: VerifierState,
    program_id: ProgramIDView,
    signature: Option<Signature>,
    input_ids: Seq<InputID>,
    inputs: Seq<ValueView>,
    input_types: Seq<ValueTypeView>,
    n: nat,
) -> bool {
    match spec_check_inputs::<N>(state, program_id, signature, input_ids, inputs, input_types, n) {
        Ok((checks, _)) => checks,
        Err(_) => false,
    }
}

/// An input that does not match its ID, or is of the wrong kind, keeps the
/// inputs from all matching, however many follow it.
pub proof fn lemma_one_mismatch_fails_all<N: Network>(
    state: VerifierState,
    program_id: ProgramIDView,
    signature: Option<Signature>,
    input_ids: Seq<InputID>,
    inputs: Seq<ValueView>,
    input_types: Seq<ValueTypeView>,
    i: int,
    n: nat,
)
    requires
        0 <= i < n,
        match spec_check_input::<N>(
            state,
            program_id,
            signature,
            i,
            input_ids[i],
            inputs[i],
            input_types[i],
        ) {
            Ok((check, _)) => !check,
            Err(_) => true,
        },
    ensures
        !inputs_all_match::<N>(state, program_id, signature, input_ids, inputs, input_types, n),
    decreases n,
{
    if i < n - 1 {
        lemma_one_mismatch_fails_all::<N>(
            state,
            program_id,
            signature,
            input_ids,
            inputs,
            input_types,
            i,
            (n - 1) as nat,
        );
    }
}

/// Where the inputs all match, each one matches.
pub proof fn lemma_all_match_each_matches<N: Network>(
    state: VerifierState,
    program_id: ProgramIDView,
    signature: Option<Signature>,
    input_ids: Seq<InputID>,
    inputs: Seq<ValueView>,
    input_types: Seq<ValueTypeView>,
    i: int,
    n: nat,
)
    requires
        0 <= i < n,
        inputs_all_match::<N>(state, program_id, signature, input_ids, inputs, input_types, n),
    ensures
        spec_check_input::<N>(
            state,
            program_id,
            signature,
            i,
            input_ids[i],
            inputs[i],
            input_types[i],
        ) matches Ok((check, _)) && check,
{
    if !(spec_check_input::<N>(
        state,
        program_id,
        signature,
        i,
        input_ids[i],
        inputs[i],
        input_types[i],
    ) matches Ok((check, _)) && check) {
        lemma_one_mismatch_fails_all::<N>(
            state,
            program_id,
            signature,
            input_ids,
            inputs,
            input_types,
            i,
            n,
        );
    }
}

/// A request is valid only where its inputs all match their IDs.
pub proof fn lemma_valid_request_inputs_match<N: Network>(
    request: RequestView,
    input_types: Seq<ValueTypeView>,
    tpk: Group,
)
    requires
        spec_verify::<N>(request, input_types, tpk) == Ok::<bool, RequestError>(true),
    ensures
        request.input_ids.len() == request.inputs.len(),
        input_types.len() == request.inputs.len(),
        crate::request::spec_function_id::<N>(
            request.network_id,
            request.program_id,
            request.function_name,
        ) is Some,
        inputs_all_match::<N>(
            VerifierState {
                function_id: crate::request::spec_function_id::<N>(
                    request.network_id,
                    request.program_id,
                    request.function_name,
                ).unwrap(),
                caller: request.caller,
                sk_tag: request.sk_tag,
                tvk: request.tvk,
                tcm: request.tcm,
            },
            request.program_id,
            Some(request.signature),
            request.input_ids,
            request.inputs,
            input_types,
            request.inputs.len(),
        ),
{
}

/// Gates bound, on signing: a record input whose balance does not fit in 52
/// bits makes signing fail.
pub proof fn law_sign_rejects_gates_out_of_range<N: Network>(
    private_key: PrivateKey,
    program_id: ProgramIDView,
    function_name: Seq<u8>,
    inputs: Seq<ValueView>,
    input_types: Seq<ValueTypeView>,
    nonce: Field,
    i: int,
)
    requires
        0 <= i < inputs.len(),
        0 <= i < input_types.len(),
        input_types[i] is Record,
        inputs[i] matches ValueView::Record(record) && !record.gates_in_range(),
    ensures
        spec_sign::<N>(private_key, program_id, function_name, inputs, input_types, nonce) is Err,
{
    if input_types.len() == inputs.len() {
        match spec_signer_state::<N>(private_key, program_id, function_name, nonce) {
            Some((state, _)) => {
                assert(spec_sign_input::<N>(state, program_id, i, inputs[i], input_types[i])
                    is Err);
                assert(spec_sign_inputs::<N>(
                    state,
                    program_id,
                    inputs,
                    input_types,
                    (i + 1) as nat,
                ) is Err);
                lemma_sign_inputs_error_stays::<N>(
                    state,
                    program_id,
                    inputs,
                    input_types,
                    (i + 1) as nat,
                    inputs.len(),
                );
            },
            None => {},
        }
    }
}

/// Gates bound, on checking: a record input whose balance does not fit in 52
/// bits keeps a request from being valid, whatever else holds of it: the
/// check gives `false`, or an error where a primitive rejects its input or
/// an input is of the wrong kind.
pub proof fn law_verify_rejects_gates_out_of_range<N: Network>(
    request: RequestView,
    input_types: Seq<ValueTypeView>,
    tpk: Group,
    i: int,
)
    requires
        0 <= i < request.inputs.len(),
        0 <= i < request.input_ids.len(),
        request.input_ids[i] is Record,
        request.inputs[i] matches ValueView::Record(record) && !record.gates_in_range(),
    ensures
        spec_verify::<N>(request, input_types, tpk) != Ok::<bool, RequestError>(true),
{
    if spec_verify::<N>(request, input_types, tpk) == Ok::<bool, RequestError>(true) {
        lemma_valid_request_inputs_match::<N>(request, input_types, tpk);
        let state = VerifierState {
            function_id: crate::request::spec_function_id::<N>(
                request.network_id,
                request.program_id,
                request.function_name,
            ).unwrap(),
            caller: request.caller,
            sk_tag: request.sk_tag,
            tvk: request.tvk,
            tcm: request.tcm,
        };
        lemma_all_match_each_matches::<N>(
            state,
            request.program_id,
            Some(request.signature),
            request.input_ids,
            request.inputs,
            input_types,
            i,
            request.inputs.len(),
        );
    }
}

/// Owner binding: a record input whose owner is not the signer's address
/// makes signing fail.
pub proof fn law_sign_rejects_foreign_record<N: Network>(
    private_key: PrivateKey,
    program_id: ProgramIDView,
    function_name: Seq<u8>,
    inputs: Seq<ValueView>,
    input_types: Seq<ValueTypeView>,
    nonce: Field,
    i: int,
)
    requires
        0 <= i < inputs.len(),
        0 <= i < input_types.len(),
        input_types[i] is Record,
        inputs[i] matches ValueView::Record(record) && (spec_compute_key::<N>(
            private_key,
        ) matches Some(compute_key) ==> record.owner != spec_address::<N>(compute_key)),
    ensures
        spec_sign::<N>(private_key, program_id, function_name, inputs, input_types, nonce) is Err,
{
    if input_types.len() == inputs.len() {
        match spec_signer_state::<N>(private_key, program_id, function_name, nonce) {
            Some((state, _)) => {
                assert(spec_sign_input::<N>(state, program_id, i, inputs[i], input_types[i])
                    is Err);
                assert(spec_sign_inputs::<N>(
                    state,
                    program_id,
                    inputs,
                    input_types,
                    (i + 1) as nat,
                ) is Err);
                lemma_sign_inputs_error_stays::<N>(
                    state,
                    program_id,
                    inputs,
                    input_types,
                    (i + 1) as nat,
                    inputs.len(),
                );
            },
            None => {},
        }
    }
}

/// Tamper sensitivity, transition commitment: a valid request with another
/// `tcm` in its place is not valid: the check gives `false`, or an error
/// where a primitive rejects the changed transcript.
pub proof fn law_tampered_tcm_is_rejected<N: Network>(
    request: RequestView,
    input_types: Seq<ValueTypeView>,
    tpk: Group,
    tcm: Field,
)
    requires
        spec_verify::<N>(request, input_types, tpk) == Ok::<bool, RequestError>(true),
        tcm != request.tcm,
    ensures
        spec_verify::<N>(RequestView { tcm, ..request }, input_types, tpk) != Ok::<
            bool,
            RequestError,
        >(true),
{
}

/// Whether two input IDs are of one kind and differ in a hash: the hash of a
/// constant, public, private or external record input, or the commitment,
/// serial number or tag of a record input, whose gamma is the same.
pub open spec fn differs_in_hash(a: InputID, b: InputID) -> bool {
    a != b && match (a, b) {
        (InputID::Constant(_), InputID::Constant(_)) => true,
        (InputID::Public(_), InputID::Public(_)) => true,
        (InputID::Private(_), InputID::Private(_)) => true,
        (InputID::Record(_, gamma_a, _, _), InputID::Record(_, gamma_b, _, _)) => gamma_a
            == gamma_b,
        (InputID::ExternalRecord(_), InputID::ExternalRecord(_)) => true,
        _ => false,
    }
}

/// Tamper sensitivity, input IDs: a valid request with another hash in one of
/// its input IDs is not valid: the check gives `false`, or an error where a
/// primitive rejects the changed transcript.
pub proof fn law_tampered_input_id_is_rejected<N: Network>(
    request: RequestView,
    input_types: Seq<ValueTypeView>,
    tpk: Group,
    i: int,
    input_id: InputID,
)
    requires
        spec_verify::<N>(request, input_types, tpk) == Ok::<bool, RequestError>(true),
        0 <= i < request.input_ids.len(),
        differs_in_hash(request.input_ids[i], input_id),
    ensures
        spec_verify::<N>(
            RequestView { input_ids: request.input_ids.update(i, input_id), ..request },
            input_types,
            tpk,
        ) != Ok::<bool, RequestError>(true),
{
    let tampered = RequestView { input_ids: request.input_ids.update(i, input_id), ..request };
    lemma_valid_request_inputs_match::<N>(request, input_types, tpk);
    let state = VerifierState {
        function_id: crate::request::spec_function_id::<N>(
            request.network_id,
            request.program_id,
            request.function_name,
        ).unwrap(),
        caller: request.caller,
        sk_tag: request.sk_tag,
        tvk: request.tvk,
        tcm: request.tcm,
    };
    lemma_all_match_each_matches::<N>(
        state,
        request.program_id,
        Some(request.signature),
        request.input_ids,
        request.inputs,
        input_types,
        i,
        request.inputs.len(),
    );
    if spec_verify::<N>(tampered, input_types, tpk) == Ok::<bool, RequestError>(true) {
        lemma_valid_request_inputs_match::<N>(tampered, input_types, tpk);
        lemma_all_match_each_matches::<N>(
            state,
            request.program_id,
            Some(request.signature),
            tampered.input_ids,
            request.inputs,
            input_types,
            i,
            request.inputs.len(),
        );
    }
}

/// Tamper sensitivity, response: a valid request with a response in its
/// place that stands for another scalar is not valid: the check gives
/// `false`, or an error where a primitive rejects the changed transcript.
pub proof fn law_tampered_response_is_rejected<N: Network>(
    request: RequestView,
    input_types: Seq<ValueTypeView>,
    tpk: Group,
    response: Scalar,
)
    requires
        spec_verify::<N>(request, input_types, tpk) == Ok::<bool, RequestError>(true),
        response.value() % N::scalar_modulus() != request.signature.response.value()
            % N::scalar_modulus(),
    ensures
        spec_verify::<N>(
            RequestView { signature: Signature { response, ..request.signature }, ..request },
            input_types,
            tpk,
        ) != Ok::<bool, RequestError>(true),
{
    N::group_model();
    let q = N::scalar_modulus();
    let tampered = Signature { response, ..request.signature };
    let a = request.signature.response.value() % q;
    let b = response.value() % q;
    let k = N::dlog(
        group_multiple::<N>(request.signature.compute_key.pk_sig, request.signature.challenge),
    );
    lemma_mod_bound(request.signature.response.value(), q);
    lemma_mod_bound(response.value(), q);
    lemma_mod_bound(a + k, q);
    lemma_mod_bound(b + k, q);
    assert(N::dlog(generator_multiple::<N>(request.signature.response)) == a);
    assert(N::dlog(generator_multiple::<N>(response)) == b);
    assert(spec_to_tpk::<N>(request.signature) == N::point((a + k) % q));
    assert(spec_to_tpk::<N>(tampered) == N::point((b + k) % q));
    if spec_to_tpk::<N>(tampered) == spec_to_tpk::<N>(request.signature) {
        assert(N::dlog(N::point((a + k) % q)) == (a + k) % q);
        assert(N::dlog(N::point((b + k) % q)) == (b + k) % q);
        assert((a + k) % q == (b + k) % q);
        lemma_mod_equivalence(a + k, b + k, q);
        lemma_mod_equivalence(a, b, q);
        lemma_mod_bound(a, q);
        lemma_mod_bound(b, q);
        vstd::arithmetic::div_mod::lemma_small_mod(a as nat, q as nat);
        vstd::arithmetic::div_mod::lemma_small_mod(b as nat, q as nat);
    }
}

/// Whether none of the first `n` input IDs is that of a record.
pub open spec fn no_record_ids(input_ids: Seq<InputID>, n: nat) -> bool {
    forall|i: int| 0 <= i < n ==> !(#[trigger] input_ids[i] is Record)
}

/// Where no input ID is that of a record, what the inputs add to the message
/// does not depend on the signature.
pub proof fn lemma_message_without_records<N: Network>(
    state: VerifierState,
    program_id: ProgramIDView,
    first: Signature,
    second: Signature,
    input_ids: Seq<InputID>,
    inputs: Seq<ValueView>,
    input_types: Seq<ValueTypeView>,
    n: nat,
)
    requires
        n <= input_ids.len(),
        no_record_ids(input_ids, n),
    ensures
        spec_check_inputs::<N>(state, program_id, Some(first), input_ids, inputs, input_types, n)
            == spec_check_inputs::<N>(
            state,
            program_id,
            Some(second),
            input_ids,
            inputs,
            input_types,
            n,
        ),
    decreases n,
{
    if n > 0 {
        lemma_message_without_records::<N>(
            state,
            program_id,
            first,
            second,
            input_ids,
            inputs,
            input_types,
            (n - 1) as nat,
        );
        assert(!(input_ids[n - 1] is Record));
    }
}

/// Whether two input IDs are those of a record with one gamma, and differ
/// in the commitment, the serial number or the tag.
pub open spec fn differs_in_record_hash(a: InputID, b: InputID) -> bool {
    a != b && a is Record && b is Record && a->Record_1 == b->Record_1
}

/// With another commitment, serial number or tag in the ID of one record
/// input, the inputs are checked without error as before, and add the same
/// to the message.
pub proof fn lemma_record_id_keeps_message<N: Network>(
    state: VerifierState,
    program_id: ProgramIDView,
    signature: Option<Signature>,
    input_ids: Seq<InputID>,
    inputs: Seq<ValueView>,
    input_types: Seq<ValueTypeView>,
    i: int,
    input_id: InputID,
    n: nat,
)
    requires
        0 <= i < input_ids.len(),
        n <= input_ids.len(),
        differs_in_record_hash(input_ids[i], input_id),
        spec_check_inputs::<N>(state, program_id, signature, input_ids, inputs, input_types, n)
            is Ok,
    ensures
        spec_check_inputs::<N>(
            state,
            program_id,
            signature,
            input_ids.update(i, input_id),
            inputs,
            input_types,
            n,
        ) is Ok,
        spec_check_inputs::<N>(
            state,
            program_id,
            signature,
            input_ids.update(i, input_id),
            inputs,
            input_types,
            n,
        ).unwrap().1 == spec_check_inputs::<N>(
            state,
            program_id,
            signature,
            input_ids,
            inputs,
            input_types,
            n,
        ).unwrap().1,
    decreases n,
{
    if n > 0 {
        lemma_record_id_keeps_message::<N>(
            state,
            program_id,
            signature,
            input_ids,
            inputs,
            input_types,
            i,
            input_id,
            (n - 1) as nat,
        );
        if n - 1 != i {
            assert(input_ids.update(i, input_id)[n - 1] == input_ids[n - 1]);
        }
    }
}

/// Tamper sensitivity, record IDs: a valid request with another commitment,
/// serial number or tag in the ID of a record input is checked without error
/// and found invalid.
pub proof fn law_tampered_record_id_is_false<N: Network>(
    request: RequestView,
    input_types: Seq<ValueTypeView>,
    tpk: Group,
    i: int,
    input_id: InputID,
)
    requires
        spec_verify::<N>(request, input_types, tpk) == Ok::<bool, RequestError>(true),
        0 <= i < request.input_ids.len(),
        differs_in_record_hash(request.input_ids[i], input_id),
    ensures
        spec_verify::<N>(
            RequestView { input_ids: request.input_ids.update(i, input_id), ..request },
            input_types,
            tpk,
        ) == Ok::<bool, RequestError>(false),
{
    lemma_valid_request_inputs_match::<N>(request, input_types, tpk);
    let state = VerifierState {
        function_id: crate::request::spec_function_id::<N>(
            request.network_id,
            request.program_id,
            request.function_name,
        ).unwrap(),
        caller: request.caller,
        sk_tag: request.sk_tag,
        tvk: request.tvk,
        tcm: request.tcm,
    };
    lemma_record_id_keeps_message::<N>(
        state,
        request.program_id,
        Some(request.signature),
        request.input_ids,
        request.inputs,
        input_types,
        i,
        input_id,
        request.input_ids.len(),
    );
    law_tampered_input_id_is_rejected::<N>(request, input_types, tpk, i, input_id);
}

/// Tamper sensitivity, challenge: a valid request without record inputs,
/// with another challenge in its place, is checked without error and found
/// invalid.
pub proof fn law_tampered_challenge_is_false<N: Network>(
    request: RequestView,
    input_types: Seq<ValueTypeView>,
    tpk: Group,
    challenge: Scalar,
)
    requires
        spec_verify::<N>(request, input_types, tpk) == Ok::<bool, RequestError>(true),
        no_record_ids(request.input_ids, request.input_ids.len()),
        challenge != request.signature.challenge,
    ensures
        spec_verify::<N>(
            RequestView { signature: Signature { challenge, ..request.signature }, ..request },
            input_types,
            tpk,
        ) == Ok::<bool, RequestError>(false),
{
    lemma_valid_request_inputs_match::<N>(request, input_types, tpk);
    let state = VerifierState {
        function_id: crate::request::spec_function_id::<N>(
            request.network_id,
            request.program_id,
            request.function_name,
        ).unwrap(),
        caller: request.caller,
        sk_tag: request.sk_tag,
        tvk: request.tvk,
        tcm: request.tcm,
    };
    lemma_message_without_records::<N>(
        state,
        request.program_id,
        request.signature,
        Signature { challenge, ..request.signature },
        request.input_ids,
        request.inputs,
        input_types,
        request.input_ids.len(),
    );
}

/// Tamper sensitivity, response: a valid request without record inputs,
/// with a response in its place that stands for another scalar, is checked
/// without error and found invalid.
pub proof fn law_tampered_response_is_false<N: Network>(
    request: RequestView,
    input_types: Seq<ValueTypeView>,
    tpk: Group,
    response: Scalar,
)
    requires
        spec_verify::<N>(request, input_types, tpk) == Ok::<bool, RequestError>(true),
        no_record_ids(request.input_ids, request.input_ids.len()),
        response.value() % N::scalar_modulus() != request.signature.response.value()
            % N::scalar_modulus(),
    ensures
        spec_verify::<N>(
            RequestView { signature: Signature { response, ..request.signature }, ..request },
            input_types,
            tpk,
        ) == Ok::<bool, RequestError>(false),
{
    lemma_valid_request_inputs_match::<N>(request, input_types, tpk);
    let state = VerifierState {
        function_id: crate::request::spec_function_id::<N>(
            request.network_id,
            request.program_id,
            request.function_name,
        ).unwrap(),
        caller: request.caller,
        sk_tag: request.sk_tag,
        tvk: request.tvk,
        tcm: request.tcm,
    };
    lemma_message_without_records::<N>(
        state,
        request.program_id,
        request.signature,
        Signature { response, ..request.signature },
        request.input_ids,
        request.inputs,
        input_types,
        request.input_ids.len(),
    );
    law_tampered_response_is_rejected::<N>(request, input_types, tpk, response);
}

} // verus!
