//! Facts of modular arithmetic on which the laws of the signature rest.

use vstd::prelude::*;
use vstd::arithmetic::div_mod::{
    lemma_add_mod_noop, lemma_fundamental_div_mod, lemma_mod_bound, lemma_mul_mod_noop_general,
    lemma_small_mod, lemma_sub_mod_noop,
};
use crate::environment::{
    encoding_bound, generator_multiple, group_multiple, group_sum, scalar_difference,
    scalar_product, Environment,
};
use crate::field::{limb_base, Group, Scalar};

verus! {

/// A scalar made from an integer below `2^256` stands for that integer.
pub proof fn lemma_scalar_from_value(v: int)
    requires
        0 <= v < encoding_bound(),
    ensures
        Scalar::from_value(v).value() == v,
{
    let b = limb_base();
    let v1 = v / b;
    let v2 = v1 / b;
    let v3 = v2 / b;
    lemma_fundamental_div_mod(v, b);
    lemma_fundamental_div_mod(v1, b);
    lemma_fundamental_div_mod(v2, b);
    lemma_mod_bound(v, b);
    lemma_mod_bound(v1, b);
    lemma_mod_bound(v2, b);
    assert(0 <= v1 < b * b * b) by (nonlinear_arith)
        requires
            0 <= v < b * b * b * b,
            v == b * v1 + v % b,
            0 <= v % b < b,
            b > 0,
    ;
    assert(0 <= v2 < b * b) by (nonlinear_arith)
        requires
            0 <= v1 < b * b * b,
            v1 == b * v2 + v1 % b,
            0 <= v1 % b < b,
            b > 0,
    ;
    assert(0 <= v3 < b) by (nonlinear_arith)
        requires
            0 <= v2 < b * b,
            v2 == b * v3 + v2 % b,
            0 <= v2 % b < b,
            b > 0,
    ;
    lemma_small_mod(v3 as nat, b as nat);
    assert(v == v % b + b * (v1 % b + b * (v2 % b + b * v3))) by (nonlinear_arith)
        requires
            v == b * v1 + v % b,
            v1 == b * v2 + v1 % b,
            v2 == b * v3 + v2 % b,
    ;
}

/// The identity behind a signature's response: with `m = (c * s) mod q`,
/// `d * s * c + d * (r - m)` is `d * r` modulo `q`.
pub proof fn lemma_response_identity(q: int, d: int, s: int, c: int, r: int)
    requires
        q > 0,
    ensures
        ((((d * s) % q) * c) % q + (d * ((r - (c * s) % q) % q)) % q) % q == (d * r) % q,
{
    let m = (c * s) % q;
    lemma_mul_mod_noop_general(d * s, c, q);
    lemma_mul_mod_noop_general(d, r - m, q);
    lemma_mul_mod_noop_general(d, c * s, q);
    lemma_add_mod_noop((d * s) * c, d * (r - m), q);
    let x = (d * s) * c + d * r;
    let y = d * m;
    assert((d * s) * c + d * (r - m) == x - y) by (nonlinear_arith)
        requires
            x == (d * s) * c + d * r,
            y == d * m,
    ;
    lemma_sub_mod_noop(x, y, q);
    lemma_sub_mod_noop(x, d * (c * s), q);
    assert(x - d * (c * s) == d * r) by (nonlinear_arith)
        requires
            x == (d * s) * c + d * r,
    ;
}

/// With `response = r - challenge * sk`, the point `r * H` is recovered from
/// `gamma = sk * H` without `r`, as `challenge * gamma + response * H`.
pub proof fn lemma_recover_multiple<E: Environment>(
    h: Group,
    sk: Scalar,
    challenge: Scalar,
    r: Scalar,
)
    ensures
        group_sum::<E>(
            group_multiple::<E>(group_multiple::<E>(h, sk), challenge),
            group_multiple::<E>(h, scalar_difference::<E>(r, scalar_product::<E>(challenge, sk))),
        ) == group_multiple::<E>(h, r),
{
    E::group_model();
    let q = E::scalar_modulus();
    let d = E::dlog(h);
    let m = (challenge.value() * sk.value()) % q;
    lemma_mod_bound(challenge.value() * sk.value(), q);
    lemma_scalar_from_value(m);
    let rv = (r.value() - m) % q;
    lemma_mod_bound(r.value() - m, q);
    lemma_scalar_from_value(rv);
    lemma_mod_bound(d * sk.value(), q);
    lemma_mod_bound(((d * sk.value()) % q) * challenge.value(), q);
    lemma_mod_bound(d * rv, q);
    lemma_response_identity(q, d, sk.value(), challenge.value(), r.value());
}

/// With `response = r - challenge * sk`, the point `r * G` is recovered from
/// `pk = sk * G` without `r`, as `response * G + challenge * pk`.
pub proof fn lemma_recover_generator_multiple<E: Environment>(
    sk: Scalar,
    challenge: Scalar,
    r: Scalar,
)
    ensures
        group_sum::<E>(
            generator_multiple::<E>(scalar_difference::<E>(r, scalar_product::<E>(challenge, sk))),
            group_multiple::<E>(generator_multiple::<E>(sk), challenge),
        ) == generator_multiple::<E>(r),
{
    E::group_model();
    let q = E::scalar_modulus();
    let m = (challenge.value() * sk.value()) % q;
    lemma_mod_bound(challenge.value() * sk.value(), q);
    lemma_scalar_from_value(m);
    let rv = (r.value() - m) % q;
    lemma_mod_bound(r.value() - m, q);
    lemma_scalar_from_value(rv);
    lemma_mod_bound(sk.value(), q);
    lemma_mod_bound(rv, q);
    lemma_mod_bound((sk.value() % q) * challenge.value(), q);
    lemma_response_identity(q, 1, sk.value(), challenge.value(), r.value());
    assert(1 * sk.value() == sk.value());
    assert(1 * rv == rv);
    assert(1 * r.value() == r.value());
    lemma_add_mod_noop(
        rv % q,
        ((sk.value() % q) * challenge.value()) % q,
        q,
    );
    lemma_add_mod_noop(rv, ((sk.value() % q) * challenge.value()) % q, q);
}

} // verus!
