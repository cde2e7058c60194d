//! The table of generator powers computes the scalar multiple.

use vstd::prelude::*;
use vstd::arithmetic::div_mod::{
    lemma_add_mod_noop, lemma_mod_bound, lemma_mod_breakdown, lemma_mul_mod_noop_general,
    lemma_small_mod,
};
use vstd::arithmetic::power2::{lemma2_to64, lemma_pow2_adds, lemma_pow2_pos, lemma_pow2_unfold, pow2};
use vstd::bits::lemma_u64_shr_is_div;
use crate::environment::{group_multiple, group_sum, Environment};
use crate::field::{limb_base, u64_bits_le, Field, Group, Scalar};
use crate::testnet3::{doubled, scalar_bit, selected_sum};

verus! {

/// The integer that the first `n` bits stand for, least significant first.
pub open spec fn bits_value(bits: Seq<bool>, n: nat) -> int
    decreases n,
{
    if n == 0 {
        0
    } else {
        bits_value(bits, (n - 1) as nat) + if bits[n - 1] {
            pow2((n - 1) as nat) as int
        } else {
            0
        }
    }
}

/// The first `n` bits of a 64-bit number stand for the number modulo `2^n`.
pub proof fn lemma_u64_bits_value(x: u64, n: nat)
    requires
        n <= 64,
    ensures
        bits_value(u64_bits_le(x, 64), n) == (x as int) % (pow2(n) as int),
    decreases n,
{
    lemma2_to64();
    if n > 0 {
        let m = (n - 1) as nat;
        lemma_u64_bits_value(x, m);
        lemma_pow2_pos(m);
        lemma_pow2_unfold(n);
        let shift = m as u64;
        lemma_u64_shr_is_div(x, shift);
        let y = x >> shift;
        assert((y & 1 == 1) == (y % 2 == 1)) by (bit_vector);
        lemma_mod_breakdown(x as int, pow2(m) as int, 2);
        assert(pow2(n) == pow2(m) * 2) by (nonlinear_arith)
            requires
                pow2(n) == 2 * pow2(m),
        ;
        assert(u64_bits_le(x, 64)[m as int] == (y & 1 == 1));
        if y % 2 == 1 {
            assert(pow2(m) * ((x as int / pow2(m) as int) % 2) == pow2(m)) by (nonlinear_arith)
                requires
                    (x as int / pow2(m) as int) % 2 == 1,
            ;
        } else {
            assert(pow2(m) * ((x as int / pow2(m) as int) % 2) == 0) by (nonlinear_arith)
                requires
                    (x as int / pow2(m) as int) % 2 == 0,
            ;
        }
    }
}

/// The bits of a list that is appended to another stand for their own
/// value, shifted by the length of the first.
pub proof fn lemma_bits_value_append(first: Seq<bool>, second: Seq<bool>, n: nat)
    requires
        n <= second.len(),
    ensures
        bits_value(first + second, first.len() + n) == bits_value(first, first.len()) + pow2(
            first.len(),
        ) * bits_value(second, n),
    decreases n,
{
    if n == 0 {
        lemma_bits_value_prefix(first, second, first.len());
    } else {
        let m = (n - 1) as nat;
        lemma_bits_value_append(first, second, m);
        lemma_pow2_adds(first.len(), m);
        assert((first + second)[first.len() as int + m as int] == second[m as int]);
        let a = pow2(first.len()) as int;
        let b = bits_value(second, m);
        let c = pow2(m) as int;
        assert(a * (b + c) == a * b + a * c) by (nonlinear_arith);
    }
}

/// The first bits of a list stand for the same value, whatever is appended.
pub proof fn lemma_bits_value_prefix(first: Seq<bool>, second: Seq<bool>, n: nat)
    requires
        n <= first.len(),
    ensures
        bits_value(first + second, n) == bits_value(first, n),
    decreases n,
{
    if n > 0 {
        lemma_bits_value_prefix(first, second, (n - 1) as nat);
    }
}

/// The 256 bits of a field element stand for its value.
pub proof fn lemma_field_bits_value(f: Field)
    ensures
        bits_value(f.bits_le(), 256) == f.value(),
{
    lemma2_to64();
    let b0 = u64_bits_le(f.l0, 64);
    let b1 = u64_bits_le(f.l1, 64);
    let b2 = u64_bits_le(f.l2, 64);
    let b3 = u64_bits_le(f.l3, 64);
    lemma_u64_bits_value(f.l0, 64);
    lemma_u64_bits_value(f.l1, 64);
    lemma_u64_bits_value(f.l2, 64);
    lemma_u64_bits_value(f.l3, 64);
    lemma_small_mod(f.l0 as nat, pow2(64));
    lemma_small_mod(f.l1 as nat, pow2(64));
    lemma_small_mod(f.l2 as nat, pow2(64));
    lemma_small_mod(f.l3 as nat, pow2(64));
    lemma_bits_value_append(b0, b1, 64);
    lemma_bits_value_append(b0 + b1, b2, 64);
    lemma_bits_value_append(b0 + b1 + b2, b3, 64);
    lemma_pow2_adds(64, 64);
    lemma_pow2_adds(128, 64);
    let b = limb_base();
    assert(pow2(64) == b);
    assert(pow2(128) == b * b);
    assert(pow2(192) == b * b * b);
    assert(f.l0 + b * f.l1 + (b * b) * f.l2 + (b * b * b) * f.l3 == f.l0 + b * (f.l1 + b * (f.l2
        + b * f.l3))) by (nonlinear_arith);
}

/// A base doubled `n` times stands for `2^n` times the multiple of `G` that
/// the base stands for.
pub proof fn lemma_doubled<E: Environment>(base: Group, n: nat)
    ensures
        E::dlog(doubled::<E>(base, n)) % E::scalar_modulus() == (pow2(n) * E::dlog(base))
            % E::scalar_modulus(),
    decreases n,
{
    E::group_model();
    lemma2_to64();
    let q = E::scalar_modulus();
    if n == 0 {
        assert(pow2(0) * E::dlog(base) == E::dlog(base)) by (nonlinear_arith)
            requires
                pow2(0) == 1,
        ;
    } else {
        let m = (n - 1) as nat;
        lemma_doubled::<E>(base, m);
        lemma_pow2_unfold(n);
        let d = E::dlog(doubled::<E>(base, m));
        let k = (d + d) % q;
        lemma_mod_bound(d + d, q);
        assert(E::dlog(E::point(k)) == k);
        lemma_small_mod(k as nat, q as nat);
        lemma_add_mod_noop(d, d, q);
        let t = pow2(m) * E::dlog(base);
        lemma_add_mod_noop(t, t, q);
        assert(pow2(n) * E::dlog(base) == t + t) by (nonlinear_arith)
            requires
                pow2(n) == 2 * pow2(m),
                t == pow2(m) * E::dlog(base),
        ;
    }
}

/// The sum of the first `n` doublings of a base at whose place the scalar's
/// bit is set stands for the value of those bits times the base.
pub proof fn lemma_selected_sum<E: Environment>(base: Group, scalar: Scalar, n: nat)
    requires
        n <= 256,
    ensures
        selected_sum::<E>(Seq::new(256, |i: int| doubled::<E>(base, i as nat)), scalar, n)
            == E::point(
            (bits_value(scalar.repr.bits_le(), n) * E::dlog(base)) % E::scalar_modulus(),
        ),
    decreases n,
{
    E::group_model();
    let q = E::scalar_modulus();
    let bases = Seq::new(256, |i: int| doubled::<E>(base, i as nat));
    let d = E::dlog(base);
    if n == 0 {
        assert(0 * d == 0);
        lemma_small_mod(0, q as nat);
    } else {
        let m = (n - 1) as nat;
        lemma_selected_sum::<E>(base, scalar, m);
        let v = bits_value(scalar.repr.bits_le(), m);
        let before = (v * d) % q;
        lemma_mod_bound(v * d, q);
        assert(E::dlog(E::point(before)) == before);
        if scalar_bit(scalar, m as int) {
            lemma_doubled::<E>(base, m);
            let b = E::dlog(bases[m as int]);
            let t = pow2(m) * d;
            // (before + b) % q == (v * d + t) % q
            lemma_add_mod_noop(v * d, b, q);
            lemma_add_mod_noop(v * d, t, q);
            lemma_add_mod_noop(before, b, q);
            lemma_small_mod(before as nat, q as nat);
            assert((v + pow2(m)) * d == v * d + t) by (nonlinear_arith)
                requires
                    t == pow2(m) * d,
            ;
        }
    }
}

/// Scalar multiplication by the table: the sum of the doublings of a base
/// at whose place the scalar's bit is set is the scalar multiple of the base.
pub proof fn law_table_computes_the_multiple<E: Environment>(base: Group, scalar: Scalar)
    ensures
        selected_sum::<E>(Seq::new(256, |i: int| doubled::<E>(base, i as nat)), scalar, 256)
            == group_multiple::<E>(base, scalar),
{
    lemma_selected_sum::<E>(base, scalar, 256);
    lemma_field_bits_value(scalar.repr);
    let v = scalar.value();
    let d = E::dlog(base);
    assert(v * d == d * v) by (nonlinear_arith);
}

} // verus!
