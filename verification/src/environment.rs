//! The curve that a network computes on: its scalars and its group.

use vstd::prelude::*;
use crate::field::{limb_base, Field, Group, Scalar};

verus! {

/// `2^256`, the number of scalar encodings.
pub open spec fn encoding_bound() -> int {
    limb_base() * limb_base() * limb_base() * limb_base()
}

/// The arithmetic of a curve whose group is cyclic with generator `G`.
///
/// The group is described by two spec functions: `point(k)` is the encoding of
/// `k * G`, and `dlog(p)` is the multiple of `G` that the encoding `p` stands
/// for. An implementation is trusted to meet the contracts below on every
/// input; nothing in this crate checks one.
pub trait Environment: Sized {
    /// The order of the group, which is the modulus of the scalars.
    spec fn scalar_modulus() -> int;

    /// The encoding of `k * G`.
    spec fn point(k: int) -> Group;

    /// The `k` for which an encoding stands for `k * G`.
    spec fn dlog(p: Group) -> int;

    /// The sum of two field elements.
    spec fn field_sum(a: Field, b: Field) -> Field;

    /// The product of two field elements.
    spec fn field_product(a: Field, b: Field) -> Field;

    /// The point that a message is hashed to.
    spec fn curve_hash(message: Seq<char>) -> Group;

    /// The group's order is positive and fits the scalar encoding, and the
    /// multiples of `G` below the order have distinct encodings.
    proof fn group_model()
        ensures
            0 < Self::scalar_modulus() <= encoding_bound(),
            forall|k: int|
                0 <= k < Self::scalar_modulus() ==> #[trigger] Self::dlog(Self::point(k)) == k,
    ;

    /// Adds two field elements.
    fn field_add(a: &Field, b: &Field) -> (r: Field)
        ensures
            r == Self::field_sum(*a, *b),
    ;

    /// Multiplies two field elements.
    fn field_mul(a: &Field, b: &Field) -> (r: Field)
        ensures
            r == Self::field_product(*a, *b),
    ;

    /// Adds two scalars.
    fn scalar_add(a: &Scalar, b: &Scalar) -> (r: Scalar)
        ensures
            r == Scalar::from_value((a.value() + b.value()) % Self::scalar_modulus()),
    ;

    /// Subtracts one scalar from another.
    fn scalar_sub(a: &Scalar, b: &Scalar) -> (r: Scalar)
        ensures
            r == Scalar::from_value((a.value() - b.value()) % Self::scalar_modulus()),
    ;

    /// Multiplies two scalars.
    fn scalar_mul(a: &Scalar, b: &Scalar) -> (r: Scalar)
        ensures
            r == Scalar::from_value((a.value() * b.value()) % Self::scalar_modulus()),
    ;

    /// The identity of the group.
    fn group_zero() -> (r: Group)
        ensures
            r == Self::point(0),
    ;

    /// Adds two points.
    fn group_add(p: &Group, q: &Group) -> (r: Group)
        ensures
            r == Self::point((Self::dlog(*p) + Self::dlog(*q)) % Self::scalar_modulus()),
    ;

    /// Multiplies a point by a scalar.
    fn group_scale(p: &Group, s: &Scalar) -> (r: Group)
        ensures
            r == Self::point((Self::dlog(*p) * s.value()) % Self::scalar_modulus()),
    ;

    /// Hashes a message to a point of the group.
    fn hash_to_curve(message: &str) -> (r: Group)
        ensures
            r == Self::curve_hash(message@),
    ;
}

/// `a + b` modulo the group's order.
pub open spec fn scalar_sum<E: Environment>(a: Scalar, b: Scalar) -> Scalar {
    Scalar::from_value((a.value() + b.value()) % E::scalar_modulus())
}

/// `a - b` modulo the group's order.
pub open spec fn scalar_difference<E: Environment>(a: Scalar, b: Scalar) -> Scalar {
    Scalar::from_value((a.value() - b.value()) % E::scalar_modulus())
}

/// `a * b` modulo the group's order.
pub open spec fn scalar_product<E: Environment>(a: Scalar, b: Scalar) -> Scalar {
    Scalar::from_value((a.value() * b.value()) % E::scalar_modulus())
}

/// `p + q`.
pub open spec fn group_sum<E: Environment>(p: Group, q: Group) -> Group {
    E::point((E::dlog(p) + E::dlog(q)) % E::scalar_modulus())
}

/// `s * p`.
pub open spec fn group_multiple<E: Environment>(p: Group, s: Scalar) -> Group {
    E::point((E::dlog(p) * s.value()) % E::scalar_modulus())
}

/// `s * G`.
pub open spec fn generator_multiple<E: Environment>(s: Scalar) -> Group {
    E::point(s.value() % E::scalar_modulus())
}

} // verus!
