//! The third test network: its constants, and the table of generator powers
//! by which its scalar multiplication is computed.

use vstd::prelude::*;
use crate::environment::{group_sum, Environment};
use crate::field::{Group, Scalar, FIELD_BITS};

verus! {

/// A point doubled `n` times.
pub open spec fn doubled<E: Environment>(point: Group, n: nat) -> Group
    decreases n,
{
    if n == 0 {
        point
    } else {
        group_sum::<E>(doubled::<E>(point, (n - 1) as nat), doubled::<E>(point, (n - 1) as nat))
    }
}

/// Whether the bit at a place of a scalar's encoding is set.
pub open spec fn scalar_bit(scalar: Scalar, i: int) -> bool {
    scalar.repr.bits_le()[i]
}

/// The sum of the first `n` bases at whose place the scalar's bit is set.
pub open spec fn selected_sum<E: Environment>(bases: Seq<Group>, scalar: Scalar, n: nat) -> Group
    decreases n,
{
    if n == 0 {
        E::point(0)
    } else if scalar_bit(scalar, n - 1) {
        group_sum::<E>(selected_sum::<E>(bases, scalar, (n - 1) as nat), bases[n - 1])
    } else {
        selected_sum::<E>(bases, scalar, (n - 1) as nat)
    }
}

/// The third test network.
#[derive(Copy, Clone, Debug, PartialEq, Eq, Hash)]
pub struct Testnet3;

impl Testnet3 {
    /// The network edition.
    pub const EDITION: u16 = 0;

    /// The network ID.
    pub const ID: u16 = 3;

    /// The message that the generator of the signature and encryption
    /// schemes is hashed from.
    pub fn generator_message() -> (r: &'static str)
        ensures
            r@ == "AleoAccountEncryptionAndSignatureScheme0"@,
    {
        "AleoAccountEncryptionAndSignatureScheme0"
    }

    /// The network name.
    pub fn name() -> (r: &'static str)
        ensures
            r@ == "Aleo Testnet 3"@,
    {
        "Aleo Testnet 3"
    }

    /// Initializes a new instance of group bases from a given input domain
    /// message: the point that the message is hashed to, doubled again and
    /// again, once for each bit of a scalar.
    pub fn new_bases<E: Environment>(message: &str) -> (r: Vec<Group>)
        ensures
            r@.len() == FIELD_BITS,
            forall|i: int| 0 <= i < r@.len() ==> r@[i] == doubled::<E>(E::curve_hash(message@), i as nat),
    {
        // Hash the given message to a point on the curve, to initialize the starting base.
        let base = E::hash_to_curve(message);

        // Compute the bases up to the size of the scalar field (in bits).
        let mut g = base;
        let mut g_bases: Vec<Group> = Vec::new();
        let mut i: usize = 0;
        while i < FIELD_BITS
            invariant
                i <= FIELD_BITS,
                g_bases@.len() == i,
                g == doubled::<E>(base, i as nat),
                base == E::curve_hash(message@),
                forall|j: int| 0 <= j < i ==> g_bases@[j] == doubled::<E>(base, j as nat),
            decreases FIELD_BITS - i,
        {
            g_bases.push(g);
            g = E::group_add(&g, &g);
            i += 1;
        }
        g_bases
    }

    /// Returns the powers of `G`.
    pub fn g_powers<E: Environment>() -> (r: Vec<Group>)
        ensures
            r@.len() == FIELD_BITS,
            forall|i: int| 0 <= i < r@.len() ==> r@[i] == doubled::<E>(
                E::curve_hash("AleoAccountEncryptionAndSignatureScheme0"@),
                i as nat,
            ),
    {
        Self::new_bases::<E>(Self::generator_message())
    }

    /// Returns the scalar multiplication on the generator `G`: the sum of the
    /// powers of `G` at whose place the scalar's bit is set.
    pub fn g_scalar_multiply<E: Environment>(scalar: &Scalar) -> (r: Group)
        ensures
            r == selected_sum::<E>(
                Seq::new(
                    FIELD_BITS as nat,
                    |i: int|
                        doubled::<E>(
                            E::curve_hash("AleoAccountEncryptionAndSignatureScheme0"@),
                            i as nat,
                        ),
                ),
                *scalar,
                FIELD_BITS as nat,
            ),
    {
        let bases = Self::g_powers::<E>();
        assert(bases@ =~= Seq::new(
            FIELD_BITS as nat,
            |i: int|
                doubled::<E>(E::curve_hash("AleoAccountEncryptionAndSignatureScheme0"@), i as nat),
        ));
        Self::scalar_multiply::<E>(&bases, scalar)
    }

    /// Returns the sum of the bases at whose place the scalar's bit is set.
    pub fn scalar_multiply<E: Environment>(bases: &Vec<Group>, scalar: &Scalar) -> (r: Group)
        requires
            bases@.len() == FIELD_BITS,
        ensures
            r == selected_sum::<E>(bases@, *scalar, FIELD_BITS as nat),
    {
        let mut bits: Vec<bool> = Vec::new();
        scalar.repr.push_bits_le(&mut bits);
        assert(bits@ =~= scalar.repr.bits_le());
        let mut sum = E::group_zero();
        let mut i: usize = 0;
        while i < FIELD_BITS
            invariant
                i <= FIELD_BITS,
                bases@.len() == FIELD_BITS,
                bits@ == scalar.repr.bits_le(),
                bits@.len() == FIELD_BITS,
                sum == selected_sum::<E>(bases@, *scalar, i as nat),
            decreases FIELD_BITS - i,
        {
            if bits[i] {
                sum = E::group_add(&sum, &bases[i]);
            }
            i += 1;
        }
        sum
    }
}

} // verus!
