//! Identity derivation: from a private key to the compute key, the view key,
//! the graph key and the address.

use vstd::prelude::*;
use crate::environment::{generator_multiple, group_sum, scalar_sum};
use crate::field::{Address, Field, Group, Scalar};
use crate::network::Network;

verus! {

/// A private key: the signing scalar `sk_sig` and the randomizer `r_sig`.
#[derive(Clone, Copy, PartialEq, Eq, Structural, Debug)]
pub struct PrivateKey {
    pub seed: Field,
    pub sk_sig: Scalar,
    pub r_sig: Scalar,
}

impl PrivateKey {
    /// The signing scalar.
    pub fn sk_sig(&self) -> (r: Scalar)
        ensures
            r == self.sk_sig,
    {
        self.sk_sig
    }

    /// The signature randomizer.
    pub fn r_sig(&self) -> (r: Scalar)
        ensures
            r == self.r_sig,
    {
        self.r_sig
    }
}

/// A compute key: `pk_sig = sk_sig * G`, `pr_sig = r_sig * G`, and the scalar
/// `sk_prf` hashed from the two.
#[derive(Clone, Copy, PartialEq, Eq, Structural, Debug)]
pub struct ComputeKey {
    pub pk_sig: Group,
    pub pr_sig: Group,
    pub sk_prf: Scalar,
}

/// The compute key of a private key; `None` where the hash to `sk_prf` fails.
pub open spec fn spec_compute_key<N: Network>(private_key: PrivateKey) -> Option<ComputeKey> {
    let pk_sig = generator_multiple::<N>(private_key.sk_sig);
    let pr_sig = generator_multiple::<N>(private_key.r_sig);
    match N::spec_hash_to_scalar_psd4(seq![pk_sig.x, pr_sig.x]) {
        Some(sk_prf) => Some(ComputeKey { pk_sig, pr_sig, sk_prf }),
        None => None,
    }
}

/// The address of a compute key: `pk_sig + pr_sig + sk_prf * G`.
pub open spec fn spec_address<N: Network>(compute_key: ComputeKey) -> Address {
    Address {
        point: group_sum::<N>(
            group_sum::<N>(compute_key.pk_sig, compute_key.pr_sig),
            generator_multiple::<N>(compute_key.sk_prf),
        ),
    }
}

/// The view key of a private key: `sk_sig + r_sig + sk_prf`.
pub open spec fn spec_view_key<N: Network>(private_key: PrivateKey) -> Option<ViewKey> {
    match spec_compute_key::<N>(private_key) {
        Some(compute_key) => Some(
            ViewKey {
                scalar: scalar_sum::<N>(
                    scalar_sum::<N>(private_key.sk_sig, private_key.r_sig),
                    compute_key.sk_prf,
                ),
            },
        ),
        None => None,
    }
}

/// The tag key of a view key: the hash of the graph key domain, the view key and zero.
pub open spec fn spec_sk_tag<N: Network>(view_key: ViewKey) -> Option<Field> {
    N::spec_hash_psd4(
        seq![
            N::spec_graph_key_domain(),
            view_key.scalar.repr,
            Field { l0: 0, l1: 0, l2: 0, l3: 0 },
        ],
    )
}

impl ComputeKey {
    /// Derives the compute key of a private key.
    pub fn from_private_key<N: Network>(private_key: &PrivateKey) -> (r: Option<ComputeKey>)
        ensures
            r == spec_compute_key::<N>(*private_key),
    {
        let pk_sig = N::g_scalar_multiply(&private_key.sk_sig);
        let pr_sig = N::g_scalar_multiply(&private_key.r_sig);
        let mut preimage: Vec<Field> = Vec::new();
        preimage.push(pk_sig.to_x_coordinate());
        preimage.push(pr_sig.to_x_coordinate());
        assert(preimage@ =~= seq![pk_sig.x, pr_sig.x]);
        match N::hash_to_scalar_psd4(&preimage) {
            Some(sk_prf) => Some(ComputeKey { pk_sig, pr_sig, sk_prf }),
            None => None,
        }
    }

    /// The signature public key.
    pub fn pk_sig(&self) -> (r: Group)
        ensures
            r == self.pk_sig,
    {
        self.pk_sig
    }

    /// The signature public randomizer.
    pub fn pr_sig(&self) -> (r: Group)
        ensures
            r == self.pr_sig,
    {
        self.pr_sig
    }

    /// The address of the compute key.
    pub fn to_address<N: Network>(&self) -> (r: Address)
        ensures
            r == spec_address::<N>(*self),
    {
        let pk_prf = N::g_scalar_multiply(&self.sk_prf);
        let sum = N::group_add(&self.pk_sig, &self.pr_sig);
        Address { point: N::group_add(&sum, &pk_prf) }
    }
}

/// A view key.
#[derive(Clone, Copy, PartialEq, Eq, Structural, Debug)]
pub struct ViewKey {
    pub scalar: Scalar,
}

impl ViewKey {
    /// Derives the view key of a private key.
    pub fn from_private_key<N: Network>(private_key: &PrivateKey) -> (r: Option<ViewKey>)
        ensures
            r == spec_view_key::<N>(*private_key),
    {
        match ComputeKey::from_private_key::<N>(private_key) {
            Some(compute_key) => {
                let sum = N::scalar_add(&private_key.sk_sig, &private_key.r_sig);
                Some(ViewKey { scalar: N::scalar_add(&sum, &compute_key.sk_prf) })
            },
            None => None,
        }
    }
}

/// A graph key, which holds the tag key `sk_tag`.
#[derive(Clone, Copy, PartialEq, Eq, Structural, Debug)]
pub struct GraphKey {
    pub sk_tag: Field,
}

impl GraphKey {
    /// Derives the graph key of a view key.
    pub fn from_view_key<N: Network>(view_key: &ViewKey) -> (r: Option<GraphKey>)
        ensures
            r matches Some(key) ==> spec_sk_tag::<N>(*view_key) == Some(key.sk_tag),
            r is None ==> spec_sk_tag::<N>(*view_key) is None,
    {
        let mut preimage: Vec<Field> = Vec::new();
        preimage.push(N::graph_key_domain());
        preimage.push(view_key.scalar.to_field());
        preimage.push(Field::zero());
        assert(preimage@ =~= seq![
            N::spec_graph_key_domain(),
            view_key.scalar.repr,
            Field { l0: 0, l1: 0, l2: 0, l3: 0 },
        ]);
        match N::hash_psd4(&preimage) {
            Some(sk_tag) => Some(GraphKey { sk_tag }),
            None => None,
        }
    }

    /// The tag key.
    pub fn sk_tag(&self) -> (r: Field)
        ensures
            r == self.sk_tag,
    {
        self.sk_tag
    }
}

/// A signature: the challenge, the response and the signer's compute key.
#[derive(Clone, Copy, PartialEq, Eq, Structural, Debug)]
pub struct Signature {
    pub challenge: Scalar,
    pub response: Scalar,
    pub compute_key: ComputeKey,
}

impl Signature {
    /// The challenge.
    pub fn challenge(&self) -> (r: Scalar)
        ensures
            r == self.challenge,
    {
        self.challenge
    }

    /// The response.
    pub fn response(&self) -> (r: Scalar)
        ensures
            r == self.response,
    {
        self.response
    }

    /// The signer's compute key.
    pub fn compute_key(&self) -> (r: ComputeKey)
        ensures
            r == self.compute_key,
    {
        self.compute_key
    }
}

} // verus!
