//! The private-transaction core of a blockchain virtual machine, verified with
//! Verus.
//!
//! * [`request`]: a caller signs a request to call a function, and a verifier
//!   checks it. The input IDs of the request are derived from the inputs by
//!   their declared visibility; the signature binds them together.
//!   [`request::laws`] proves that a signed request verifies, and that a
//!   request whose commitment, input IDs, response or challenge were changed
//!   does not.
//! * [`transition`]: a request and its response become a transition, whose
//!   ID is the Merkle root over its inputs and outputs, and which is written
//!   to bytes and read back.
//! * [`coinbase_puzzle`]: provers commit to polynomials, their solutions are
//!   accumulated into one coinbase solution, and the coinbase solution is
//!   verified against a target.
//! * [`store`]: the outputs of transitions are kept in eight maps that are
//!   written in one atomic batch.
//!
//! The cryptographic primitives are not part of this crate. The curve is a
//! type that implements [`environment::Environment`], the hash functions one
//! that implements [`network::Network`], and the polynomial commitment
//! scheme one that implements [`coinbase_puzzle::engine::PairingEngine`].
//! Every function that computes with them is verified for every
//! implementation that meets the contracts of these traits; the contracts
//! themselves are taken on trust, as are those of the wrappers of `sha2` and
//! `hex` in [`sha256`] and [`parameters`].

pub mod account;
pub mod algebra;
pub mod block;
pub mod bytes;
pub mod coinbase_puzzle;
pub mod environment;
pub mod field;
pub mod network;
pub mod package;
pub mod parameters;
pub mod program;
pub mod program_bytes;
pub mod record;
pub mod request;
pub mod sha256;
pub mod store;
pub mod testnet3;
pub mod testnet3_laws;
pub mod transition;
