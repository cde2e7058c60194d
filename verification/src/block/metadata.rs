//! The metadata of a block header.

use vstd::prelude::*;
use crate::network::Network;

verus! {

/// Block metadata that is not well-formed.
#[derive(Clone, Copy, PartialEq, Eq, Structural, Debug)]
pub struct InvalidMetadata {
    /// The metadata that was refused.
    pub metadata: Metadata,
}

/// The metadata of a block header.
#[derive(Clone, Copy, PartialEq, Eq, Structural, Debug, Hash)]
pub struct Metadata {
    /// The network ID of the block.
    pub network: u16,
    /// The round that produced this block - 8 bytes.
    pub round: u64,
    /// The height of this block - 4 bytes.
    pub height: u32,
    /// The coinbase target for this block - 8 bytes.
    pub coinbase_target: u64,
    /// The proof target for this block - 8 bytes.
    pub proof_target: u64,
    /// The coinbase target for the last coinbase - 8 bytes.
    pub last_coinbase_target: u64,
    /// The Unix timestamp (UTC) for the last coinbase - 8 bytes.
    pub last_coinbase_timestamp: i64,
    /// The Unix timestamp (UTC) for this block - 8 bytes.
    pub timestamp: i64,
}

impl Metadata {
    /// Whether the metadata is that of a genesis block: round and height 0,
    /// and the targets and timestamps of the network's genesis.
    pub open spec fn spec_is_genesis<N: Network>(self) -> bool {
        &&& self.network == N::ID
        &&& self.round == 0
        &&& self.height == 0
        &&& self.coinbase_target == N::GENESIS_COINBASE_TARGET
        &&& self.proof_target == N::GENESIS_PROOF_TARGET
        &&& self.last_coinbase_target == N::GENESIS_COINBASE_TARGET
        &&& self.last_coinbase_timestamp == N::GENESIS_TIMESTAMP
        &&& self.timestamp == N::GENESIS_TIMESTAMP
    }

    /// Whether the metadata is well-formed: at height 0 that of a genesis
    /// block, and else of the network, with a nonzero round, targets at or
    /// above the genesis targets, a coinbase target above the proof target,
    /// and timestamps not before the genesis timestamp.
    pub open spec fn spec_is_valid<N: Network>(self) -> bool {
        if self.height == 0 {
            self.spec_is_genesis::<N>()
        } else {
            &&& self.network == N::ID
            &&& self.round != 0
            &&& self.coinbase_target >= N::GENESIS_COINBASE_TARGET
            &&& self.proof_target >= N::GENESIS_PROOF_TARGET
            &&& self.coinbase_target > self.proof_target
            &&& self.last_coinbase_target >= N::GENESIS_COINBASE_TARGET
            &&& self.last_coinbase_timestamp >= N::GENESIS_TIMESTAMP
            &&& self.timestamp > N::GENESIS_TIMESTAMP
        }
    }

    /// Initializes a new metadata with the given inputs.
    pub fn new<N: Network>(
        network: u16,
        round: u64,
        height: u32,
        coinbase_target: u64,
        proof_target: u64,
        last_coinbase_target: u64,
        last_coinbase_timestamp: i64,
        timestamp: i64,
    ) -> (r: Result<Metadata, InvalidMetadata>)
        ensures
            r == (if (Metadata {
                network,
                round,
                height,
                coinbase_target,
                proof_target,
                last_coinbase_target,
                last_coinbase_timestamp,
                timestamp,
            }).spec_is_valid::<N>() {
                Ok::<Metadata, InvalidMetadata>(
                    Metadata {
                        network,
                        round,
                        height,
                        coinbase_target,
                        proof_target,
                        last_coinbase_target,
                        last_coinbase_timestamp,
                        timestamp,
                    },
                )
            } else {
                Err::<Metadata, InvalidMetadata>(
                    InvalidMetadata {
                        metadata: Metadata {
                            network,
                            round,
                            height,
                            coinbase_target,
                            proof_target,
                            last_coinbase_target,
                            last_coinbase_timestamp,
                            timestamp,
                        },
                    },
                )
            }),
    {
        // Construct a new metadata.
        let metadata = Metadata {
            network,
            round,
            height,
            coinbase_target,
            proof_target,
            last_coinbase_target,
            last_coinbase_timestamp,
            timestamp,
        };
        // Ensure the header is valid.
        if metadata.is_valid::<N>() {
            Ok(metadata)
        } else {
            Err(InvalidMetadata { metadata })
        }
    }

    /// Returns `true` if the metadata is a genesis metadata.
    pub fn is_genesis<N: Network>(&self) -> (r: bool)
        ensures
            r == self.spec_is_genesis::<N>(),
    {
        // Ensure the network ID in the genesis block is correct.
        self.network == N::ID
            // Ensure the round in the genesis block is 0.
            && self.round == 0u64
            // Ensure the height in the genesis block is 0.
            && self.height == 0u32
            // Ensure the coinbase target in the genesis block is correct.
            && self.coinbase_target == N::GENESIS_COINBASE_TARGET
            // Ensure the proof target in the genesis block is correct.
            && self.proof_target == N::GENESIS_PROOF_TARGET
            // Ensure the last coinbase target in the genesis block is correct.
            && self.last_coinbase_target == N::GENESIS_COINBASE_TARGET
            // Ensure the last coinbase timestamp in the genesis block is correct.
            && self.last_coinbase_timestamp == N::GENESIS_TIMESTAMP
            // Ensure the timestamp in the genesis block is correct.
            && self.timestamp == N::GENESIS_TIMESTAMP
    }

    /// Returns `true` if the block header is well-formed.
    pub fn is_valid<N: Network>(&self) -> (r: bool)
        ensures
            r == self.spec_is_valid::<N>(),
    {
        if self.height == 0u32 {
            self.is_genesis::<N>()
        } else {
            // Ensure the network ID is correct.
            self.network == N::ID
                // Ensure the round is nonzero.
                && self.round != 0u64
                // Ensure the height is nonzero.
                && self.height != 0u32
                // Ensure the coinbase target is at or above the minimum.
                && self.coinbase_target >= N::GENESIS_COINBASE_TARGET
                // Ensure the proof target is at or above the minimum.
                && self.proof_target >= N::GENESIS_PROOF_TARGET
                // Ensure the coinbase target is larger than the proof target.
                && self.coinbase_target > self.proof_target
                // Ensure the last coinbase target is at or above the minimum.
                && self.last_coinbase_target >= N::GENESIS_COINBASE_TARGET
                // Ensure the last coinbase timestamp is after the genesis timestamp.
                && self.last_coinbase_timestamp >= N::GENESIS_TIMESTAMP
                // Ensure the timestamp in the block is after the genesis timestamp.
                && self.timestamp > N::GENESIS_TIMESTAMP
        }
    }

    /// Returns the network ID of the block.
    pub fn network(&self) -> (r: u16)
        ensures
            r == self.network,
    {
        self.network
    }

    /// Returns the round number of the block.
    pub fn round(&self) -> (r: u64)
        ensures
            r == self.round,
    {
        self.round
    }

    /// Returns the height of the block.
    pub fn height(&self) -> (r: u32)
        ensures
            r == self.height,
    {
        self.height
    }

    /// Returns the coinbase target for this block.
    pub fn coinbase_target(&self) -> (r: u64)
        ensures
            r == self.coinbase_target,
    {
        self.coinbase_target
    }

    /// Returns the proof target for this block.
    pub fn proof_target(&self) -> (r: u64)
        ensures
            r == self.proof_target,
    {
        self.proof_target
    }

    /// Returns the coinbase target of the last coinbase.
    pub fn last_coinbase_target(&self) -> (r: u64)
        ensures
            r == self.last_coinbase_target,
    {
        self.last_coinbase_target
    }

    /// Returns the Unix timestamp (UTC) of the last coinbase.
    pub fn last_coinbase_timestamp(&self) -> (r: i64)
        ensures
            r == self.last_coinbase_timestamp,
    {
        self.last_coinbase_timestamp
    }

    /// Returns the Unix timestamp (UTC) for this block.
    pub fn timestamp(&self) -> (r: i64)
        ensures
            r == self.timestamp,
    {
        self.timestamp
    }
}

} // verus!
