use vstd::prelude::*;

verus! {

/// Monotonic beacon-chain time unit.
pub type Slot = u64;

/// Shard chain identifier.
pub type Shard = u64;

/// Opaque commitment to shard data (a Merkle-style root).
pub type Root = i32;

/// Shard block payload bytes.
pub type ByteList = Vec<u8>;

/// Participation flags over the seats of one committee, one flag per seat.
/// Well-formed values carry at most `MAX_VALIDATORS_PER_COMMITTEE` flags.
pub type BitList = Vec<bool>;

/// An amount in Gwei.
pub type Gwei = u64;

/// An epoch number.
pub type Epoch = u64;

/// A committee index within a slot.
pub type CommitteeIndex = u64;

/// A BLS12-381 signature envelope; its contents are out of scope here.
pub type BLSSignature = u128;

/// A validator registry index.
pub type ValidatorIndex = u64;

/// Target shard block body size the fee controller steers toward.
pub const TARGET_SHARD_BLOCK_SIZE: u64 = 262144;

/// Damping divisor of the fee controller.
pub const GASPRICE_ADJUSTMENT_COEFFICIENT: u64 = 8;

/// Ceiling of the per-shard gas price.
pub const MAX_GASPRICE: u64 = 16384;

/// Floor of the per-shard gas price.
pub const MIN_GASPRICE: u64 = 8;

/// Capacity bound of a committee participation bitlist.
pub const MAX_VALIDATORS_PER_COMMITTEE: usize = 2048;

/// Number of active shards.
pub const INITIAL_ACTIVE_SHARDS: u64 = 64;

/// Number of slots per epoch.
pub const SLOTS_PER_EPOCH: u64 = 32;

/// Unit in which effective balances are counted.
pub const EFFECTIVE_BALANCE_INCREMENT: u64 = 1000000000;

/// The slice of the global beacon state consumed here: one recorded state per
/// shard, and the current beacon slot. It is read-only input to every
/// computation in this crate; transitions are returned as new values.
pub struct BeaconState {
    pub shard_states: Vec<ShardState>,
    pub slot: Slot,
}

/// A proposed shard payload for one slot of one shard.
pub struct ShardBlock {
    pub slot: Slot,
    pub shard: Shard,
    pub body: ByteList,
}

/// A shard block together with its (opaque) signature envelope.
pub struct SignedShardBlock {
    pub message: ShardBlock,
}

/// Per-shard state snapshot: the slot of the last applied block, the adaptive
/// gas price, and the commitment of the last non-empty block.
#[derive(Clone, Copy)]
pub struct ShardState {
    pub slot: Slot,
    pub gasprice: Gwei,
    pub latest_block_root: Root,
}

/// An epoch boundary marker.
pub struct Checkpoint {
    pub root: Root,
    pub epoch: Epoch,
}

/// A validator's claim about chain and shard state at a slot.
pub struct AttestationData {
    pub slot: Slot,
    pub index: CommitteeIndex,
    pub beacon_block_root: Root,
    pub source: Checkpoint,
    pub target: Checkpoint,
    pub shard_transition_root: Root,
}

/// A signed claim plus the participation bitlist over the committee's seats.
pub struct Attestation {
    pub aggregation_bits: BitList,
    pub data: AttestationData,
    pub signature: BLSSignature,
}

} // verus!
