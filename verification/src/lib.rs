pub mod committee;
pub mod gasprice;
pub mod offsets;
pub mod transition;
pub mod types;
pub mod winning;

pub use committee::{
    compute_epoch_at_slot, compute_previous_slot, compute_shard_from_committee_index,
    get_attesting_indices, get_beacon_committee, get_committee_count_per_slot,
    get_online_validator_indices, get_total_balance, is_on_time_attestation,
};
pub use gasprice::compute_updated_gasprice;
pub use offsets::compute_offset_slots;
pub use transition::{
    get_latest_slot_for_shard, get_shard_transition_fields, hash_tree_root, process_shard_block,
};
pub use types::{
    Attestation, AttestationData, BLSSignature, BeaconState, BitList, ByteList, Checkpoint,
    CommitteeIndex, Epoch, Gwei, Root, Shard, ShardBlock, ShardState, SignedShardBlock, Slot,
};
pub use winning::get_shard_winning_roots;
