use vstd::prelude::*;

use crate::types::{
    AttestationData, BeaconState, BitList, CommitteeIndex, Epoch, Gwei, Shard, Slot,
    ValidatorIndex, EFFECTIVE_BALANCE_INCREMENT, INITIAL_ACTIVE_SHARDS, SLOTS_PER_EPOCH,
};

verus! {

/// The slot immediately before `slot`, with the genesis slot as its own
/// predecessor.
pub open spec fn prev_slot_spec(slot: Slot) -> Slot {
    if slot > 0 {
        (slot - 1) as u64
    } else {
        slot
    }
}

/// The shard crosslinked by committee `index` of a slot.
pub open spec fn shard_from_committee_spec(index: CommitteeIndex) -> Shard {
    (((index + 1) as int) % (INITIAL_ACTIVE_SHARDS as int)) as u64
}

/// The slot immediately before `slot` (the on-time attestation slot).
pub fn compute_previous_slot(slot: Slot) -> (r: Slot)
    ensures
        r == prev_slot_spec(slot),
{
    if slot > 0 {
        slot - 1
    } else {
        slot
    }
}

/// The epoch number at `slot`.
pub fn compute_epoch_at_slot(slot: Slot) -> (r: Epoch)
    ensures
        r == slot / SLOTS_PER_EPOCH,
{
    slot / SLOTS_PER_EPOCH
}

/// Number of committees in each slot of the given epoch. Registry collaborator
/// placeholder: a fixed count.
pub fn get_committee_count_per_slot(_state: &BeaconState, _epoch: Epoch) -> (r: u64)
    ensures
        r == 10,
{
    10
}

/// The shard assigned to committee `index` at a slot, with the shard start
/// value fixed at one.
pub fn compute_shard_from_committee_index(
    _state: &BeaconState,
    index: CommitteeIndex,
    _slot: Slot,
) -> (r: Shard)
    requires
        index < u64::MAX,
    ensures
        r == shard_from_committee_spec(index),
{
    (index + 1) % INITIAL_ACTIVE_SHARDS
}

/// Whether `attestation_data` claims the slot immediately preceding the
/// state's current slot.
pub fn is_on_time_attestation(state: &BeaconState, attestation_data: &AttestationData) -> (r: bool)
    ensures
        r == (attestation_data.slot == prev_slot_spec(state.slot)),
{
    attestation_data.slot == compute_previous_slot(state.slot)
}

/// The registry indices of validators currently flagged online. Registry
/// collaborator placeholder: a fixed two-validator set.
pub fn get_online_validator_indices(_state: &BeaconState) -> (v: Vec<ValidatorIndex>)
    ensures
        v@ == seq![1u64, 2u64],
{
    let mut set_of_validator_indexes: Vec<ValidatorIndex> = Vec::new();
    set_of_validator_indexes.push(1);
    set_of_validator_indexes.push(2);
    proof {
        assert(set_of_validator_indexes@ =~= seq![1u64, 2u64]);
    }
    set_of_validator_indexes
}

/// The beacon committee at a slot for an index. Shuffling collaborator
/// placeholder: a fixed two-validator committee.
pub fn get_beacon_committee(_state: &BeaconState, _slot: Slot, _index: CommitteeIndex) -> (v: Vec<
    ValidatorIndex,
>)
    ensures
        v@ == seq![1u64, 2u64],
{
    let mut set_of_validator_indexes: Vec<ValidatorIndex> = Vec::new();
    set_of_validator_indexes.push(1);
    set_of_validator_indexes.push(2);
    proof {
        assert(set_of_validator_indexes@ =~= seq![1u64, 2u64]);
    }
    set_of_validator_indexes
}

/// The attesting indices selected by `data` and the participation flags.
/// Shuffling collaborator placeholder: the fixed committee itself.
pub fn get_attesting_indices(state: &BeaconState, data: &AttestationData, _bits: &BitList) -> (v:
    Vec<ValidatorIndex>)
    ensures
        v@ == seq![1u64, 2u64],
{
    let mut set_of_validator_indexes: Vec<ValidatorIndex> = Vec::new();
    let _committee: Vec<ValidatorIndex> = get_beacon_committee(state, data.slot, data.index);
    set_of_validator_indexes.push(1);
    set_of_validator_indexes.push(2);
    proof {
        assert(set_of_validator_indexes@ =~= seq![1u64, 2u64]);
    }
    set_of_validator_indexes
}

/// The combined effective balance of `indices`. Accounting collaborator
/// placeholder: one balance increment, the documented minimum that avoids
/// divisions by zero.
pub fn get_total_balance(_state: &BeaconState, _indices: &Vec<ValidatorIndex>) -> (r: Gwei)
    ensures
        r == EFFECTIVE_BALANCE_INCREMENT,
{
    EFFECTIVE_BALANCE_INCREMENT
}

} // verus!
