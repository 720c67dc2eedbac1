use eth_validator::{
    Attestation, AttestationData, BeaconState, Checkpoint, ShardState,
};
use eth_validator::{
    compute_epoch_at_slot, compute_previous_slot, compute_shard_from_committee_index,
    get_attesting_indices, get_beacon_committee, get_committee_count_per_slot,
    get_online_validator_indices, get_shard_winning_roots, get_total_balance,
    is_on_time_attestation,
};

fn state_at_slot(slot: u64) -> BeaconState {
    BeaconState {
        shard_states: vec![ShardState { slot: 0, gasprice: 8, latest_block_root: 0 }],
        slot,
    }
}

fn attestation(slot: u64, index: u64, shard_transition_root: i32) -> Attestation {
    Attestation {
        aggregation_bits: vec![true, true],
        data: AttestationData {
            slot,
            index,
            beacon_block_root: 0,
            source: Checkpoint { root: 0, epoch: 0 },
            target: Checkpoint { root: 0, epoch: 0 },
            shard_transition_root,
        },
        signature: 0,
    }
}

// Empty-attestation case: no attestations, two empty sequences.
#[test]
fn no_attestations_yield_no_winners() {
    let state = state_at_slot(1);
    let (shards, roots) = get_shard_winning_roots(&state, &Vec::new());
    assert!(shards.is_empty());
    assert!(roots.is_empty());
}

// A committee with on-time attestations wins with its least claimed
// commitment, and contributes exactly one entry.
#[test]
fn least_commitment_wins_for_a_committee() {
    let state = state_at_slot(1);
    let attestations = vec![
        attestation(0, 2, 7),
        attestation(0, 2, 5),
        attestation(0, 2, 7),
    ];
    let (shards, roots) = get_shard_winning_roots(&state, &attestations);
    assert_eq!(shards, vec![3]);
    assert_eq!(roots, vec![5]);
}

// Quorum monotonicity: once a committee has a winner, later-sorted
// commitments of the same committee win nothing more — one entry per
// committee, and entries of distinct committees stay in committee order.
#[test]
fn at_most_one_winner_per_committee() {
    let state = state_at_slot(9);
    let attestations = vec![
        attestation(8, 4, -3),
        attestation(8, 0, 10),
        attestation(8, 4, 12),
        attestation(8, 4, 2),
    ];
    let (shards, roots) = get_shard_winning_roots(&state, &attestations);
    assert_eq!(shards, vec![1, 5]);
    assert_eq!(roots, vec![10, -3]);
}

// Off-time attestations and out-of-range committee indices win nothing.
#[test]
fn off_time_and_out_of_range_attestations_are_ignored() {
    let state = state_at_slot(5);
    let attestations = vec![
        attestation(5, 1, 3),
        attestation(3, 1, 3),
        attestation(4, 20, 3),
    ];
    let (shards, roots) = get_shard_winning_roots(&state, &attestations);
    assert!(shards.is_empty());
    assert!(roots.is_empty());
}

// Determinism: attestation arrival order does not change the outputs.
#[test]
fn winning_roots_do_not_depend_on_arrival_order() {
    let state = state_at_slot(2);
    let forward = vec![
        attestation(1, 6, 41),
        attestation(1, 6, -2),
        attestation(1, 3, 9),
    ];
    let backward = vec![
        attestation(1, 3, 9),
        attestation(1, 6, -2),
        attestation(1, 6, 41),
    ];
    let a = get_shard_winning_roots(&state, &forward);
    let b = get_shard_winning_roots(&state, &backward);
    assert_eq!(a.0, b.0);
    assert_eq!(a.1, b.1);
    assert_eq!(a.0, vec![4, 7]);
    assert_eq!(a.1, vec![9, -2]);
}

// At the genesis slot the previous slot is the slot itself, so genesis-slot
// attestations are on time.
#[test]
fn genesis_slot_is_its_own_previous_slot() {
    assert_eq!(compute_previous_slot(0), 0);
    assert_eq!(compute_previous_slot(5), 4);
    let state = state_at_slot(0);
    let attestations = vec![attestation(0, 0, 17)];
    let (shards, roots) = get_shard_winning_roots(&state, &attestations);
    assert_eq!(shards, vec![1]);
    assert_eq!(roots, vec![17]);
}

// The helper collaborators used by the selector.
#[test]
fn collaborator_helpers() {
    let state = state_at_slot(3);
    assert_eq!(compute_epoch_at_slot(0), 0);
    assert_eq!(compute_epoch_at_slot(65), 2);
    assert_eq!(get_committee_count_per_slot(&state, 0), 10);
    assert_eq!(compute_shard_from_committee_index(&state, 0, 2), 1);
    assert_eq!(compute_shard_from_committee_index(&state, 63, 2), 0);
    assert_eq!(get_online_validator_indices(&state), vec![1, 2]);
    assert_eq!(get_beacon_committee(&state, 2, 0), vec![1, 2]);
    assert_eq!(get_total_balance(&state, &vec![1, 2]), 1000000000);
    let on_time = AttestationData {
        slot: 2,
        index: 0,
        beacon_block_root: 0,
        source: Checkpoint { root: 0, epoch: 0 },
        target: Checkpoint { root: 0, epoch: 0 },
        shard_transition_root: 0,
    };
    assert!(is_on_time_attestation(&state, &on_time));
    assert_eq!(get_attesting_indices(&state, &on_time, &vec![true, false]), vec![1, 2]);
    let late = AttestationData { slot: 1, ..on_time };
    assert!(!is_on_time_attestation(&state, &late));
}
