use eth_validator::{BeaconState, Shard, ShardBlock, ShardState, SignedShardBlock};
use eth_validator::get_shard_transition_fields;

#[test]
fn get_shard_transition_fields_four_signed_shards_blocks() {
    let shard_state_1 = ShardState {
        slot: 1,
        gasprice: 0,
        latest_block_root: 0,
    };

    let shard_state_2 = ShardState {
        slot: 1,
        gasprice: 0,
        latest_block_root: 0,
    };

    let shard_states = vec![shard_state_1, shard_state_2];

    let signed_shard_block_1 = SignedShardBlock {
        message: ShardBlock {
            slot: 3,
            shard: 1,
            body: vec![1, 2, 3],
        },
    };

    let signed_shard_block_2 = SignedShardBlock {
        message: ShardBlock {
            slot: 4,
            shard: 1,
            body: vec![1, 2, 3],
        },
    };

    let shard_blocks = vec![signed_shard_block_1, signed_shard_block_2];

    let beacon = BeaconState {
        shard_states,
        slot: 5,
    };

    let shard: Shard = 1;

    let result = get_shard_transition_fields(&beacon, shard, &shard_blocks);

    let expected_shard_state1 = ShardState {
        slot: 2,
        gasprice: 8,
        latest_block_root: 0,
    };
    let expected_shard_state2 = ShardState {
        slot: 3,
        gasprice: 8,
        latest_block_root: 404,
    };
    let expected_shard_state3 = ShardState {
        slot: 4,
        gasprice: 8,
        latest_block_root: 404,
    };
    let expected_shard_states = vec![
        expected_shard_state1,
        expected_shard_state2,
        expected_shard_state3,
    ];
    assert_eq!(result.0, vec![0, 3, 3]);
    assert_eq!(result.1, vec![0, 404, 404]);
    for index in 0..result.2.len() {
        assert_eq!(result.2[index].slot, expected_shard_states[index].slot);
        assert_eq!(result.2[index].gasprice, expected_shard_states[index].gasprice);
        assert_eq!(
            result.2[index].latest_block_root,
            expected_shard_states[index].latest_block_root
        );
    }
}

#[test]
fn get_shard_transition_fields_signed_shard_blocks_with_the_same_slot_number() {
    let shard_state_1 = ShardState {
        slot: 1,
        gasprice: 0,
        latest_block_root: 0,
    };

    let shard_state_2 = ShardState {
        slot: 1,
        gasprice: 0,
        latest_block_root: 0,
    };

    let shard_states = vec![shard_state_1, shard_state_2];

    let signed_shard_block_1 = SignedShardBlock {
        message: ShardBlock {
            slot: 1,
            shard: 1,
            body: vec![1, 2, 3],
        },
    };

    let signed_shard_block_2 = SignedShardBlock {
        message: ShardBlock {
            slot: 1,
            shard: 1,
            body: vec![1, 2, 3],
        },
    };

    let shard_blocks = vec![signed_shard_block_1, signed_shard_block_2];

    let beacon = BeaconState {
        shard_states,
        slot: 1,
    };

    let shard: Shard = 1;

    let result = get_shard_transition_fields(&beacon, shard, &shard_blocks);

    assert!(result.0.is_empty());
    assert!(result.1.is_empty());
    assert!(result.2.is_empty());
}

// The regression baseline: a shard two states behind a beacon slot of five,
// with three-byte candidate bodies at slots three and four, walks offset
// slots two, three and four; slot two is skipped, so it records a zero length
// and the zero commitment.
#[test]
fn end_to_end_baseline_offsets_lengths_and_default_commitment() {
    let shard_states = vec![
        ShardState { slot: 1, gasprice: 0, latest_block_root: 0 },
        ShardState { slot: 1, gasprice: 0, latest_block_root: 0 },
    ];
    let shard_blocks = vec![
        SignedShardBlock {
            message: ShardBlock { slot: 3, shard: 1, body: vec![9, 9, 9] },
        },
        SignedShardBlock {
            message: ShardBlock { slot: 4, shard: 1, body: vec![7, 7, 7] },
        },
    ];
    let beacon = BeaconState { shard_states, slot: 5 };

    let offsets = eth_validator::compute_offset_slots(1, 6);
    assert_eq!(offsets, vec![2, 3, 4]);

    let (lengths, commitments, states) = get_shard_transition_fields(&beacon, 1, &shard_blocks);
    assert_eq!(lengths, vec![0, 3, 3]);
    assert_eq!(commitments[0], 0);
    assert_eq!(states.len(), 3);
}

// Length alignment: all three output sequences share the offset-slot count.
#[test]
fn outputs_are_index_aligned_with_offset_slots() {
    let shard_states = vec![ShardState { slot: 0, gasprice: 16, latest_block_root: 5 }];
    let beacon = BeaconState { shard_states, slot: 9 };
    let blocks = vec![SignedShardBlock {
        message: ShardBlock { slot: 3, shard: 0, body: vec![1] },
    }];
    let offsets = eth_validator::compute_offset_slots(0, 10);
    let (lengths, commitments, states) = get_shard_transition_fields(&beacon, 0, &blocks);
    assert_eq!(offsets, vec![1, 2, 3, 5, 8]);
    assert_eq!(lengths.len(), offsets.len());
    assert_eq!(commitments.len(), offsets.len());
    assert_eq!(states.len(), offsets.len());
}

// Monotonic slot advance: each output state carries its offset slot, in
// strictly ascending order.
#[test]
fn state_slots_strictly_increase_and_equal_offset_slots() {
    let shard_states = vec![ShardState { slot: 2, gasprice: 100, latest_block_root: 1 }];
    let beacon = BeaconState { shard_states, slot: 40 };
    let blocks: Vec<SignedShardBlock> = Vec::new();
    let offsets = eth_validator::compute_offset_slots(2, 41);
    let (_, _, states) = get_shard_transition_fields(&beacon, 0, &blocks);
    assert_eq!(states.len(), offsets.len());
    for i in 0..states.len() {
        assert_eq!(states[i].slot, offsets[i]);
        if i > 0 {
            assert!(states[i - 1].slot < states[i].slot);
        }
    }
}

// Commitment carry-over on skip: a zero-length entry keeps the previous
// commitment, starting from the shard's prior one.
#[test]
fn skipped_slots_carry_the_previous_commitment() {
    let shard_states = vec![ShardState { slot: 1, gasprice: 50, latest_block_root: 77 }];
    let blocks = vec![SignedShardBlock {
        message: ShardBlock { slot: 3, shard: 0, body: vec![4, 4] },
    }];
    let beacon = BeaconState { shard_states, slot: 5 };
    let (lengths, _, states) = get_shard_transition_fields(&beacon, 0, &blocks);
    // offset slots are 2, 3, 4: slot 2 and slot 4 are skipped
    assert_eq!(lengths, vec![0, 2, 0]);
    assert_eq!(states[0].latest_block_root, 77);
    assert_eq!(states[1].latest_block_root, 404);
    assert_eq!(states[2].latest_block_root, 404);
}

// Skip-slot price decay along a reconstruction: skipped slots never raise a
// price already at or above the floor.
#[test]
fn skip_slots_decay_the_gas_price_toward_the_floor() {
    let shard_states = vec![ShardState { slot: 0, gasprice: 1000, latest_block_root: 0 }];
    let beacon = BeaconState { shard_states, slot: 9 };
    let blocks: Vec<SignedShardBlock> = Vec::new();
    let (_, _, states) = get_shard_transition_fields(&beacon, 0, &blocks);
    let mut prior = 1000u64;
    for state in &states {
        assert!(state.gasprice <= prior);
        assert!(state.gasprice >= 8);
        prior = state.gasprice;
    }
}

// First-match-wins on duplicate candidate slots: the first supplied candidate
// for a slot is the one applied.
#[test]
fn duplicate_candidate_slots_resolve_first_wins() {
    let shard_states = vec![ShardState { slot: 1, gasprice: 0, latest_block_root: 0 }];
    let blocks = vec![
        SignedShardBlock {
            message: ShardBlock { slot: 2, shard: 0, body: vec![1, 2] },
        },
        SignedShardBlock {
            message: ShardBlock { slot: 2, shard: 0, body: vec![3, 4, 5] },
        },
    ];
    let beacon = BeaconState { shard_states, slot: 2 };
    let (lengths, commitments, states) = get_shard_transition_fields(&beacon, 0, &blocks);
    assert_eq!(lengths, vec![2]);
    assert_eq!(commitments, vec![404]);
    assert_eq!(states[0].slot, 2);
}

// Determinism: the same inputs give the same outputs on repeated calls.
#[test]
fn transition_fields_are_deterministic() {
    let shard_states = vec![ShardState { slot: 1, gasprice: 12, latest_block_root: 3 }];
    let blocks = vec![SignedShardBlock {
        message: ShardBlock { slot: 4, shard: 0, body: vec![8, 8, 8, 8] },
    }];
    let beacon = BeaconState { shard_states, slot: 6 };
    let first = get_shard_transition_fields(&beacon, 0, &blocks);
    let second = get_shard_transition_fields(&beacon, 0, &blocks);
    assert_eq!(first.0, second.0);
    assert_eq!(first.1, second.1);
    assert_eq!(first.2.len(), second.2.len());
    for i in 0..first.2.len() {
        assert_eq!(first.2[i].slot, second.2[i].slot);
        assert_eq!(first.2[i].gasprice, second.2[i].gasprice);
        assert_eq!(first.2[i].latest_block_root, second.2[i].latest_block_root);
    }
}
