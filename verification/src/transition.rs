use vstd::prelude::*;

use crate::gasprice::{
    compute_updated_gasprice, gasprice_inputs_ok, lemma_gasprice_stays_bounded,
    update_gasprice_spec,
};
use crate::offsets::{
    compute_offset_slots, lemma_offsets_filtered_increasing, lemma_schedule_increasing,
    offset_slots_spec, shard_block_offsets,
};
use crate::types::{
    BeaconState, Root, Shard, ShardBlock, ShardState, SignedShardBlock, Slot, MAX_GASPRICE,
    TARGET_SHARD_BLOCK_SIZE,
};

verus! {

/// Fixed commitment returned by the stand-in Merkleization routine.
pub const MOCK_TREE_ROOT: Root = 404;

/// The zero commitment recorded for offset slots with no candidate block.
pub const DEFAULT_ROOT: Root = 0;

/// Stand-in for the SSZ hash-tree-root collaborator; the commitment value is
/// fixed, as real Merkleization is out of scope.
pub fn hash_tree_root<T>(_obj: &T) -> (r: Root)
    ensures
        r == MOCK_TREE_ROOT,
{
    MOCK_TREE_ROOT
}

/// One shard-state transition: advance the slot, update the gas price from
/// the body length, and record the block commitment only for a non-empty body
/// (empty and skipped blocks never overwrite the last real commitment).
pub open spec fn shard_state_after(pre: ShardState, slot: Slot, body: Seq<u8>) -> ShardState {
    ShardState {
        slot: slot,
        gasprice: update_gasprice_spec(pre.gasprice, body.len()),
        latest_block_root: if body.len() == 0 {
            pre.latest_block_root
        } else {
            MOCK_TREE_ROOT
        },
    }
}

/// Advance `shard_state` by one block.
pub fn process_shard_block(shard_state: &mut ShardState, block: &ShardBlock)
    requires
        gasprice_inputs_ok(old(shard_state).gasprice, block.body@.len()),
    ensures
        *final(shard_state) == shard_state_after(*old(shard_state), block.slot, block.body@),
{
    shard_state.slot = block.slot;
    let prev_gasprice: u64 = shard_state.gasprice;
    let shard_block_length: usize = block.body.len();
    shard_state.gasprice = compute_updated_gasprice(prev_gasprice, shard_block_length as u64);
    if shard_block_length != 0 {
        shard_state.latest_block_root = hash_tree_root(block);
    }
}

/// The slot the shard last recorded in the beacon state.
pub fn get_latest_slot_for_shard(state: &BeaconState, shard: Shard) -> (r: Slot)
    requires
        shard < state.shard_states@.len(),
    ensures
        r == state.shard_states@[shard as int].slot,
{
    let state_count: usize = state.shard_states.len();
    proof {
        assert(shard < state_count as u64);
        assert(shard as usize as int == shard as int);
    }
    state.shard_states[shard as usize].slot
}

/// Some candidate block claims `slot`.
pub open spec fn has_block_at(blocks: Seq<SignedShardBlock>, slot: Slot) -> bool {
    exists|k: int| 0 <= k < blocks.len() && blocks[k].message.slot == slot
}

/// Index of the first candidate block claiming `slot` (ties on a slot are
/// resolved first-wins, a documented caller contract).
pub open spec fn first_block_index(blocks: Seq<SignedShardBlock>, slot: Slot) -> int
    decreases blocks.len(),
{
    if blocks.len() == 0 {
        0
    } else if blocks[0].message.slot == slot {
        0
    } else {
        1 + first_block_index(blocks.drop_first(), slot)
    }
}

/// The body applied at `slot`: the first matching candidate's body, or the
/// empty body of a synthesized block when no candidate claims the slot.
pub open spec fn chosen_body(blocks: Seq<SignedShardBlock>, slot: Slot) -> Seq<u8> {
    if has_block_at(blocks, slot) {
        blocks[first_block_index(blocks, slot)].message.body@
    } else {
        Seq::empty()
    }
}

/// The data commitment recorded at `slot`: the commitment of the first
/// matching candidate's body, or the zero commitment for a skipped slot.
pub open spec fn chosen_root(blocks: Seq<SignedShardBlock>, slot: Slot) -> Root {
    if has_block_at(blocks, slot) {
        MOCK_TREE_ROOT
    } else {
        DEFAULT_ROOT
    }
}

/// The offset slots the assembler walks for `shard`: the schedule applied
/// between the shard's recorded slot and the slot after the beacon slot.
pub open spec fn transition_offset_slots(beacon_state: BeaconState, shard: Shard) -> Seq<Slot> {
    offset_slots_spec(
        beacon_state.shard_states@[shard as int].slot,
        (beacon_state.slot + 1) as u64,
    )
}

proof fn lemma_first_block_index_of(blocks: Seq<SignedShardBlock>, slot: Slot, i: int)
    requires
        0 <= i < blocks.len(),
        blocks[i].message.slot == slot,
        forall|j: int| 0 <= j < i ==> blocks[j].message.slot != slot,
    ensures
        has_block_at(blocks, slot),
        first_block_index(blocks, slot) == i,
    decreases i,
{
    if i > 0 {
        let rest = blocks.drop_first();
        assert(rest[i - 1].message.slot == slot);
        assert(forall|j: int| 0 <= j < i - 1 ==> rest[j].message.slot != slot);
        lemma_first_block_index_of(rest, slot, i - 1);
    }
}

/// First candidate block claiming `slot`, if any.
#[verifier::loop_isolation(false)]
fn find_block_index(blocks: &Vec<SignedShardBlock>, slot: Slot) -> (r: Option<usize>)
    ensures
        match r {
            Some(i) => has_block_at(blocks@, slot) && first_block_index(blocks@, slot) == i
                && i < blocks@.len() && blocks@[i as int].message.slot == slot,
            None => !has_block_at(blocks@, slot),
        },
{
    let mut i: usize = 0;
    while i < blocks.len()
        invariant
            i <= blocks@.len(),
            forall|j: int| 0 <= j < i ==> blocks@[j].message.slot != slot,
        decreases blocks@.len() - i,
    {
        if blocks[i].message.slot == slot {
            proof {
                lemma_first_block_index_of(blocks@, slot, i as int);
            }
            return Some(i);
        }
        i += 1;
    }
    None
}

/// Reconstruct, for one shard, the per-offset-slot block lengths, data
/// commitments and post-transition states that a beacon block must carry to
/// crosslink the shard: one entry per offset slot, all three sequences
/// index-aligned. The running state is threaded through the walk, so each
/// entry is the basis of the next; the caller's state is never mutated. With
/// no offset slots all three sequences are empty, a valid outcome.
#[verifier::loop_isolation(false)]
pub fn get_shard_transition_fields(
    beacon_state: &BeaconState,
    shard: Shard,
    shard_blocks: &Vec<SignedShardBlock>,
) -> (r: (Vec<u64>, Vec<Root>, Vec<ShardState>))
    requires
        shard < beacon_state.shard_states@.len(),
        beacon_state.slot < u64::MAX,
        beacon_state.shard_states@[shard as int].gasprice <= MAX_GASPRICE,
        forall|k: int|
            0 <= k < shard_blocks@.len() ==> (MAX_GASPRICE as int)
                * shard_blocks@[k].message.body@.len() <= u64::MAX,
    ensures
        ({
            let slots = transition_offset_slots(*beacon_state, shard);
            let init = beacon_state.shard_states@[shard as int];
            &&& r.0@.len() == slots.len()
            &&& r.1@.len() == slots.len()
            &&& r.2@.len() == slots.len()
            &&& forall|k: int|
                0 <= k < slots.len() ==> r.0@[k] == chosen_body(shard_blocks@, slots[k]).len()
            &&& forall|k: int|
                0 <= k < slots.len() ==> r.1@[k] == chosen_root(shard_blocks@, slots[k])
            &&& forall|k: int|
                #![trigger r.2@[k]]
                0 <= k < slots.len() ==> r.2@[k] == shard_state_after(
                    if k == 0 {
                        init
                    } else {
                        r.2@[k - 1]
                    },
                    slots[k],
                    chosen_body(shard_blocks@, slots[k]),
                )
            &&& forall|k: int| 0 <= k < slots.len() ==> r.2@[k].slot == slots[k]
            &&& forall|i: int, j: int| 0 <= i < j < slots.len() ==> r.2@[i].slot < r.2@[j].slot
            &&& forall|k: int|
                #![trigger r.0@[k]]
                0 <= k < slots.len() && r.0@[k] == 0 ==> r.2@[k].latest_block_root == (if k == 0 {
                    init.latest_block_root
                } else {
                    r.2@[k - 1].latest_block_root
                })
        }),
{
    let mut shard_block_lengths: Vec<u64> = Vec::new();
    let mut shard_data_roots: Vec<Root> = Vec::new();
    let mut shard_states: Vec<ShardState> = Vec::new();

    let state_count: usize = beacon_state.shard_states.len();
    proof {
        assert(shard < state_count as u64);
        assert(shard as usize as int == shard as int);
    }
    let initial_state: ShardState = beacon_state.shard_states[shard as usize];
    let offset_slots: Vec<Slot> = compute_offset_slots(
        get_latest_slot_for_shard(beacon_state, shard),
        beacon_state.slot + 1,
    );
    let ghost slots = transition_offset_slots(*beacon_state, shard);
    proof {
        assert(offset_slots@ == slots);
        assert(initial_state == beacon_state.shard_states@[shard as int]);
    }

    let mut current: ShardState = initial_state;
    let mut i: usize = 0;
    while i < offset_slots.len()
        invariant
            i <= slots.len(),
            shard_block_lengths@.len() == i,
            shard_data_roots@.len() == i,
            shard_states@.len() == i,
            current == (if i == 0 {
                initial_state
            } else {
                shard_states@[i as int - 1]
            }),
            current.gasprice <= MAX_GASPRICE,
            forall|k: int|
                0 <= k < i ==> shard_block_lengths@[k] == chosen_body(
                    shard_blocks@,
                    slots[k],
                ).len(),
            forall|k: int| 0 <= k < i ==> shard_data_roots@[k] == chosen_root(shard_blocks@, slots[k]),
            forall|k: int|
                #![trigger shard_states@[k]]
                0 <= k < i ==> shard_states@[k] == shard_state_after(
                    if k == 0 {
                        initial_state
                    } else {
                        shard_states@[k - 1]
                    },
                    slots[k],
                    chosen_body(shard_blocks@, slots[k]),
                ),
        decreases slots.len() - i,
    {
        let slot: Slot = offset_slots[i];
        let ghost prev_state = current;
        let found: Option<usize> = find_block_index(shard_blocks, slot);
        match found {
            Some(block_index) => {
                let shard_block = &shard_blocks[block_index];
                shard_data_roots.push(hash_tree_root(&shard_block.message.body));
                proof {
                    let body_len = shard_block.message.body@.len() as int;
                    let target = TARGET_SHARD_BLOCK_SIZE as int;
                    assert((MAX_GASPRICE as int) * body_len <= u64::MAX);
                    if body_len > target {
                        assert(current.gasprice * (body_len - target) <= (MAX_GASPRICE as int)
                            * body_len) by (nonlinear_arith)
                            requires
                                0 <= current.gasprice <= MAX_GASPRICE,
                                0 < target,
                                body_len > target,
                        ;
                    } else {
                        assert(current.gasprice * (target - body_len) <= (MAX_GASPRICE as int)
                            * target) by (nonlinear_arith)
                            requires
                                0 <= current.gasprice <= MAX_GASPRICE,
                                0 <= body_len <= target,
                        ;
                    }
                }
                process_shard_block(&mut current, &shard_block.message);
                shard_states.push(current);
                shard_block_lengths.push(shard_block.message.body.len() as u64);
                proof {
                    lemma_gasprice_stays_bounded(
                        prev_state.gasprice,
                        shard_block.message.body@.len(),
                    );
                }
            },
            None => {
                shard_data_roots.push(DEFAULT_ROOT);
                let new_shard_block = ShardBlock { slot: slot, shard: shard, body: Vec::new() };
                proof {
                    let target = TARGET_SHARD_BLOCK_SIZE as int;
                    assert(current.gasprice * (target - 0) <= (MAX_GASPRICE as int) * target)
                        by (nonlinear_arith)
                        requires
                            0 <= current.gasprice <= MAX_GASPRICE,
                            0 < target,
                    ;
                }
                process_shard_block(&mut current, &new_shard_block);
                shard_states.push(current);
                shard_block_lengths.push(0);
                proof {
                    lemma_gasprice_stays_bounded(prev_state.gasprice, 0);
                }
            },
        }
        i += 1;
    }
    proof {
        lemma_schedule_increasing();
        lemma_offsets_filtered_increasing(
            shard_block_offsets(),
            beacon_state.shard_states@[shard as int].slot,
            (beacon_state.slot + 1) as u64,
        );
        assert forall|k: int| 0 <= k < slots.len() implies #[trigger] shard_states@[k].slot
            == slots[k] by {
            assert(shard_states@[k] == shard_state_after(
                if k == 0 {
                    initial_state
                } else {
                    shard_states@[k - 1]
                },
                slots[k],
                chosen_body(shard_blocks@, slots[k]),
            ));
        }
        assert forall|i2: int, j2: int| 0 <= i2 < j2 < slots.len() implies shard_states@[i2].slot
            < shard_states@[j2].slot by {
            assert(slots[i2] < slots[j2]);
        }
        assert forall|k: int|
            0 <= k < slots.len() && #[trigger] shard_block_lengths@[k] == 0 implies shard_states@[k].latest_block_root
            == (if k == 0 {
            initial_state.latest_block_root
        } else {
            shard_states@[k - 1].latest_block_root
        }) by {
            assert(shard_states@[k] == shard_state_after(
                if k == 0 {
                    initial_state
                } else {
                    shard_states@[k - 1]
                },
                slots[k],
                chosen_body(shard_blocks@, slots[k]),
            ));
            assert(chosen_body(shard_blocks@, slots[k]).len() == 0);
        }
    }
    (shard_block_lengths, shard_data_roots, shard_states)
}

} // verus!
