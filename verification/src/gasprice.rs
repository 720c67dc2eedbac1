use vstd::prelude::*;

use crate::types::{
    Gwei, GASPRICE_ADJUSTMENT_COEFFICIENT, MAX_GASPRICE, MIN_GASPRICE, TARGET_SHARD_BLOCK_SIZE,
};

verus! {

/// The adaptive fee recurrence: a discrete proportional controller that pushes
/// the gas price up when a block body exceeds the target size and down
/// otherwise, clamped to `[MIN_GASPRICE, MAX_GASPRICE]`. Divisions truncate;
/// small prices near the floor may stay pinned, which is intended behaviour.
pub open spec fn update_gasprice_spec(prev: Gwei, len: nat) -> Gwei {
    if len > TARGET_SHARD_BLOCK_SIZE as nat {
        let delta = prev * (len - TARGET_SHARD_BLOCK_SIZE)
            / (TARGET_SHARD_BLOCK_SIZE as int)
            / (GASPRICE_ADJUSTMENT_COEFFICIENT as int);
        if prev + delta >= MAX_GASPRICE {
            MAX_GASPRICE
        } else {
            (prev + delta) as u64
        }
    } else {
        let delta = prev * (TARGET_SHARD_BLOCK_SIZE - len)
            / (TARGET_SHARD_BLOCK_SIZE as int)
            / (GASPRICE_ADJUSTMENT_COEFFICIENT as int);
        if prev >= MIN_GASPRICE + delta {
            (prev - delta) as u64
        } else {
            MIN_GASPRICE
        }
    }
}

/// The inputs on which the recurrence's product fits in a machine word; on all
/// others the computation would overflow, which callers must rule out.
pub open spec fn gasprice_inputs_ok(prev: Gwei, len: nat) -> bool {
    if len > TARGET_SHARD_BLOCK_SIZE as nat {
        prev * (len - TARGET_SHARD_BLOCK_SIZE) <= u64::MAX
    } else {
        prev * (TARGET_SHARD_BLOCK_SIZE - len) <= u64::MAX
    }
}

/// Both deltas of the recurrence are non-negative.
proof fn lemma_delta_nonneg(prev: Gwei, diff: int)
    requires
        diff >= 0,
    ensures
        prev * diff / (TARGET_SHARD_BLOCK_SIZE as int) / (GASPRICE_ADJUSTMENT_COEFFICIENT as int)
            >= 0,
{
    assert(prev * diff >= 0) by (nonlinear_arith)
        requires
            prev >= 0,
            diff >= 0,
    ;
    vstd::arithmetic::div_mod::lemma_div_pos_is_pos(prev * diff, TARGET_SHARD_BLOCK_SIZE as int);
    vstd::arithmetic::div_mod::lemma_div_pos_is_pos(
        prev * diff / (TARGET_SHARD_BLOCK_SIZE as int),
        GASPRICE_ADJUSTMENT_COEFFICIENT as int,
    );
}

/// One step of the fee recurrence, with exactly the truncating-division
/// semantics of `update_gasprice_spec`.
pub fn compute_updated_gasprice(prev_gasprice: Gwei, shard_block_length: u64) -> (r: Gwei)
    requires
        gasprice_inputs_ok(prev_gasprice, shard_block_length as nat),
    ensures
        r == update_gasprice_spec(prev_gasprice, shard_block_length as nat),
{
    if shard_block_length > TARGET_SHARD_BLOCK_SIZE {
        let delta: u64 = prev_gasprice * (shard_block_length - TARGET_SHARD_BLOCK_SIZE)
            / TARGET_SHARD_BLOCK_SIZE
            / GASPRICE_ADJUSTMENT_COEFFICIENT;
        if prev_gasprice >= MAX_GASPRICE {
            MAX_GASPRICE
        } else if delta >= MAX_GASPRICE - prev_gasprice {
            MAX_GASPRICE
        } else {
            prev_gasprice + delta
        }
    } else {
        let delta: u64 = prev_gasprice * (TARGET_SHARD_BLOCK_SIZE - shard_block_length)
            / TARGET_SHARD_BLOCK_SIZE
            / GASPRICE_ADJUSTMENT_COEFFICIENT;
        if prev_gasprice >= MIN_GASPRICE && prev_gasprice - MIN_GASPRICE >= delta {
            prev_gasprice - delta
        } else {
            MIN_GASPRICE
        }
    }
}

/// A price at or below the ceiling stays at or below the ceiling after any
/// update, whatever the body length.
pub proof fn lemma_gasprice_stays_bounded(prev: Gwei, len: nat)
    requires
        prev <= MAX_GASPRICE,
    ensures
        update_gasprice_spec(prev, len) <= MAX_GASPRICE,
{
    if len > TARGET_SHARD_BLOCK_SIZE as nat {
        lemma_delta_nonneg(prev, len - TARGET_SHARD_BLOCK_SIZE);
    } else {
        lemma_delta_nonneg(prev, TARGET_SHARD_BLOCK_SIZE - len);
    }
}

/// Law: applying a synthesized empty block to a state whose price respects the
/// floor never raises the price, and the result still respects the floor.
/// (A price strictly below the floor can be lifted to it instead: from a prior
/// price of zero the update returns the floor itself.)
pub proof fn lemma_skip_slot_price_decay(prev: Gwei)
    requires
        prev >= MIN_GASPRICE,
    ensures
        update_gasprice_spec(prev, 0) <= prev,
        MIN_GASPRICE <= update_gasprice_spec(prev, 0),
{
    lemma_delta_nonneg(prev, TARGET_SHARD_BLOCK_SIZE as int);
}

} // verus!
