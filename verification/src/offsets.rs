use vstd::prelude::*;

use crate::types::Slot;

verus! {

/// The fixed ascending schedule of offsets at which a lagging shard is caught
/// up; it bounds the per-call number of reconstructed transitions.
pub open spec fn shard_block_offsets() -> Seq<u64> {
    seq![1u64, 2u64, 3u64, 5u64, 8u64, 13u64, 21u64, 34u64, 55u64, 89u64, 144u64, 233u64]
}

/// `offsets_filtered(os, start, end)` keeps, in order, `start + o` for each
/// offset `o` of `os` with `start + o < end`.
pub open spec fn offsets_filtered(os: Seq<u64>, start: Slot, end: Slot) -> Seq<Slot>
    decreases os.len(),
{
    if os.len() == 0 {
        Seq::empty()
    } else {
        let rest = offsets_filtered(os.drop_last(), start, end);
        if start + os.last() < end {
            rest.push((start + os.last()) as u64)
        } else {
            rest
        }
    }
}

/// The slots at which a shard last recorded at `start` must be advanced to
/// catch up strictly below `end`.
pub open spec fn offset_slots_spec(start: Slot, end: Slot) -> Seq<Slot> {
    offsets_filtered(shard_block_offsets(), start, end)
}

/// The schedule constant, as a vector.
fn shard_block_offsets_list() -> (v: Vec<u64>)
    ensures
        v@ == shard_block_offsets(),
{
    let mut v: Vec<u64> = Vec::new();
    v.push(1);
    v.push(2);
    v.push(3);
    v.push(5);
    v.push(8);
    v.push(13);
    v.push(21);
    v.push(34);
    v.push(55);
    v.push(89);
    v.push(144);
    v.push(233);
    proof {
        assert(v@ =~= shard_block_offsets());
    }
    v
}

/// Ordered slots of the offset schedule that fall strictly between
/// `start_slot` and `end_slot`; empty whenever `start_slot + 1 >= end_slot`.
/// A pure function of its two arguments, with no error conditions.
#[verifier::loop_isolation(false)]
pub fn compute_offset_slots(start_slot: Slot, end_slot: Slot) -> (v: Vec<Slot>)
    ensures
        v@ == offset_slots_spec(start_slot, end_slot),
{
    let offsets: Vec<u64> = shard_block_offsets_list();
    let mut v: Vec<Slot> = Vec::new();
    let mut i: usize = 0;
    while i < offsets.len()
        invariant
            i <= offsets@.len(),
            v@ == offsets_filtered(offsets@.take(i as int), start_slot, end_slot),
        decreases offsets@.len() - i,
    {
        let x: u64 = offsets[i];
        if end_slot > start_slot && x < end_slot - start_slot {
            v.push(start_slot + x);
        }
        proof {
            assert(offsets@.take(i as int + 1).drop_last() =~= offsets@.take(i as int));
        }
        i += 1;
    }
    proof {
        assert(offsets@.take(offsets@.len() as int) =~= offsets@);
    }
    v
}

/// Law: with one slot of headroom the schedule yields nothing, because its
/// first offset is one and the bound is strict; with two slots of headroom it
/// yields exactly the slot after `start`.
pub proof fn lemma_offset_schedule_boundary(start: Slot)
    requires
        start + 2 <= u64::MAX,
    ensures
        offset_slots_spec(start, (start + 1) as u64) == Seq::<Slot>::empty(),
        offset_slots_spec(start, (start + 2) as u64) == seq![(start + 1) as u64],
{
    reveal_with_fuel(offsets_filtered, 13);
    assert(offset_slots_spec(start, (start + 1) as u64) =~= Seq::<Slot>::empty());
    assert(offset_slots_spec(start, (start + 2) as u64) =~= seq![(start + 1) as u64]);
}

/// The schedule is strictly ascending.
pub proof fn lemma_schedule_increasing()
    ensures
        forall|i: int, j: int|
            0 <= i < j < shard_block_offsets().len() ==> shard_block_offsets()[i]
                < shard_block_offsets()[j],
{
    assert forall|i: int, j: int|
        0 <= i < j < shard_block_offsets().len() implies shard_block_offsets()[i]
        < shard_block_offsets()[j] by {
        let os = shard_block_offsets();
        assert(os[0] == 1 && os[1] == 2 && os[2] == 3 && os[3] == 5 && os[4] == 8 && os[5] == 13
            && os[6] == 21 && os[7] == 34 && os[8] == 55 && os[9] == 89 && os[10] == 144
            && os[11] == 233);
    }
}

/// Filtering a strictly ascending schedule yields strictly ascending slots,
/// each at most `start` plus the schedule's last offset.
pub proof fn lemma_offsets_filtered_increasing(os: Seq<u64>, start: Slot, end: Slot)
    requires
        forall|i: int, j: int| 0 <= i < j < os.len() ==> os[i] < os[j],
    ensures
        forall|i: int, j: int|
            0 <= i < j < offsets_filtered(os, start, end).len() ==> offsets_filtered(
                os,
                start,
                end,
            )[i] < offsets_filtered(os, start, end)[j],
        os.len() > 0 ==> forall|k: int|
            0 <= k < offsets_filtered(os, start, end).len() ==> offsets_filtered(os, start, end)[k]
                <= start + os.last(),
    decreases os.len(),
{
    let r = offsets_filtered(os, start, end);
    if os.len() > 0 {
        let rest = os.drop_last();
        let rr = offsets_filtered(rest, start, end);
        assert(forall|i: int, j: int| 0 <= i < j < rest.len() ==> rest[i] < rest[j]);
        lemma_offsets_filtered_increasing(rest, start, end);
        assert forall|k: int| 0 <= k < rr.len() implies rr[k] < start + os.last() by {
            assert(rest.len() > 0);
            assert(rr[k] <= start + rest.last());
            assert(rest.last() == os[os.len() - 2]);
            assert(os[os.len() - 2] < os[os.len() - 1]);
        }
        if start + os.last() < end {
            assert(r == rr.push((start + os.last()) as u64));
            assert forall|i: int, j: int| 0 <= i < j < r.len() implies r[i] < r[j] by {
                assert(r[i] == rr[i]);
                if j < r.len() - 1 {
                    assert(r[j] == rr[j]);
                } else {
                    assert(r[j] == (start + os.last()) as u64);
                }
            }
            assert forall|k: int| 0 <= k < r.len() implies r[k] <= start + os.last() by {
                if k < r.len() - 1 {
                    assert(r[k] == rr[k]);
                } else {
                    assert(r[k] == (start + os.last()) as u64);
                }
            }
        } else {
            assert(r == rr);
        }
    }
}

} // verus!
