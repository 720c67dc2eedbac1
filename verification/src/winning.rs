use vstd::prelude::*;

use crate::committee::{
    compute_previous_slot, compute_shard_from_committee_index, get_attesting_indices,
    get_beacon_committee, get_committee_count_per_slot, get_online_validator_indices,
    get_total_balance, is_on_time_attestation, prev_slot_spec, shard_from_committee_spec,
};
use crate::committee::compute_epoch_at_slot;
use crate::types::{Attestation, BeaconState, CommitteeIndex, Root, Shard, Slot, ValidatorIndex};

verus! {

/// The attestation is on time for the previous slot `prev` and aimed at
/// committee `c`.
pub open spec fn att_matches(a: Attestation, prev: Slot, c: CommitteeIndex) -> bool {
    a.data.slot == prev && a.data.index == c
}

/// Some attestation is on time for `prev` and aimed at committee `c`.
pub open spec fn committee_has_match(atts: Seq<Attestation>, prev: Slot, c: CommitteeIndex) -> bool {
    exists|k: int| 0 <= k < atts.len() && att_matches(atts[k], prev, c)
}

/// The claimed shard-transition commitments of the on-time attestations aimed
/// at committee `c`, in attestation order (with repetitions).
pub open spec fn matching_roots(atts: Seq<Attestation>, prev: Slot, c: CommitteeIndex) -> Seq<Root>
    decreases atts.len(),
{
    if atts.len() == 0 {
        Seq::empty()
    } else {
        let rest = matching_roots(atts.drop_last(), prev, c);
        if att_matches(atts.last(), prev, c) {
            rest.push(atts.last().data.shard_transition_root)
        } else {
            rest
        }
    }
}

/// The least commitment of a non-empty commitment sequence.
pub open spec fn min_root(s: Seq<Root>) -> Root
    recommends
        s.len() > 0,
    decreases s.len(),
{
    if s.len() <= 1 {
        s[0]
    } else {
        let m = min_root(s.drop_first());
        if s[0] <= m {
            s[0]
        } else {
            m
        }
    }
}

/// The winning commitment of committee `c`: the first, in ascending order, of
/// the distinct claimed commitments whose accumulated online stake meets the
/// two-thirds test. The registry collaborators used here price every index
/// set at one balance increment, so the first candidate always qualifies and
/// the winner is the least claimed commitment.
pub open spec fn winning_root_for(atts: Seq<Attestation>, prev: Slot, c: CommitteeIndex) -> Root {
    min_root(matching_roots(atts, prev, c))
}

/// The committee indices below `n` that report a winner, in ascending order.
pub open spec fn winners_upto(atts: Seq<Attestation>, prev: Slot, n: u64) -> Seq<CommitteeIndex>
    decreases n,
{
    if n == 0 {
        Seq::empty()
    } else {
        let rest = winners_upto(atts, prev, (n - 1) as u64);
        if committee_has_match(atts, prev, (n - 1) as u64) {
            rest.push((n - 1) as u64)
        } else {
            rest
        }
    }
}

/// The selector's outputs over the committees below `n`: one entry per
/// winning committee, in committee order, carrying that committee's shard and
/// its winning commitment.
pub open spec fn selector_outputs_ok(
    shards: Seq<Shard>,
    roots: Seq<Root>,
    atts: Seq<Attestation>,
    prev: Slot,
    n: u64,
) -> bool {
    let w = winners_upto(atts, prev, n);
    &&& shards.len() == w.len()
    &&& roots.len() == w.len()
    &&& forall|k: int| 0 <= k < w.len() ==> shards[k] == shard_from_committee_spec(w[k])
    &&& forall|k: int| 0 <= k < w.len() ==> roots[k] == winning_root_for(atts, prev, w[k])
}

/// A commitment sequence in strictly ascending order (hence duplicate-free).
pub open spec fn strictly_sorted(s: Seq<Root>) -> bool {
    forall|i: int, j: int| 0 <= i < j < s.len() ==> s[i] < s[j]
}

proof fn lemma_matching_roots_len(atts: Seq<Attestation>, prev: Slot, c: CommitteeIndex)
    ensures
        committee_has_match(atts, prev, c) <==> matching_roots(atts, prev, c).len() > 0,
    decreases atts.len(),
{
    if atts.len() > 0 {
        let rest = atts.drop_last();
        lemma_matching_roots_len(rest, prev, c);
        if att_matches(atts.last(), prev, c) {
            assert(att_matches(atts[atts.len() - 1], prev, c));
            assert(committee_has_match(atts, prev, c));
        } else {
            if committee_has_match(atts, prev, c) {
                let k = choose|k: int| 0 <= k < atts.len() && att_matches(atts[k], prev, c);
                assert(k < atts.len() - 1);
                assert(att_matches(rest[k], prev, c));
                assert(committee_has_match(rest, prev, c));
            }
            if committee_has_match(rest, prev, c) {
                let k = choose|k: int| 0 <= k < rest.len() && att_matches(rest[k], prev, c);
                assert(att_matches(atts[k], prev, c));
                assert(committee_has_match(atts, prev, c));
            }
        }
    }
}

proof fn lemma_min_root_props(s: Seq<Root>)
    requires
        s.len() > 0,
    ensures
        s.contains(min_root(s)),
        forall|k: int| 0 <= k < s.len() ==> min_root(s) <= s[k],
    decreases s.len(),
{
    if s.len() == 1 {
        assert(min_root(s) == s[0]);
        assert(s.contains(s[0]));
    } else {
        let rest = s.drop_first();
        lemma_min_root_props(rest);
        if s[0] <= min_root(rest) {
            assert(min_root(s) == s[0]);
            assert(s.contains(s[0]));
            assert forall|k: int| 0 <= k < s.len() implies min_root(s) <= s[k] by {
                if k > 0 {
                    assert(min_root(rest) <= rest[k - 1]);
                    assert(rest[k - 1] == s[k]);
                }
            }
        } else {
            assert(min_root(s) == min_root(rest));
            let t = choose|t: int| 0 <= t < rest.len() && rest[t] == min_root(rest);
            assert(s[t + 1] == min_root(rest));
            assert(s.contains(min_root(s)));
            assert forall|k: int| 0 <= k < s.len() implies min_root(s) <= s[k] by {
                if k > 0 {
                    assert(min_root(rest) <= rest[k - 1]);
                    assert(rest[k - 1] == s[k]);
                }
            }
        }
    }
}

proof fn lemma_winners_props(atts: Seq<Attestation>, prev: Slot, n: u64)
    ensures
        forall|k: int|
            0 <= k < winners_upto(atts, prev, n).len() ==> winners_upto(atts, prev, n)[k] < n,
        forall|i: int, j: int|
            0 <= i < j < winners_upto(atts, prev, n).len() ==> winners_upto(atts, prev, n)[i]
                < winners_upto(atts, prev, n)[j],
        forall|k: int|
            0 <= k < winners_upto(atts, prev, n).len() ==> committee_has_match(
                atts,
                prev,
                winners_upto(atts, prev, n)[k],
            ),
        atts.len() == 0 ==> winners_upto(atts, prev, n).len() == 0,
    decreases n,
{
    if n > 0 {
        let c = (n - 1) as u64;
        let rest = winners_upto(atts, prev, c);
        lemma_winners_props(atts, prev, c);
        let w = winners_upto(atts, prev, n);
        if committee_has_match(atts, prev, c) {
            assert(w == rest.push(c));
            assert(atts.len() > 0);
            assert forall|i: int, j: int| 0 <= i < j < w.len() implies w[i] < w[j] by {
                assert(w[i] == rest[i]);
                if j < w.len() - 1 {
                    assert(w[j] == rest[j]);
                } else {
                    assert(w[j] == c);
                    assert(rest[i] < c);
                }
            }
        } else {
            assert(w == rest);
        }
    }
}

/// Law: each committee reports at most one winning commitment per slot — the
/// winner list of any committee range never repeats a committee index.
pub proof fn lemma_at_most_one_winner_per_committee(atts: Seq<Attestation>, prev: Slot, n: u64)
    ensures
        forall|i: int, j: int|
            0 <= i < j < winners_upto(atts, prev, n).len() ==> winners_upto(atts, prev, n)[i]
                != winners_upto(atts, prev, n)[j],
{
    lemma_winners_props(atts, prev, n);
}

/// Whether `v` holds `x`.
#[verifier::loop_isolation(false)]
fn contains_index(v: &Vec<ValidatorIndex>, x: ValidatorIndex) -> (r: bool)
    ensures
        r == v@.contains(x),
{
    let mut i: usize = 0;
    while i < v.len()
        invariant
            i <= v@.len(),
            forall|k: int| 0 <= k < i ==> v@[k] != x,
        decreases v@.len() - i,
    {
        if v[i] == x {
            return true;
        }
        i += 1;
    }
    false
}

/// The elements of `a` that also occur in `b`, in the order of `a`.
#[verifier::loop_isolation(false)]
fn intersect_indices(a: &Vec<ValidatorIndex>, b: &Vec<ValidatorIndex>) -> (r: Vec<ValidatorIndex>)
    ensures
        forall|k: int| 0 <= k < r@.len() ==> a@.contains(r@[k]) && b@.contains(r@[k]),
{
    let mut r: Vec<ValidatorIndex> = Vec::new();
    let mut i: usize = 0;
    while i < a.len()
        invariant
            i <= a@.len(),
            forall|k: int| 0 <= k < r@.len() ==> a@.contains(r@[k]) && b@.contains(r@[k]),
        decreases a@.len() - i,
    {
        if contains_index(b, a[i]) {
            r.push(a[i]);
        }
        i += 1;
    }
    r
}

/// Insert `x` into the strictly sorted `v`, keeping it strictly sorted and
/// duplicate-free; the resulting elements are exactly the old ones plus `x`.
#[verifier::loop_isolation(false)]
fn insert_sorted_unique(v: &mut Vec<Root>, x: Root)
    requires
        strictly_sorted(old(v)@),
    ensures
        strictly_sorted(final(v)@),
        final(v)@.contains(x),
        forall|k: int|
            0 <= k < final(v)@.len() ==> old(v)@.contains(final(v)@[k]) || final(v)@[k] == x,
        forall|k: int| 0 <= k < old(v)@.len() ==> final(v)@.contains(old(v)@[k]),
{
    let ghost orig = v@;
    let mut j: usize = 0;
    while j < v.len() && v[j] < x
        invariant
            j <= v@.len(),
            v@ == orig,
            forall|k: int| 0 <= k < j ==> v@[k] < x,
        decreases v@.len() - j,
    {
        j += 1;
    }
    if j < v.len() && v[j] == x {
        proof {
            assert(v@[j as int] == x);
            assert(v@.contains(x));
            assert forall|k: int| 0 <= k < v@.len() implies v@.contains(v@[k]) by {
                assert(0 <= k < v@.len() && v@[k] == v@[k]);
            }
        }
    } else {
        v.insert(j, x);
        proof {
            let new = v@;
            assert forall|k: int| 0 <= k < j implies new[k] == orig[k] by {}
            assert(new[j as int] == x);
            assert forall|k: int| j < k < new.len() implies new[k] == orig[k - 1] by {}
            assert forall|k: int| j <= k < orig.len() implies orig[k] > x by {
                if k == j {
                    assert(orig[k] >= x);
                    assert(orig[k] != x);
                } else {
                    assert(orig[j as int] < orig[k]);
                    assert(orig[j as int] >= x);
                }
            }
            assert forall|a: int, b: int| 0 <= a < b < new.len() implies new[a] < new[b] by {
                if b < j {
                    assert(new[a] == orig[a] && new[b] == orig[b]);
                } else if b == j {
                    assert(new[a] == orig[a] && orig[a] < x);
                } else {
                    assert(new[b] == orig[b - 1]);
                    assert(orig[b - 1] > x);
                    if a < j {
                        assert(new[a] == orig[a] && orig[a] < x);
                    } else if a == j {
                        assert(new[a] == x);
                    } else {
                        assert(new[a] == orig[a - 1]);
                        assert(orig[a - 1] < orig[b - 1]);
                    }
                }
            }
            assert forall|k: int|
                0 <= k < new.len() implies orig.contains(new[k]) || new[k] == x by {
                if k < j {
                    assert(new[k] == orig[k]);
                    assert(orig.contains(orig[k]));
                } else if k > j {
                    assert(new[k] == orig[k - 1]);
                    assert(orig.contains(orig[k - 1]));
                }
            }
            assert forall|k: int| 0 <= k < orig.len() implies new.contains(orig[k]) by {
                if k < j {
                    assert(new[k] == orig[k]);
                } else {
                    assert(new[k + 1] == orig[k]);
                }
            }
        }
    }
}

/// For a slot's attestations, determine per committee the shard-data
/// commitment that reached a two-thirds online-stake supermajority among the
/// on-time attestations aimed at that committee: one `(shard, winning root)`
/// pair per winning committee, in committee order. Distinct claimed
/// commitments are evaluated in ascending order, the attesting-validator
/// union accumulating across candidates within a committee, and the first
/// qualifying commitment wins; committees with no qualifying commitment
/// contribute no entry.
#[verifier::loop_isolation(false)]
pub fn get_shard_winning_roots(state: &BeaconState, attestations: &Vec<Attestation>) -> (r: (
    Vec<Shard>,
    Vec<Root>,
))
    ensures
        selector_outputs_ok(r.0@, r.1@, attestations@, prev_slot_spec(state.slot), 10),
        r.0@.len() == r.1@.len(),
        forall|i: int, j: int| 0 <= i < j < r.0@.len() ==> r.0@[i] != r.0@[j],
        attestations@.len() == 0 ==> r.0@.len() == 0 && r.1@.len() == 0,
{
    let mut shards: Vec<Shard> = Vec::new();
    let mut winning_roots: Vec<Root> = Vec::new();
    let online_indices: Vec<ValidatorIndex> = get_online_validator_indices(state);
    let on_time_attestation_slot: Slot = compute_previous_slot(state.slot);
    let committee_count: u64 = get_committee_count_per_slot(
        state,
        compute_epoch_at_slot(on_time_attestation_slot),
    );
    let ghost prev = prev_slot_spec(state.slot);
    let mut committee_index: u64 = 0;
    while committee_index < committee_count
        invariant
            committee_index <= 10,
            selector_outputs_ok(shards@, winning_roots@, attestations@, prev, committee_index),
        decreases 10 - committee_index,
    {
        let shard: Shard = compute_shard_from_committee_index(
            state,
            committee_index,
            on_time_attestation_slot,
        );
        let committee: Vec<ValidatorIndex> = get_beacon_committee(
            state,
            on_time_attestation_slot,
            committee_index,
        );

        // The distinct claimed commitments of this committee's on-time
        // attestations, in ascending order.
        let mut sorted_roots: Vec<Root> = Vec::new();
        let mut a_i: usize = 0;
        while a_i < attestations.len()
            invariant
                a_i <= attestations@.len(),
                strictly_sorted(sorted_roots@),
                forall|k: int|
                    0 <= k < sorted_roots@.len() ==> matching_roots(
                        attestations@.take(a_i as int),
                        prev,
                        committee_index,
                    ).contains(sorted_roots@[k]),
                forall|k: int|
                    0 <= k < matching_roots(attestations@.take(a_i as int), prev, committee_index).len()
                        ==> sorted_roots@.contains(
                        matching_roots(attestations@.take(a_i as int), prev, committee_index)[k],
                    ),
            decreases attestations@.len() - a_i,
        {
            let ghost m_before = matching_roots(attestations@.take(a_i as int), prev, committee_index);
            let ghost sorted_before = sorted_roots@;
            let attestation = &attestations[a_i];
            let matched: bool = is_on_time_attestation(state, &attestation.data)
                && attestation.data.index == committee_index;
            if matched {
                insert_sorted_unique(&mut sorted_roots, attestation.data.shard_transition_root);
            }
            proof {
                let taken = attestations@.take(a_i as int + 1);
                assert(taken.drop_last() =~= attestations@.take(a_i as int));
                assert(taken.last() == attestations@[a_i as int]);
                let m_after = matching_roots(taken, prev, committee_index);
                if matched {
                    let x = attestation.data.shard_transition_root;
                    assert(att_matches(attestations@[a_i as int], prev, committee_index));
                    assert(m_after == m_before.push(x));
                    assert forall|k: int|
                        0 <= k < sorted_roots@.len() implies m_after.contains(sorted_roots@[k]) by {
                        let e = sorted_roots@[k];
                        if e == x {
                            assert(m_after[m_after.len() - 1] == x);
                            assert(m_after.contains(x));
                        } else {
                            assert(sorted_before.contains(e));
                            let t = choose|t: int|
                                0 <= t < sorted_before.len() && sorted_before[t] == e;
                            assert(m_before.contains(e));
                            let u = choose|u: int| 0 <= u < m_before.len() && m_before[u] == e;
                            assert(m_after[u] == e);
                            assert(m_after.contains(e));
                        }
                    }
                    assert forall|k: int|
                        0 <= k < m_after.len() implies sorted_roots@.contains(m_after[k]) by {
                        if k < m_before.len() {
                            assert(m_after[k] == m_before[k]);
                            assert(sorted_before.contains(m_before[k]));
                            let t = choose|t: int|
                                0 <= t < sorted_before.len() && sorted_before[t] == m_before[k];
                            assert(sorted_roots@.contains(sorted_before[t]));
                        } else {
                            assert(m_after[k] == x);
                            assert(sorted_roots@.contains(x));
                        }
                    }
                } else {
                    assert(!att_matches(attestations@[a_i as int], prev, committee_index));
                    assert(m_after == m_before);
                }
            }
            a_i += 1;
        }
        proof {
            assert(attestations@.take(attestations@.len() as int) =~= attestations@);
        }
        let ghost m_full = matching_roots(attestations@, prev, committee_index);

        // Evaluate the candidate commitments in ascending order, accumulating
        // the attesting-validator union across candidates; the first
        // commitment whose accumulated online stake meets the two-thirds test
        // wins, and no later candidate of this committee is evaluated.
        let mut transition_participants: Vec<ValidatorIndex> = Vec::new();
        let ghost shards_snap = shards@;
        let ghost roots_snap = winning_roots@;
        let mut root_i: usize = 0;
        let mut won: bool = false;
        while root_i < sorted_roots.len() && !won
            invariant
                root_i <= sorted_roots@.len(),
                !won ==> root_i == 0 && shards@ == shards_snap && winning_roots@ == roots_snap,
                won ==> sorted_roots@.len() > 0 && shards@ == shards_snap.push(shard)
                    && winning_roots@ == roots_snap.push(sorted_roots@[0]),
            decreases sorted_roots@.len() - root_i,
        {
            let shard_transition_root: Root = sorted_roots[root_i];
            let mut t_i: usize = 0;
            while t_i < attestations.len()
                invariant
                    t_i <= attestations@.len(),
                decreases attestations@.len() - t_i,
            {
                let attestation = &attestations[t_i];
                if is_on_time_attestation(state, &attestation.data)
                    && attestation.data.index == committee_index
                    && attestation.data.shard_transition_root == shard_transition_root {
                    let participants: Vec<ValidatorIndex> = get_attesting_indices(
                        state,
                        &attestation.data,
                        &attestation.aggregation_bits,
                    );
                    let mut p_i: usize = 0;
                    while p_i < participants.len()
                        invariant
                            p_i <= participants@.len(),
                        decreases participants@.len() - p_i,
                    {
                        let idx: ValidatorIndex = participants[p_i];
                        if !contains_index(&transition_participants, idx) {
                            transition_participants.push(idx);
                        }
                        p_i += 1;
                    }
                }
                t_i += 1;
            }
            let online_participants: Vec<ValidatorIndex> = intersect_indices(
                &online_indices,
                &transition_participants,
            );
            let online_committee: Vec<ValidatorIndex> = intersect_indices(
                &online_indices,
                &committee,
            );
            let enough_online_stake: bool = get_total_balance(state, &online_participants) * 3
                >= get_total_balance(state, &online_committee) * 2;
            if enough_online_stake {
                shards.push(shard);
                winning_roots.push(shard_transition_root);
                won = true;
            }
            root_i += 1;
        }

        proof {
            lemma_matching_roots_len(attestations@, prev, committee_index);
            let w = winners_upto(attestations@, prev, committee_index);
            let w_next = winners_upto(attestations@, prev, (committee_index + 1) as u64);
            if sorted_roots@.len() > 0 {
                assert(won);
                assert(m_full.contains(sorted_roots@[0]));
                let u0 = choose|u: int| 0 <= u < m_full.len() && m_full[u] == sorted_roots@[0];
                assert(m_full.len() > 0);
                assert(committee_has_match(attestations@, prev, committee_index));
                assert(w_next == w.push(committee_index));
                lemma_min_root_props(m_full);
                let t = choose|t: int| 0 <= t < m_full.len() && m_full[t] == min_root(m_full);
                assert(sorted_roots@.contains(m_full[t]));
                let sk = choose|s: int|
                    0 <= s < sorted_roots@.len() && sorted_roots@[s] == min_root(m_full);
                if sk > 0 {
                    assert(sorted_roots@[0] < sorted_roots@[sk]);
                }
                assert(sorted_roots@[0] >= min_root(m_full)) by {
                    assert(min_root(m_full) <= m_full[u0]);
                }
                assert(sorted_roots@[0] == min_root(m_full));
                assert(winning_root_for(attestations@, prev, committee_index) == sorted_roots@[0]);
                assert forall|k: int|
                    0 <= k < w_next.len() implies shards@[k] == shard_from_committee_spec(
                    w_next[k],
                ) by {
                    if k < w.len() {
                        assert(w_next[k] == w[k]);
                        assert(shards@[k] == shards_snap[k]);
                    } else {
                        assert(w_next[k] == committee_index);
                        assert(shards@[k] == shard);
                    }
                }
                assert forall|k: int|
                    0 <= k < w_next.len() implies winning_roots@[k] == winning_root_for(
                    attestations@,
                    prev,
                    w_next[k],
                ) by {
                    if k < w.len() {
                        assert(w_next[k] == w[k]);
                        assert(winning_roots@[k] == roots_snap[k]);
                    } else {
                        assert(w_next[k] == committee_index);
                        assert(winning_roots@[k] == sorted_roots@[0]);
                    }
                }
            } else {
                assert(!won);
                if committee_has_match(attestations@, prev, committee_index) {
                    assert(m_full.len() > 0);
                    assert(sorted_roots@.contains(m_full[0]));
                }
                assert(!committee_has_match(attestations@, prev, committee_index));
                assert(w_next == w);
            }
            assert(selector_outputs_ok(
                shards@,
                winning_roots@,
                attestations@,
                prev,
                (committee_index + 1) as u64,
            ));
        }
        committee_index += 1;
    }
    proof {
        lemma_winners_props(attestations@, prev, 10);
        let w = winners_upto(attestations@, prev, 10);
        assert forall|i: int, j: int| 0 <= i < j < shards@.len() implies shards@[i] != shards@[j] by {
            assert(w[i] < w[j] < 10);
            vstd::arithmetic::div_mod::lemma_small_mod((w[i] + 1) as nat, 64);
            vstd::arithmetic::div_mod::lemma_small_mod((w[j] + 1) as nat, 64);
            assert(shards@[i] == shard_from_committee_spec(w[i]));
            assert(shards@[j] == shard_from_committee_spec(w[j]));
        }
    }
    (shards, winning_roots)
}

} // verus!
