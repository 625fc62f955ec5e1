//! Keeps parent sessions resident while spawned subagents can still hand off
//! results.
//!
//! A spawned turn finishes by sending terminal mail to its direct parent.  An
//! idle, unsubscribed ancestor may otherwise be unloaded before that mail
//! reaches the parent's mailbox.  This registry gives each running child turn
//! and queued triggering handoff a reference-counted lease on its ancestor
//! chain.  A queued handoff transfers its lease to the recipient turn before
//! leaving the mailbox, so acceptance cannot open an unload gap.
use std::collections::HashMap;
use vstd::prelude::*;

use crate::ids::ThreadId;

verus! {

broadcast use vstd::std_specs::hash::group_hash_axioms;

/// How many leases hold a thread.
pub open spec fn lease_count(counts: Map<u128, nat>, id: u128) -> nat {
    if counts.dom().contains(id) {
        counts[id]
    } else {
        0
    }
}

/// The counts with one more lease on each of `ids`.
pub open spec fn retained(counts: Map<u128, nat>, ids: Seq<u128>) -> Map<u128, nat> {
    Map::new(
        |id: u128| counts.dom().contains(id) || ids.contains(id),
        |id: u128|
            lease_count(counts, id) + if ids.contains(id) {
                1nat
            } else {
                0nat
            },
    )
}

/// The counts with one lease less on each of `ids` that has one.
pub open spec fn released(counts: Map<u128, nat>, ids: Seq<u128>) -> Map<u128, nat> {
    Map::new(
        |id: u128| counts.dom().contains(id) && !(ids.contains(id) && counts[id] <= 1),
        |id: u128|
            if ids.contains(id) {
                (counts[id] - 1) as nat
            } else {
                counts[id]
            },
    )
}

/// `ids` with the later occurrences of each left out.
pub open spec fn distinct(ids: Seq<u128>) -> Seq<u128>
    decreases ids.len(),
{
    if ids.len() == 0 {
        Seq::empty()
    } else {
        let before = distinct(ids.drop_last());
        if before.contains(ids.last()) {
            before
        } else {
            before.push(ids.last())
        }
    }
}

/// The numbers of thread identifiers.
pub open spec fn id_values(ids: Seq<ThreadId>) -> Seq<u128> {
    ids.map_values(|id: ThreadId| id.value)
}

/// A lease on each thread of an ancestor chain.
#[derive(Debug)]
pub struct AncestorTurnRetentionGuard {
    ancestor_thread_ids: Vec<ThreadId>,
}

impl View for AncestorTurnRetentionGuard {
    type V = Seq<u128>;

    closed spec fn view(&self) -> Seq<u128> {
        id_values(self.ancestor_thread_ids@)
    }
}

impl AncestorTurnRetentionGuard {
    /// No thread is held twice.
    #[verifier::type_invariant]
    spec fn holds_distinct_threads(self) -> bool {
        id_values(self.ancestor_thread_ids@).no_duplicates()
    }
}

/// Process-local retention state shared by one multi-agent tree.
#[derive(Debug)]
pub struct AncestorTurnRetention {
    retained_ancestors: HashMap<u128, usize>,
}

impl View for AncestorTurnRetention {
    type V = Map<u128, nat>;

    closed spec fn view(&self) -> Map<u128, nat> {
        self.retained_ancestors@.map_values(|count: usize| count as nat)
    }
}

/// Whether `ids` holds `id`.
fn holds(ids: &Vec<ThreadId>, id: ThreadId) -> (found: bool)
    ensures
        found == id_values(ids@).contains(id.value),
{
    let ghost values = id_values(ids@);
    let mut i: usize = 0;
    while i < ids.len()
        invariant
            i <= ids.len(),
            values == id_values(ids@),
            forall|k: int| 0 <= k < i ==> #[trigger] values[k] != id.value,
        decreases ids.len() - i,
    {
        assert(values[i as int] == ids@[i as int].value);
        if ids[i].value == id.value {
            return true;
        }
        i += 1;
    }
    false
}

proof fn distinct_has_no_duplicates(ids: Seq<u128>)
    ensures
        distinct(ids).no_duplicates(),
        distinct(ids).len() <= ids.len(),
    decreases ids.len(),
{
    if ids.len() > 0 {
        distinct_has_no_duplicates(ids.drop_last());
    }
}

/// [`distinct`] leaves out no thread, and adds none.
pub proof fn distinct_keeps_members(ids: Seq<u128>)
    ensures
        forall|id: u128| distinct(ids).contains(id) <==> ids.contains(id),
    decreases ids.len(),
{
    if ids.len() > 0 {
        let earlier = ids.drop_last();
        distinct_keeps_members(earlier);
        assert(ids =~= earlier.push(ids.last()));
        assert forall|id: u128| ids.contains(id) <==> earlier.contains(id) || id
            == ids.last() by {
            if earlier.contains(id) {
                let k = choose|k: int| 0 <= k < earlier.len() && earlier[k] == id;
                assert(ids[k] == id);
            }
            if id == ids.last() {
                assert(ids[ids.len() - 1] == id);
            }
        }
        let before = distinct(earlier);
        if !before.contains(ids.last()) {
            let after = before.push(ids.last());
            assert forall|id: u128| after.contains(id) <==> before.contains(id) || id
                == ids.last() by {
                if before.contains(id) {
                    let k = choose|k: int| 0 <= k < before.len() && before[k] == id;
                    assert(after[k] == id);
                }
                if id == ids.last() {
                    assert(after[before.len() as int] == id);
                }
            }
        }
    }
}

impl AncestorTurnRetention {
    /// Every thread in the registry is held by a lease.
    #[verifier::type_invariant]
    spec fn counts_are_positive(self) -> bool {
        forall|id: u128| #[trigger]
            self.retained_ancestors@.dom().contains(id) ==> self.retained_ancestors@[id] > 0
    }

    /// A registry without leases.
    pub fn new() -> (retention: Self)
        ensures
            retention@ == Map::<u128, nat>::empty(),
    {
        let retention = AncestorTurnRetention { retained_ancestors: HashMap::new() };
        proof {
            assert(retention@ =~= Map::<u128, nat>::empty());
        }
        retention
    }

    /// Retains every distinct ancestor until the returned guard is released.
    pub fn retain(&mut self, ancestor_thread_ids: &Vec<ThreadId>) -> (guard: Option<
        AncestorTurnRetentionGuard,
    >)
        requires
            forall|id: u128|
                id_values(ancestor_thread_ids@).contains(id) ==> #[trigger] lease_count(
                    old(self)@,
                    id,
                ) < usize::MAX,
        ensures
            (match guard {
                None => ancestor_thread_ids.len() == 0 && final(self)@ == old(self)@,
                Some(guard) => ancestor_thread_ids.len() > 0 && guard@ == distinct(
                    id_values(ancestor_thread_ids@),
                ) && final(self)@ == retained(old(self)@, guard@),
            }),
    {
        proof {
            use_type_invariant(&*self);
        }
        let ghost given = id_values(ancestor_thread_ids@);
        let mut distinct_ids: Vec<ThreadId> = Vec::new();
        let mut i: usize = 0;
        proof {
            assert(id_values(distinct_ids@) =~= distinct(given.take(0)));
        }
        while i < ancestor_thread_ids.len()
            invariant
                i <= ancestor_thread_ids.len(),
                given == id_values(ancestor_thread_ids@),
                id_values(distinct_ids@) == distinct(given.take(i as int)),
                i > 0 ==> distinct_ids.len() > 0,
            decreases ancestor_thread_ids.len() - i,
        {
            let id: ThreadId = ancestor_thread_ids[i];
            proof {
                assert(given.take(i + 1).drop_last() =~= given.take(i as int));
                assert(given.take(i + 1).last() == id.value);
            }
            if !holds(&distinct_ids, id) {
                let ghost earlier = distinct_ids@;
                distinct_ids.push(id);
                proof {
                    assert(id_values(distinct_ids@) =~= id_values(earlier).push(id.value));
                }
            } else {
                assert(distinct_ids.len() > 0);
            }
            i += 1;
        }
        proof {
            assert(given.take(given.len() as int) =~= given);
            distinct_has_no_duplicates(given);
            distinct_keeps_members(given);
        }
        if distinct_ids.len() == 0 {
            return None;
        }
        let ghost ids = id_values(distinct_ids@);
        let ghost before = self.retained_ancestors@;
        proof {
            assert forall|id: u128|
                ids.contains(id) && before.dom().contains(id) implies #[trigger] before[id]
                < usize::MAX by {
                assert(given.contains(id));
                assert(lease_count(self@, id) < usize::MAX);
                assert(self@[id] == before[id]);
            }
        }
        let mut counts: HashMap<u128, usize> = HashMap::new();
        std::mem::swap(&mut counts, &mut self.retained_ancestors);
        let mut k: usize = 0;
        while k < distinct_ids.len()
            invariant
                k <= distinct_ids.len(),
                ids == id_values(distinct_ids@),
                ids.no_duplicates(),
                forall|id: u128| #[trigger] before.dom().contains(id) ==> before[id] > 0,
                forall|id: u128|
                    ids.contains(id) && before.dom().contains(id) ==> #[trigger] before[id]
                        < usize::MAX,
                forall|id: u128| #[trigger]
                    counts@.dom().contains(id) <==> before.dom().contains(id) || ids.take(
                        k as int,
                    ).contains(id),
                forall|id: u128| #[trigger]
                    counts@.dom().contains(id) ==> counts@[id] == (if before.dom().contains(id) {
                        before[id] as int
                    } else {
                        0
                    }) + (if ids.take(k as int).contains(id) {
                        1int
                    } else {
                        0
                    }),
            decreases distinct_ids.len() - k,
        {
            let id: u128 = distinct_ids[k].value;
            proof {
                assert(ids[k as int] == id);
                assert(ids.contains(id));
                take_contains(ids, k as int, ids.take(k + 1));
            }
            let count: usize = match counts.get(&id) {
                Some(count) => *count,
                None => 0,
            };
            counts.insert(id, count + 1);
            k += 1;
        }
        proof {
            assert(ids.take(ids.len() as int) =~= ids);
        }
        self.retained_ancestors = counts;
        proof {
            assert(self@ =~= retained(old(self)@, ids));
        }
        Some(AncestorTurnRetentionGuard { ancestor_thread_ids: distinct_ids })
    }

    /// Reports whether a descendant lifecycle retains `thread_id` for handoff.
    pub fn is_retained(&self, thread_id: ThreadId) -> (retained: bool)
        ensures
            retained == self@.dom().contains(thread_id.value),
    {
        self.retained_ancestors.contains_key(&thread_id.value)
    }

    /// Releases the lease of a guard.
    pub fn release(&mut self, guard: AncestorTurnRetentionGuard)
        ensures
            final(self)@ == released(old(self)@, guard@),
    {
        proof {
            use_type_invariant(&*self);
            use_type_invariant(&guard);
        }
        let ids: &Vec<ThreadId> = &guard.ancestor_thread_ids;
        let ghost values = id_values(ids@);
        let ghost before = self.retained_ancestors@;
        let mut counts: HashMap<u128, usize> = HashMap::new();
        std::mem::swap(&mut counts, &mut self.retained_ancestors);
        let mut k: usize = 0;
        while k < ids.len()
            invariant
                k <= ids.len(),
                values == id_values(ids@),
                values.no_duplicates(),
                forall|id: u128| #[trigger] before.dom().contains(id) ==> before[id] > 0,
                forall|id: u128| #[trigger]
                    counts@.dom().contains(id) <==> before.dom().contains(id) && !(values.take(
                        k as int,
                    ).contains(id) && before[id] <= 1),
                forall|id: u128| #[trigger]
                    counts@.dom().contains(id) ==> counts@[id] == before[id] - (if values.take(
                        k as int,
                    ).contains(id) {
                        1int
                    } else {
                        0
                    }),
            decreases ids.len() - k,
        {
            let id: u128 = ids[k].value;
            proof {
                assert(values[k as int] == id);
                take_contains(values, k as int, values.take(k + 1));
            }
            let count: usize = match counts.get(&id) {
                Some(count) => *count,
                None => 0,
            };
            if count > 1 {
                counts.insert(id, count - 1);
            } else {
                counts.remove(&id);
            }
            k += 1;
        }
        proof {
            assert(values.take(values.len() as int) =~= values);
        }
        self.retained_ancestors = counts;
        proof {
            assert(self@ =~= released(old(self)@, guard@));
        }
    }
}

/// Among distinct ids, the first `k + 1` are the first `k` and the next.
proof fn take_contains(ids: Seq<u128>, k: int, next: Seq<u128>)
    requires
        0 <= k < ids.len(),
        ids.no_duplicates(),
        next == ids.take(k + 1),
    ensures
        !ids.take(k).contains(ids[k]),
        forall|id: u128| #[trigger] next.contains(id) <==> ids.take(k).contains(id) || id == ids[k],
{
    let first = ids.take(k);
    if first.contains(ids[k]) {
        let j = choose|j: int| 0 <= j < k && first[j] == ids[k];
        assert(ids[j] == ids[k]);
    }
    assert forall|id: u128| #[trigger] next.contains(id) <==> first.contains(id) || id == ids[k] by {
        if first.contains(id) {
            let j = choose|j: int| 0 <= j < k && first[j] == id;
            assert(next[j] == id);
        }
        if next.contains(id) {
            let j = choose|j: int| 0 <= j < next.len() && next[j] == id;
            if j < k {
                assert(first[j] == id);
            }
        }
        assert(next[k] == ids[k]);
    }
}

/// The counts while exactly `leases` are held.
pub open spec fn held(leases: Seq<Seq<u128>>) -> Map<u128, nat>
    decreases leases.len(),
{
    if leases.len() == 0 {
        Map::empty()
    } else {
        retained(held(leases.drop_last()), leases.last())
    }
}

/// How many of `leases` hold a thread.
pub open spec fn holders(leases: Seq<Seq<u128>>, id: u128) -> nat
    decreases leases.len(),
{
    if leases.len() == 0 {
        0
    } else {
        holders(leases.drop_last(), id) + if leases.last().contains(id) {
            1nat
        } else {
            0nat
        }
    }
}

/// A thread is retained exactly while some lease holds it, and its count is
/// the number of leases that do.
pub proof fn retained_while_leased(leases: Seq<Seq<u128>>, id: u128)
    ensures
        lease_count(held(leases), id) == holders(leases, id),
        held(leases).dom().contains(id) <==> holders(leases, id) > 0,
        holders(leases, id) > 0 <==> exists|j: int|
            0 <= j < leases.len() && (#[trigger] leases[j]).contains(id),
    decreases leases.len(),
{
    if leases.len() > 0 {
        let earlier = leases.drop_last();
        retained_while_leased(earlier, id);
        if holders(earlier, id) > 0 {
            let j = choose|j: int| 0 <= j < earlier.len() && (#[trigger] earlier[j]).contains(id);
            assert(leases[j].contains(id));
        }
        if leases.last().contains(id) {
            assert(leases[leases.len() - 1].contains(id));
        }
        if exists|j: int| 0 <= j < leases.len() && (#[trigger] leases[j]).contains(id) {
            let j = choose|j: int| 0 <= j < leases.len() && (#[trigger] leases[j]).contains(id);
            if j < earlier.len() {
                assert(earlier[j].contains(id));
            }
        }
    }
}

proof fn holders_without(leases: Seq<Seq<u128>>, j: int, id: u128)
    requires
        0 <= j < leases.len(),
    ensures
        holders(leases, id) == holders(leases.remove(j), id) + (if leases[j].contains(id) {
            1nat
        } else {
            0nat
        }),
    decreases leases.len(),
{
    let fewer = leases.remove(j);
    if j == leases.len() - 1 {
        assert(fewer =~= leases.drop_last());
    } else {
        holders_without(leases.drop_last(), j, id);
        assert(fewer.drop_last() =~= leases.drop_last().remove(j));
        assert(fewer.last() == leases.last());
    }
}

/// Releasing a lease leaves what the other leases hold, in whatever order
/// leases were taken.
pub proof fn release_keeps_other_leases(leases: Seq<Seq<u128>>, j: int)
    requires
        0 <= j < leases.len(),
    ensures
        released(held(leases), leases[j]) == held(leases.remove(j)),
{
    let left = released(held(leases), leases[j]);
    let right = held(leases.remove(j));
    assert forall|id: u128| #[trigger] left.dom().contains(id) <==> right.dom().contains(id) by {
        retained_while_leased(leases, id);
        retained_while_leased(leases.remove(j), id);
        holders_without(leases, j, id);
    }
    assert forall|id: u128| #[trigger] left.dom().contains(id) implies left[id] == right[id] by {
        retained_while_leased(leases, id);
        retained_while_leased(leases.remove(j), id);
        holders_without(leases, j, id);
    }
    assert(left =~= right);
}

/// Releasing a lease right after taking it changes nothing.
pub proof fn release_undoes_retain(counts: Map<u128, nat>, ids: Seq<u128>)
    requires
        forall|id: u128| #[trigger] counts.dom().contains(id) ==> counts[id] > 0,
    ensures
        released(retained(counts, ids), ids) == counts,
{
    assert(released(retained(counts, ids), ids) =~= counts);
}

/// A lease adds one to the count of each thread that it holds, and releasing it
/// takes one away; a thread whose count reaches zero is held no longer, and the
/// count of no other thread changes.
pub proof fn lease_counts_once_for_each_thread(counts: Map<u128, nat>, ids: Seq<u128>, id: u128)
    requires
        counts.dom().contains(id) ==> counts[id] > 0,
    ensures
        ({
            let before = if counts.dom().contains(id) {
                counts[id] as int
            } else {
                0
            };
            let taken = retained(counts, ids);
            let given = released(counts, ids);
            let held = if ids.contains(id) {
                1int
            } else {
                0int
            };
            &&& lease_count(counts, id) == before
            &&& taken.dom().contains(id) <==> before + held > 0
            &&& taken.dom().contains(id) ==> taken[id] == before + held
            &&& given.dom().contains(id) <==> before > held
            &&& given.dom().contains(id) ==> given[id] == before - held
        }),
{
}

/// A lease holds each of the threads that it was asked for once, in the order
/// in which they were first named.
pub proof fn lease_holds_each_thread_once(ids: Seq<u128>, id: u128)
    ensures
        distinct(ids).no_duplicates(),
        distinct(ids.push(id)) == if ids.contains(id) {
            distinct(ids)
        } else {
            distinct(ids).push(id)
        },
        forall|other: u128| distinct(ids).contains(other) <==> ids.contains(other),
{
    distinct_has_no_duplicates(ids);
    distinct_keeps_members(ids);
    assert(ids.push(id).drop_last() =~= ids);
}

} // verus!
