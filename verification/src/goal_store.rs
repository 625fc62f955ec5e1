//! The table of durable goals, and the conditional changes made to it.
//!
//! Decisions about a goal are made on a snapshot.  A change is applied only
//! while that snapshot is still what is stored, so that a concurrent user
//! edit, status transition, accounting update or replacement takes precedence
//! over the stale decision.
use vstd::prelude::*;

use crate::clock::current_time_ms;
use crate::goals::revision_of;
use crate::goals::RevisionView;
use crate::goals::ThreadGoal;
use crate::goals::ThreadGoalRevision;
use crate::goals::ThreadGoalStatus;
use crate::goals::ThreadGoalView;
use crate::ids::ThreadId;

verus! {

/// The content of stored rows.
pub open spec fn rows(goals: Seq<ThreadGoal>) -> Seq<ThreadGoalView> {
    goals.map_values(|goal: ThreadGoal| goal@)
}

/// Whether rows are in ascending order of their threads, one for each thread.
pub open spec fn in_thread_order(rows: Seq<ThreadGoalView>) -> bool {
    forall|i: int, j: int|
        0 <= i < j < rows.len() ==> (#[trigger] rows[i]).thread_id.value < (
        #[trigger] rows[j]).thread_id.value
}

/// The goal of a thread.
pub open spec fn goal_of(rows: Seq<ThreadGoalView>, id: ThreadId) -> Option<ThreadGoalView> {
    if exists|k: int| 0 <= k < rows.len() && (#[trigger] rows[k]).thread_id == id {
        Some(rows[choose|k: int| 0 <= k < rows.len() && (#[trigger] rows[k]).thread_id == id])
    } else {
        None
    }
}

/// The rows with the goal of its thread replaced by `goal`.
pub open spec fn with_goal(rows: Seq<ThreadGoalView>, goal: ThreadGoalView) -> Seq<
    ThreadGoalView,
> {
    rows.map_values(
        |row: ThreadGoalView|
            if row.thread_id == goal.thread_id {
                goal
            } else {
                row
            },
    )
}

/// Whether a thread comes after an exclusive cursor.
pub open spec fn is_after(id: ThreadId, cursor: Option<ThreadId>) -> bool {
    match cursor {
        Some(cursor) => id.value > cursor.value,
        None => true,
    }
}

/// The active goals after a cursor.
pub open spec fn active_after(rows: Seq<ThreadGoalView>, cursor: Option<ThreadId>) -> Seq<
    ThreadGoalView,
>
    decreases rows.len(),
{
    if rows.len() == 0 {
        Seq::empty()
    } else {
        let before = active_after(rows.drop_last(), cursor);
        if rows.last().status == ThreadGoalStatus::Active && is_after(
            rows.last().thread_id,
            cursor,
        ) {
            before.push(rows.last())
        } else {
            before
        }
    }
}

/// At most the first `limit` goals.
pub open spec fn limited(goals: Seq<ThreadGoalView>, limit: nat) -> Seq<ThreadGoalView> {
    if goals.len() <= limit {
        goals
    } else {
        goals.take(limit as int)
    }
}

/// The later of two times.
pub open spec fn later(a: int, b: int) -> int {
    if a >= b {
        a
    } else {
        b
    }
}

/// A goal with another objective, revised at `now_ms`.
pub open spec fn with_objective(
    goal: ThreadGoalView,
    objective: Seq<char>,
    now_ms: i64,
) -> ThreadGoalView {
    ThreadGoalView {
        objective,
        updated_at_ms: later(now_ms as int, goal.updated_at_ms + 1) as i64,
        ..goal
    }
}

/// A goal made active again at `now_ms`.
pub open spec fn reactivated(goal: ThreadGoalView, now_ms: i64) -> ThreadGoalView {
    ThreadGoalView {
        status: ThreadGoalStatus::Active,
        updated_at_ms: later(now_ms as int, goal.updated_at_ms + 1) as i64,
        ..goal
    }
}

/// Whether an objective edit chosen at a revision still applies to a thread.
pub open spec fn edit_applies(
    rows: Seq<ThreadGoalView>,
    id: ThreadId,
    expected: RevisionView,
) -> bool {
    match goal_of(rows, id) {
        Some(goal) => revision_of(goal) == expected && goal.status == ThreadGoalStatus::Active,
        None => false,
    }
}

/// Whether the status of a goal can be revoked.
pub open spec fn is_stopped(status: ThreadGoalStatus) -> bool {
    status == ThreadGoalStatus::Paused || status == ThreadGoalStatus::Blocked || status
        == ThreadGoalStatus::UsageLimited
}

/// Whether a stopped goal may become active again: its status is one that can
/// be revoked, and its token budget is not exhausted.
pub open spec fn is_resumable(goal: ThreadGoalView) -> bool {
    &&& is_stopped(goal.status)
    &&& goal.token_budget is None || goal.tokens_used < goal.token_budget->0
}

/// Whether the decision to resume a snapshot still applies.
pub open spec fn resume_applies(rows: Seq<ThreadGoalView>, expected: ThreadGoalView) -> bool {
    goal_of(rows, expected.thread_id) == Some(expected) && is_resumable(expected)
}

/// Each row holds the goal of its thread.
pub proof fn goal_at(rows: Seq<ThreadGoalView>, k: int)
    requires
        in_thread_order(rows),
        0 <= k < rows.len(),
    ensures
        goal_of(rows, rows[k].thread_id) == Some(rows[k]),
{
    let id = rows[k].thread_id;
    let j = choose|j: int| 0 <= j < rows.len() && (#[trigger] rows[j]).thread_id == id;
    assert(rows[k].thread_id == id);
    if j < k {
        assert(rows[j].thread_id.value < rows[k].thread_id.value);
    } else if k < j {
        assert(rows[k].thread_id.value < rows[j].thread_id.value);
    }
}

proof fn replacing_is_updating(rows: Seq<ThreadGoalView>, k: int, goal: ThreadGoalView)
    requires
        in_thread_order(rows),
        0 <= k < rows.len(),
        rows[k].thread_id == goal.thread_id,
    ensures
        with_goal(rows, goal) == rows.update(k, goal),
        in_thread_order(with_goal(rows, goal)),
{
    assert forall|j: int| 0 <= j < rows.len() && j != k implies (#[trigger] rows[j]).thread_id
        != goal.thread_id by {
        if j < k {
            assert(rows[j].thread_id.value < rows[k].thread_id.value);
        } else {
            assert(rows[k].thread_id.value < rows[j].thread_id.value);
        }
    }
    assert(with_goal(rows, goal) =~= rows.update(k, goal));
    let after = with_goal(rows, goal);
    assert forall|i: int, j: int| 0 <= i < j < after.len() implies (
    #[trigger] after[i]).thread_id.value < (#[trigger] after[j]).thread_id.value by {
        assert(rows[i].thread_id.value < rows[j].thread_id.value);
    }
}

/// The goals of threads, kept in the order of their threads.
#[derive(Debug)]
pub struct GoalStore {
    goals: Vec<ThreadGoal>,
}

impl View for GoalStore {
    type V = Seq<ThreadGoalView>;

    closed spec fn view(&self) -> Seq<ThreadGoalView> {
        rows(self.goals@)
    }
}

impl GoalStore {
    /// The rows are in order, one for each thread.
    #[verifier::type_invariant]
    spec fn is_in_order(self) -> bool {
        in_thread_order(rows(self.goals@))
    }

    /// A table without goals.
    pub fn new() -> (store: Self)
        ensures
            store@ == Seq::<ThreadGoalView>::empty(),
            in_thread_order(store@),
    {
        let store = GoalStore { goals: Vec::new() };
        proof {
            assert(store@ =~= Seq::<ThreadGoalView>::empty());
        }
        store
    }

    /// Finds the row of a thread, or where it would be.
    fn place_of(&self, thread_id: ThreadId) -> (place: (bool, usize))
        ensures
            place.1 <= self@.len(),
            in_thread_order(self@),
            self@.len() == self.goals.len(),
            forall|k: int|
                0 <= k < place.1 ==> (#[trigger] self@[k]).thread_id.value < thread_id.value,
            place.0 ==> place.1 < self@.len() && self@[place.1 as int].thread_id == thread_id
                && goal_of(self@, thread_id) == Some(self@[place.1 as int]),
            !place.0 ==> goal_of(self@, thread_id) is None && forall|k: int|
                place.1 <= k < self@.len() ==> (#[trigger] self@[k]).thread_id.value
                    > thread_id.value,
    {
        proof {
            use_type_invariant(&*self);
        }
        let mut at: usize = 0;
        while at < self.goals.len() && self.goals[at].thread_id.value < thread_id.value
            invariant
                at <= self.goals.len(),
                self@ == rows(self.goals@),
                forall|k: int|
                    0 <= k < at ==> (#[trigger] self@[k]).thread_id.value < thread_id.value,
            decreases self.goals.len() - at,
        {
            assert(self@[at as int] == self.goals@[at as int]@);
            at += 1;
        }
        if at < self.goals.len() {
            assert(self@[at as int] == self.goals@[at as int]@);
            if self.goals[at].thread_id.value == thread_id.value {
                proof {
                    goal_at(self@, at as int);
                }
                return (true, at);
            }
            proof {
                assert forall|k: int| at <= k < self@.len() implies (
                #[trigger] self@[k]).thread_id.value > thread_id.value by {
                    if at < k {
                        assert(self@[at as int].thread_id.value < self@[k].thread_id.value);
                    }
                }
            }
        }
        (false, at)
    }

    /// Returns the goal of a thread.
    pub fn get_thread_goal(&self, thread_id: ThreadId) -> (goal: Option<&ThreadGoal>)
        ensures
            in_thread_order(self@),
            (match goal {
                Some(goal) => goal_of(self@, thread_id) == Some(goal@),
                None => goal_of(self@, thread_id) is None,
            }),
    {
        let (found, at): (bool, usize) = self.place_of(thread_id);
        if found {
            assert(self@[at as int] == self.goals@[at as int]@);
            Some(&self.goals[at])
        } else {
            None
        }
    }

    /// Stores a goal, in place of any other goal of its thread.
    pub fn put_thread_goal(&mut self, goal: ThreadGoal)
        ensures
            in_thread_order(final(self)@),
            goal_of(final(self)@, goal.thread_id) == Some(goal@),
            forall|id: ThreadId|
                id != goal.thread_id ==> #[trigger] goal_of(final(self)@, id) == goal_of(
                    old(self)@,
                    id,
                ),
    {
        let (found, at): (bool, usize) = self.place_of(goal.thread_id);
        let ghost before = self@;
        let ghost added = goal@;
        let mut goals: Vec<ThreadGoal> = Vec::new();
        std::mem::swap(&mut goals, &mut self.goals);
        if found {
            proof {
                replacing_is_updating(before, at as int, added);
            }
            goals.set(at, goal);
            proof {
                assert(rows(goals@) =~= before.update(at as int, added));
            }
        } else {
            goals.insert(at, goal);
            proof {
                assert(rows(goals@) =~= before.insert(at as int, added));
                let after = rows(goals@);
                assert forall|i: int, j: int| 0 <= i < j < after.len() implies (
                #[trigger] after[i]).thread_id.value < (#[trigger] after[j]).thread_id.value by {
                    let bi = if i < at { i } else { i - 1 };
                    let bj = if j < at { j } else { j - 1 };
                    if i != at && j != at {
                        assert(before[bi].thread_id.value < before[bj].thread_id.value);
                    } else if i == at {
                        assert(before[bj].thread_id.value > added.thread_id.value);
                    } else {
                        assert(before[bi].thread_id.value < added.thread_id.value);
                    }
                }
            }
        }
        self.goals = goals;
        proof {
            let after = self@;
            assert(after[at as int] == added);
            goal_at(after, at as int);
            assert forall|id: ThreadId| id != added.thread_id implies #[trigger] goal_of(after, id)
                == goal_of(before, id) by {
                if goal_of(before, id) is Some {
                    let k = choose|k: int|
                        0 <= k < before.len() && (#[trigger] before[k]).thread_id == id;
                    goal_at(before, k);
                    let m = if found || k < at { k } else { k + 1 };
                    assert(after[m] == before[k]);
                    goal_at(after, m);
                } else if goal_of(after, id) is Some {
                    let m = choose|m: int|
                        0 <= m < after.len() && (#[trigger] after[m]).thread_id == id;
                    let k = if found || m < at { m } else { m - 1 };
                    assert(after[m] == before[k]);
                    assert(before[k].thread_id == id);
                }
            }
        }
    }

    /// Lists active goals in ascending thread-id order.
    ///
    /// `after_thread_id` is an exclusive cursor.  The caller owns pagination
    /// and any additional eligibility rules that depend on thread metadata.
    pub fn list_active_thread_goals(
        &self,
        after_thread_id: Option<ThreadId>,
        limit: usize,
    ) -> (goals: Vec<ThreadGoal>)
        ensures
            in_thread_order(self@),
            rows(goals@) == limited(active_after(self@, after_thread_id), limit as nat),
    {
        proof {
            use_type_invariant(&*self);
        }
        let ghost all = self@;
        let mut out: Vec<ThreadGoal> = Vec::new();
        let mut i: usize = 0;
        proof {
            assert(rows(out@) =~= active_after(all.take(0), after_thread_id));
        }
        while i < self.goals.len() && out.len() < limit
            invariant
                i <= self.goals.len(),
                all == self@,
                all.len() == self.goals.len(),
                out.len() <= limit,
                rows(out@) == active_after(all.take(i as int), after_thread_id),
            decreases self.goals.len() - i,
        {
            let goal: &ThreadGoal = &self.goals[i];
            proof {
                assert(all[i as int] == goal@);
                assert(all.take(i + 1).drop_last() =~= all.take(i as int));
                assert(all.take(i + 1).last() == goal@);
            }
            let comes_after: bool = match after_thread_id {
                Some(cursor) => goal.thread_id.value > cursor.value,
                None => true,
            };
            if goal.status == ThreadGoalStatus::Active && comes_after {
                let ghost earlier = out@;
                out.push(goal.clone());
                proof {
                    assert(rows(out@) =~= rows(earlier).push(goal@));
                }
            }
            i += 1;
        }
        proof {
            active_after_extends(all, i as int, after_thread_id);
            assert(all.take(all.len() as int) =~= all);
            let listed = active_after(all, after_thread_id);
            if i < all.len() {
                assert(listed.take(limit as int) =~= rows(out@));
                if listed.len() == limit {
                    assert(listed.take(limit as int) =~= listed);
                }
            }
        }
        out
    }

    /// Replaces an active goal's objective, at `now_ms`, if `expected` is
    /// still current.
    ///
    /// A missing result means the goal was removed, replaced, made inactive,
    /// or changed after the revision was captured.  In that case the store is
    /// left unchanged.  A successful update preserves every field other than
    /// the objective and the time of the update.
    pub fn update_active_thread_goal_objective_at(
        &mut self,
        thread_id: ThreadId,
        expected: &ThreadGoalRevision,
        objective: &str,
        now_ms: i64,
    ) -> (updated: Option<ThreadGoal>)
        requires
            expected@.updated_at_ms < i64::MAX,
        ensures
            (match updated {
                Some(updated) => edit_applies(old(self)@, thread_id, expected@) && updated@
                    == with_objective(goal_of(old(self)@, thread_id)->0, objective@, now_ms)
                    && final(self)@ == with_goal(old(self)@, updated@),
                None => !edit_applies(old(self)@, thread_id, expected@) && final(self)@ == old(self)@,
            }),
    {
        let (found, at): (bool, usize) = self.place_of(thread_id);
        if !found {
            return None;
        }
        assert(self@[at as int] == self.goals@[at as int]@);
        if !expected.is_current(&self.goals[at]) || self.goals[at].status
            != ThreadGoalStatus::Active {
            return None;
        }
        let mut goal: ThreadGoal = self.goals[at].clone();
        let revised: i64 = goal.updated_at_ms + 1;
        goal.objective = objective.to_string();
        goal.updated_at_ms = if now_ms >= revised {
            now_ms
        } else {
            revised
        };
        self.replace_at(at, goal.clone());
        Some(goal)
    }

    /// Replaces an active goal's objective if `expected` is still current.
    pub fn update_active_thread_goal_objective(
        &mut self,
        thread_id: ThreadId,
        expected: &ThreadGoalRevision,
        objective: &str,
    ) -> (updated: Option<ThreadGoal>)
        requires
            expected@.updated_at_ms < i64::MAX,
        ensures
            (match updated {
                Some(updated) => edit_applies(old(self)@, thread_id, expected@) && final(self)@
                    == with_goal(old(self)@, updated@) && exists|now_ms: i64|
                    updated@ == #[trigger] with_objective(
                        goal_of(old(self)@, thread_id)->0,
                        objective@,
                        now_ms,
                    ),
                None => !edit_applies(old(self)@, thread_id, expected@) && final(self)@ == old(self)@,
            }),
    {
        self.update_active_thread_goal_objective_at(
            thread_id,
            expected,
            objective,
            current_time_ms(),
        )
    }

    /// Resumes `expected`, at `now_ms`, if the complete goal snapshot is still
    /// current.
    ///
    /// A missing result means the goal was removed, replaced, changed, is not
    /// in a resumable status, or has exhausted its token budget.  A successful
    /// update preserves every field other than the status and the time of the
    /// update.
    pub fn resume_thread_goal_at(&mut self, expected: &ThreadGoal, now_ms: i64) -> (resumed: Option<
        ThreadGoal,
    >)
        requires
            expected.updated_at_ms < i64::MAX,
        ensures
            (match resumed {
                Some(resumed) => resume_applies(old(self)@, expected@) && resumed@ == reactivated(
                    expected@,
                    now_ms,
                ) && final(self)@ == with_goal(old(self)@, resumed@),
                None => !resume_applies(old(self)@, expected@) && final(self)@ == old(self)@,
            }),
    {
        let (found, at): (bool, usize) = self.place_of(expected.thread_id);
        if !found {
            return None;
        }
        assert(self@[at as int] == self.goals@[at as int]@);
        if !self.goals[at].same_as(expected) || !may_resume(expected) {
            return None;
        }
        let mut goal: ThreadGoal = expected.clone();
        let revised: i64 = goal.updated_at_ms + 1;
        goal.status = ThreadGoalStatus::Active;
        goal.updated_at_ms = if now_ms >= revised {
            now_ms
        } else {
            revised
        };
        self.replace_at(at, goal.clone());
        Some(goal)
    }

    /// Resumes `expected` if the complete goal snapshot is still current.
    pub fn resume_thread_goal(&mut self, expected: &ThreadGoal) -> (resumed: Option<ThreadGoal>)
        requires
            expected.updated_at_ms < i64::MAX,
        ensures
            (match resumed {
                Some(resumed) => resume_applies(old(self)@, expected@) && final(self)@ == with_goal(
                    old(self)@,
                    resumed@,
                ) && exists|now_ms: i64| resumed@ == #[trigger] reactivated(expected@, now_ms),
                None => !resume_applies(old(self)@, expected@) && final(self)@ == old(self)@,
            }),
    {
        self.resume_thread_goal_at(expected, current_time_ms())
    }

    /// Replaces the goal at a place by another of the same thread.
    fn replace_at(&mut self, at: usize, goal: ThreadGoal)
        requires
            at < old(self)@.len(),
            old(self)@[at as int].thread_id == goal.thread_id,
        ensures
            final(self)@ == with_goal(old(self)@, goal@),
    {
        proof {
            use_type_invariant(&*self);
            replacing_is_updating(self@, at as int, goal@);
        }
        let ghost before = self@;
        let ghost added = goal@;
        let mut goals: Vec<ThreadGoal> = Vec::new();
        std::mem::swap(&mut goals, &mut self.goals);
        goals.set(at, goal);
        proof {
            assert(rows(goals@) =~= before.update(at as int, added));
        }
        self.goals = goals;
    }
}

/// Whether a stopped goal may become active again.
fn may_resume(goal: &ThreadGoal) -> (resumable: bool)
    ensures
        resumable == is_resumable(goal@),
{
    let stopped: bool = goal.status == ThreadGoalStatus::Paused || goal.status
        == ThreadGoalStatus::Blocked || goal.status == ThreadGoalStatus::UsageLimited;
    stopped && match goal.token_budget {
        None => true,
        Some(budget) => goal.tokens_used < budget,
    }
}

proof fn active_after_extends(rows: Seq<ThreadGoalView>, count: int, cursor: Option<ThreadId>)
    requires
        0 <= count <= rows.len(),
    ensures
        active_after(rows.take(count), cursor).is_prefix_of(active_after(rows, cursor)),
    decreases rows.len(),
{
    if count < rows.len() {
        active_after_extends(rows.drop_last(), count, cursor);
        assert(rows.drop_last().take(count) =~= rows.take(count));
    } else {
        assert(rows.take(count) =~= rows);
    }
}

/// An objective edit keeps every other field, and makes the goal newer.
pub proof fn edit_changes_only_the_objective(
    goal: ThreadGoalView,
    objective: Seq<char>,
    now_ms: i64,
)
    requires
        goal.updated_at_ms < i64::MAX,
    ensures
        ({
            let edited = with_objective(goal, objective, now_ms);
            &&& edited == (ThreadGoalView {
                objective,
                updated_at_ms: edited.updated_at_ms,
                ..goal
            })
            &&& edited.updated_at_ms > goal.updated_at_ms
            &&& edited.updated_at_ms >= now_ms
        }),
{
}

/// A resumption keeps every field but the status, and makes the goal newer.
pub proof fn resume_changes_only_the_status(goal: ThreadGoalView, now_ms: i64)
    requires
        goal.updated_at_ms < i64::MAX,
    ensures
        ({
            let resumed = reactivated(goal, now_ms);
            &&& resumed == (ThreadGoalView {
                status: ThreadGoalStatus::Active,
                updated_at_ms: resumed.updated_at_ms,
                ..goal
            })
            &&& resumed.updated_at_ms > goal.updated_at_ms
            &&& resumed.updated_at_ms >= now_ms
        }),
{
}

/// After a change, the goal of the thread is the changed one and every other
/// thread has the goal it had.
pub proof fn change_touches_one_thread(
    rows: Seq<ThreadGoalView>,
    goal: ThreadGoalView,
    id: ThreadId,
)
    requires
        in_thread_order(rows),
        goal_of(rows, goal.thread_id) is Some,
    ensures
        goal_of(with_goal(rows, goal), id) == if id == goal.thread_id {
            Some(goal)
        } else {
            goal_of(rows, id)
        },
{
    let at = choose|k: int| 0 <= k < rows.len() && (#[trigger] rows[k]).thread_id == goal.thread_id;
    replacing_is_updating(rows, at, goal);
    let after = with_goal(rows, goal);
    if id == goal.thread_id {
        assert(after[at] == goal);
        goal_at(after, at);
    } else if goal_of(rows, id) is Some {
        let k = choose|k: int| 0 <= k < rows.len() && (#[trigger] rows[k]).thread_id == id;
        assert(after[k] == rows[k]);
        goal_at(rows, k);
        goal_at(after, k);
    } else if goal_of(after, id) is Some {
        let k = choose|k: int| 0 <= k < after.len() && (#[trigger] after[k]).thread_id == id;
        assert(k != at);
        assert(after[k] == rows[k]);
    }
}

/// A later edit, status change, replacement or removal of a goal takes
/// precedence over an edit that was decided on before.
pub proof fn later_changes_take_precedence(
    rows: Seq<ThreadGoalView>,
    id: ThreadId,
    captured: ThreadGoalView,
)
    requires
        (match goal_of(rows, id) {
            None => true,
            Some(now) => {
                ||| now.goal_id != captured.goal_id
                ||| now.objective != captured.objective
                ||| now.updated_at_ms != captured.updated_at_ms
                ||| now.status != ThreadGoalStatus::Active
            },
        }),
    ensures
        !edit_applies(rows, id, revision_of(captured)),
{
}

/// A goal that differs in anything from the snapshot on which its resumption
/// was decided, accounting included, is not resumed.
pub proof fn changed_snapshots_are_not_resumed(rows: Seq<ThreadGoalView>, expected: ThreadGoalView)
    requires
        goal_of(rows, expected.thread_id) != Some(expected),
    ensures
        !resume_applies(rows, expected),
{
}

/// A revision is good for one edit: once it has been applied, it is stale.
pub proof fn applied_revision_is_stale(
    rows: Seq<ThreadGoalView>,
    id: ThreadId,
    expected: RevisionView,
    objective: Seq<char>,
    now_ms: i64,
)
    requires
        in_thread_order(rows),
        edit_applies(rows, id, expected),
        expected.updated_at_ms < i64::MAX,
    ensures
        !edit_applies(
            with_goal(rows, with_objective(goal_of(rows, id)->0, objective, now_ms)),
            id,
            expected,
        ),
{
    let goal = goal_of(rows, id)->0;
    let k = choose|k: int| 0 <= k < rows.len() && (#[trigger] rows[k]).thread_id == id;
    goal_at(rows, k);
    let edited = with_objective(goal, objective, now_ms);
    change_touches_one_thread(rows, edited, id);
}

/// A goal that has been resumed is not resumed again.
pub proof fn resumed_goal_is_not_resumed_again(
    rows: Seq<ThreadGoalView>,
    expected: ThreadGoalView,
    now_ms: i64,
)
    requires
        in_thread_order(rows),
        resume_applies(rows, expected),
    ensures
        ({
            let resumed = reactivated(expected, now_ms);
            let after = with_goal(rows, resumed);
            !resume_applies(after, expected) && !resume_applies(after, resumed)
        }),
{
    let resumed = reactivated(expected, now_ms);
    change_touches_one_thread(rows, resumed, expected.thread_id);
}

/// A stored goal is resumed exactly if it is paused, blocked or limited by
/// usage, and it has no token budget or has used less than all of it: to the
/// last token.
pub proof fn stopped_goal_is_resumed_within_its_budget(rows: Seq<ThreadGoalView>, k: int)
    requires
        in_thread_order(rows),
        0 <= k < rows.len(),
    ensures
        resume_applies(rows, rows[k]) <==> {
            &&& rows[k].status == ThreadGoalStatus::Paused || rows[k].status
                == ThreadGoalStatus::Blocked || rows[k].status == ThreadGoalStatus::UsageLimited
            &&& match rows[k].token_budget {
                Some(budget) => rows[k].tokens_used < budget,
                None => true,
            }
        },
{
    goal_at(rows, k);
}

/// Whether a goal may be resumed depends on its status, its budget and what it
/// has used of it, and on nothing else: any of the three statuses will do, and
/// any unused remainder of the budget.
pub proof fn one_unused_token_is_enough(goal: ThreadGoalView, other: ThreadGoalView)
    ensures
        is_stopped(goal.status) <==> !(goal.status == ThreadGoalStatus::Active || goal.status
            == ThreadGoalStatus::BudgetLimited || goal.status == ThreadGoalStatus::Complete),
        is_resumable(goal) ==> is_stopped(goal.status),
        is_stopped(goal.status) && goal.token_budget is None ==> is_resumable(goal),
        is_stopped(goal.status) && goal.token_budget is Some ==> (is_resumable(goal)
            <==> goal.token_budget->0 - goal.tokens_used >= 1),
        goal.status == other.status && goal.token_budget == other.token_budget && goal.tokens_used
            == other.tokens_used ==> is_resumable(goal) == is_resumable(other),
{
}

/// A snapshot that differs from every stored goal in any field is not resumed.
pub proof fn only_stored_goals_are_resumed(rows: Seq<ThreadGoalView>, expected: ThreadGoalView)
    requires
        forall|k: int| 0 <= k < rows.len() ==> #[trigger] rows[k] != expected,
    ensures
        !resume_applies(rows, expected),
{
}

/// The objective of a stored goal is edited exactly if the goal is active and
/// has the identity, the objective and the time of revision that are expected.
pub proof fn active_goal_is_edited_at_its_revision(
    rows: Seq<ThreadGoalView>,
    k: int,
    expected: RevisionView,
)
    requires
        in_thread_order(rows),
        0 <= k < rows.len(),
    ensures
        edit_applies(rows, rows[k].thread_id, expected) <==> {
            &&& rows[k].status == ThreadGoalStatus::Active
            &&& rows[k].goal_id == expected.goal_id
            &&& rows[k].objective == expected.objective
            &&& rows[k].updated_at_ms == expected.updated_at_ms
        },
{
    goal_at(rows, k);
}

/// The goal of a thread is the row of that thread; a thread without a row has
/// none, and it is neither edited nor resumed.
pub proof fn goal_is_the_row_of_its_thread(
    rows: Seq<ThreadGoalView>,
    id: ThreadId,
    expected: RevisionView,
)
    ensures
        goal_of(rows, id) is Some <==> exists|k: int|
            0 <= k < rows.len() && (#[trigger] rows[k]).thread_id == id,
        goal_of(rows, id) is Some ==> rows.contains(goal_of(rows, id)->0) && goal_of(
            rows,
            id,
        )->0.thread_id == id,
        goal_of(rows, id) is None ==> !edit_applies(rows, id, expected),
{
    if goal_of(rows, id) is Some {
        let k = choose|k: int| 0 <= k < rows.len() && (#[trigger] rows[k]).thread_id == id;
        assert(rows.contains(rows[k]));
    }
}

/// An edit and a resumption are dated at the present, or one millisecond after
/// the revision that they replace where the clock is not past that.
pub proof fn revisions_are_dated_now_or_next(
    goal: ThreadGoalView,
    objective: Seq<char>,
    now_ms: i64,
)
    requires
        goal.updated_at_ms < i64::MAX,
    ensures
        now_ms > goal.updated_at_ms ==> with_objective(goal, objective, now_ms).updated_at_ms
            == now_ms && reactivated(goal, now_ms).updated_at_ms == now_ms,
        now_ms <= goal.updated_at_ms ==> with_objective(goal, objective, now_ms).updated_at_ms
            == goal.updated_at_ms + 1 && reactivated(goal, now_ms).updated_at_ms
            == goal.updated_at_ms + 1,
        with_objective(goal, objective, now_ms).objective == objective,
        with_objective(goal, objective, now_ms).status == goal.status,
        reactivated(goal, now_ms).status == ThreadGoalStatus::Active,
        reactivated(goal, now_ms).objective == goal.objective,
        with_objective(goal, objective, now_ms).thread_id == goal.thread_id,
        with_objective(goal, objective, now_ms).goal_id == goal.goal_id,
        reactivated(goal, now_ms).goal_id == goal.goal_id,
        reactivated(goal, now_ms).tokens_used == goal.tokens_used,
        reactivated(goal, now_ms).token_budget == goal.token_budget,
{
}

/// Storing a changed goal changes the row of its thread, and no other row.
pub proof fn change_stands_in_its_row(rows: Seq<ThreadGoalView>, goal: ThreadGoalView)
    ensures
        with_goal(rows, goal).len() == rows.len(),
        forall|k: int|
            0 <= k < rows.len() ==> #[trigger] with_goal(rows, goal)[k] == if rows[k].thread_id
                == goal.thread_id {
                goal
            } else {
                rows[k]
            },
{
}

/// A page of active goals begins after the cursor, holds the first of them in
/// the order of the table, and is full unless it holds all of them.
pub proof fn page_holds_the_first_active_goals(
    rows: Seq<ThreadGoalView>,
    cursor: Option<ThreadId>,
    limit: nat,
)
    ensures
        ({
            let all = rows.filter(
                |row: ThreadGoalView|
                    row.status == ThreadGoalStatus::Active && (cursor is Some ==> row.thread_id.value
                        > cursor->0.value),
            );
            let page = limited(active_after(rows, cursor), limit);
            &&& page.len() == if all.len() <= limit {
                all.len()
            } else {
                limit
            }
            &&& page == all.take(page.len() as int)
        }),
{
    let wanted = |row: ThreadGoalView|
        row.status == ThreadGoalStatus::Active && (cursor is Some ==> row.thread_id.value
            > cursor->0.value);
    active_rows_are_filtered(rows, cursor, wanted);
    let all = rows.filter(wanted);
    assert(all.take(all.len() as int) =~= all);
}

proof fn active_rows_are_filtered(
    rows: Seq<ThreadGoalView>,
    cursor: Option<ThreadId>,
    wanted: spec_fn(ThreadGoalView) -> bool,
)
    requires
        forall|row: ThreadGoalView| #[trigger]
            wanted(row) <==> row.status == ThreadGoalStatus::Active && (cursor is Some
                ==> row.thread_id.value > cursor->0.value),
    ensures
        active_after(rows, cursor) == rows.filter(wanted),
    decreases rows.len(),
{
    reveal(Seq::filter);
    if rows.len() > 0 {
        active_rows_are_filtered(rows.drop_last(), cursor, wanted);
    } else {
        assert(active_after(rows, cursor) =~= rows.filter(wanted));
    }
}

} // verus!
