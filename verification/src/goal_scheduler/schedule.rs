//! Which durable goals are due for recovery.
use std::collections::HashMap;
use vstd::prelude::*;

use crate::goal_store::active_after;
use crate::goal_store::edit_changes_only_the_objective;
use crate::goal_store::goal_at;
use crate::goal_store::goal_of;
use crate::goal_store::in_thread_order;
use crate::goal_store::is_after;
use crate::goal_store::limited;
use crate::goal_store::reactivated;
use crate::goal_store::resume_changes_only_the_status;
use crate::goal_store::rows;
use crate::goal_store::with_objective;
use crate::goal_store::GoalStore;
use crate::goals::ThreadGoal;
use crate::goals::ThreadGoalStatus;
use crate::goals::ThreadGoalView;
use crate::ids::ThreadId;
use crate::sources::SessionSource;
use crate::sources::ThreadSource;
use crate::storage::SaffronStore;
use crate::storage::WakeView;
use crate::text::same_text;

verus! {

broadcast use vstd::std_specs::hash::group_hash_axioms;

/// How many goals are read at a time.
pub const PAGE_SIZE: usize = 256;

/// Durable identity of one active goal eligible for restart recovery.
///
/// Goal ID, objective, revision time, and optional wake deadline identify the
/// scheduled work.  An adapter must activate only the represented root thread;
/// the identity and root eligibility are checked again immediately before it
/// is called.
#[derive(Debug)]
pub struct GoalSchedule {
    thread_id: ThreadId,
    goal_id: String,
    objective: String,
    updated_at_millis: i64,
    wake_at_millis: Option<i64>,
}

/// The mathematical content of a [`GoalSchedule`].
pub struct ScheduleView {
    pub thread_id: ThreadId,
    pub goal_id: Seq<char>,
    pub objective: Seq<char>,
    pub updated_at_millis: i64,
    pub wake_at_millis: Option<i64>,
}

impl View for GoalSchedule {
    type V = ScheduleView;

    closed spec fn view(&self) -> ScheduleView {
        ScheduleView {
            thread_id: self.thread_id,
            goal_id: self.goal_id@,
            objective: self.objective@,
            updated_at_millis: self.updated_at_millis,
            wake_at_millis: self.wake_at_millis,
        }
    }
}

/// Whether a stored wake was set for the present revision of a goal.
pub open spec fn wake_is_for(wake: WakeView, goal: ThreadGoalView) -> bool {
    &&& wake.goal_id == goal.goal_id
    &&& wake.goal_objective == goal.objective
    &&& wake.goal_updated_at_ms == goal.updated_at_ms
}

/// The schedule of a goal: due at the deadline of its wake, if the wake was
/// set for this revision, else at once.
pub open spec fn schedule_of(goal: ThreadGoalView, wakes: Map<u128, WakeView>) -> ScheduleView {
    let id = goal.thread_id.value;
    ScheduleView {
        thread_id: goal.thread_id,
        goal_id: goal.goal_id,
        objective: goal.objective,
        updated_at_millis: goal.updated_at_ms,
        wake_at_millis: if wakes.dom().contains(id) && wake_is_for(wakes[id], goal) {
            Some(wakes[id].wake_at_ms)
        } else {
            None
        },
    }
}

impl Clone for GoalSchedule {
    fn clone(&self) -> (copy: Self)
        ensures
            copy@ == self@,
    {
        GoalSchedule {
            thread_id: self.thread_id,
            goal_id: self.goal_id.clone(),
            objective: self.objective.clone(),
            updated_at_millis: self.updated_at_millis,
            wake_at_millis: self.wake_at_millis,
        }
    }
}

impl GoalSchedule {
    /// Returns the root thread whose idle lifecycle should be restored.
    pub fn thread_id(&self) -> (id: ThreadId)
        ensures
            id == self@.thread_id,
    {
        self.thread_id
    }

    /// Returns the durable identity of the scheduled goal.
    pub fn goal_id(&self) -> (goal_id: &str)
        ensures
            goal_id@ == self@.goal_id,
    {
        self.goal_id.as_str()
    }

    /// Returns the time before which the goal is not due.
    pub fn wake_at_millis(&self) -> (wake_at: Option<i64>)
        ensures
            wake_at == self@.wake_at_millis,
    {
        self.wake_at_millis
    }

    /// Makes the schedule of a goal.
    pub fn from_goal(goal: &ThreadGoal, store: &SaffronStore) -> (schedule: Self)
        ensures
            schedule@ == schedule_of(goal@, store@.wakes),
    {
        let wake_at_millis: Option<i64> = match store.get_goal_wake(goal.thread_id) {
            Some(wake) => if same_text(wake.goal_id.as_str(), goal.goal_id.as_str())
                && same_text(wake.goal_objective.as_str(), goal.objective.as_str())
                && wake.goal_updated_at_ms == goal.updated_at_ms {
                Some(wake.wake_at_ms)
            } else {
                None
            },
            None => None,
        };
        GoalSchedule {
            thread_id: goal.thread_id,
            goal_id: goal.goal_id.clone(),
            objective: goal.objective.clone(),
            updated_at_millis: goal.updated_at_ms,
            wake_at_millis,
        }
    }

    /// Whether two schedules identify the same work.
    pub fn same_as(&self, other: &GoalSchedule) -> (same: bool)
        ensures
            same == (self@ == other@),
    {
        self.thread_id == other.thread_id && same_text(
            self.goal_id.as_str(),
            other.goal_id.as_str(),
        ) && same_text(self.objective.as_str(), other.objective.as_str())
            && self.updated_at_millis == other.updated_at_millis && self.wake_at_millis
            == other.wake_at_millis
    }
}

/// What is known of a thread besides its goal.
#[derive(Debug)]
pub struct ThreadRecord {
    /// Whether automatic continuation of the thread's goal has been put off.
    pub continuation_deferred: bool,
    /// Whether the thread has been archived.
    pub archived: bool,
    /// What the thread was started for, where that is recorded.
    pub thread_source: Option<ThreadSource>,
    /// What started the thread's session, where that can be read.
    pub source: Option<SessionSource>,
}

/// Whether the goal of a thread may be recovered: the thread is known, is not
/// archived, does not belong to a subagent, and its goal has not been put off.
pub open spec fn is_eligible(record: Option<ThreadRecord>) -> bool {
    match record {
        None => false,
        Some(record) => {
            &&& !record.continuation_deferred
            &&& !record.archived
            &&& record.thread_source != Some(ThreadSource::Subagent)
            &&& !(record.source is Some && record.source->0 is SubAgent)
        },
    }
}

/// Whether the goal of a thread may be recovered.
pub fn schedule_is_eligible(record: Option<&ThreadRecord>) -> (eligible: bool)
    ensures
        eligible == is_eligible(
            match record {
                Some(record) => Some(*record),
                None => None,
            },
        ),
{
    match record {
        None => false,
        Some(record) => {
            let is_subagent: bool = match record.thread_source {
                Some(source) => source == ThreadSource::Subagent,
                None => false,
            };
            let from_subagent: bool = match &record.source {
                Some(source) => source.is_sub_agent(),
                None => false,
            };
            !record.continuation_deferred && !record.archived && !is_subagent && !from_subagent
        },
    }
}

/// What is known of threads.
#[derive(Debug)]
pub struct ThreadDirectory {
    records: HashMap<u128, ThreadRecord>,
}

impl View for ThreadDirectory {
    type V = Map<u128, ThreadRecord>;

    closed spec fn view(&self) -> Map<u128, ThreadRecord> {
        self.records@
    }
}

/// What a directory knows of a thread.
pub open spec fn record_of(threads: Map<u128, ThreadRecord>, id: ThreadId) -> Option<ThreadRecord> {
    if threads.dom().contains(id.value) {
        Some(threads[id.value])
    } else {
        None
    }
}

impl ThreadDirectory {
    /// A directory without threads.
    pub fn new() -> (threads: Self)
        ensures
            threads@ == Map::<u128, ThreadRecord>::empty(),
    {
        ThreadDirectory { records: HashMap::new() }
    }

    /// Records what is known of a thread.
    pub fn insert(&mut self, id: ThreadId, record: ThreadRecord)
        ensures
            final(self)@ == old(self)@.insert(id.value, record),
    {
        self.records.insert(id.value, record);
    }

    /// Whether the goal of a thread may be recovered.
    pub fn is_eligible(&self, id: ThreadId) -> (eligible: bool)
        ensures
            eligible == is_eligible(record_of(self@, id)),
    {
        schedule_is_eligible(self.records.get(&id.value))
    }
}

/// The schedules of those goals that may be recovered.
pub open spec fn eligible_schedules(
    goals: Seq<ThreadGoalView>,
    wakes: Map<u128, WakeView>,
    threads: Map<u128, ThreadRecord>,
) -> Seq<ScheduleView>
    decreases goals.len(),
{
    if goals.len() == 0 {
        Seq::empty()
    } else {
        let before = eligible_schedules(goals.drop_last(), wakes, threads);
        if is_eligible(record_of(threads, goals.last().thread_id)) {
            before.push(schedule_of(goals.last(), wakes))
        } else {
            before
        }
    }
}

/// The content of schedules.
pub open spec fn schedule_views(schedules: Seq<GoalSchedule>) -> Seq<ScheduleView> {
    schedules.map_values(|schedule: GoalSchedule| schedule@)
}

/// Whether schedules are in ascending order of their threads, one for each.
pub open spec fn in_schedule_order(schedules: Seq<ScheduleView>) -> bool {
    forall|i: int, j: int|
        0 <= i < j < schedules.len() ==> (#[trigger] schedules[i]).thread_id.value < (
        #[trigger] schedules[j]).thread_id.value
}

proof fn eligible_schedules_of_sum(
    a: Seq<ThreadGoalView>,
    b: Seq<ThreadGoalView>,
    wakes: Map<u128, WakeView>,
    threads: Map<u128, ThreadRecord>,
)
    ensures
        eligible_schedules(a + b, wakes, threads) == eligible_schedules(a, wakes, threads)
            + eligible_schedules(b, wakes, threads),
    decreases b.len(),
{
    if b.len() == 0 {
        assert(a + b =~= a);
        assert(eligible_schedules(a, wakes, threads) + Seq::<ScheduleView>::empty()
            =~= eligible_schedules(a, wakes, threads));
    } else {
        eligible_schedules_of_sum(a, b.drop_last(), wakes, threads);
        assert((a + b).drop_last() =~= a + b.drop_last());
        assert((a + b).last() == b.last());
        assert(eligible_schedules(a + b, wakes, threads) =~= eligible_schedules(a, wakes, threads)
            + eligible_schedules(b, wakes, threads));
    }
}

/// The active goals are goals of the table, active and after the cursor, in
/// the order of their threads; and none is missing.
pub proof fn active_goals_are_listed(rows: Seq<ThreadGoalView>, cursor: Option<ThreadId>)
    requires
        in_thread_order(rows),
    ensures
        in_thread_order(active_after(rows, cursor)),
        forall|k: int|
            0 <= k < active_after(rows, cursor).len() ==> is_after(
                (#[trigger] active_after(rows, cursor)[k]).thread_id,
                cursor,
            ) && active_after(rows, cursor)[k].status == ThreadGoalStatus::Active
                && rows.contains(active_after(rows, cursor)[k]),
        forall|k: int|
            0 <= k < rows.len() && (#[trigger] rows[k]).status == ThreadGoalStatus::Active
                && is_after(rows[k].thread_id, cursor) ==> active_after(rows, cursor).contains(
                rows[k],
            ),
    decreases rows.len(),
{
    if rows.len() > 0 {
        let earlier = rows.drop_last();
        active_goals_are_listed(earlier, cursor);
        let before = active_after(earlier, cursor);
        let after = active_after(rows, cursor);
        let last = rows.last();
        assert forall|k: int| 0 <= k < after.len() implies is_after(
            (#[trigger] after[k]).thread_id,
            cursor,
        ) && after[k].status == ThreadGoalStatus::Active && rows.contains(after[k]) by {
            if k < before.len() {
                assert(after[k] == before[k]);
                let j = choose|j: int| 0 <= j < earlier.len() && earlier[j] == before[k];
                assert(rows[j] == after[k]);
            } else {
                assert(after[k] == rows[rows.len() - 1]);
            }
        }
        assert forall|i: int, j: int| 0 <= i < j < after.len() implies (
        #[trigger] after[i]).thread_id.value < (#[trigger] after[j]).thread_id.value by {
            if j < before.len() {
                assert(after[i] == before[i] && after[j] == before[j]);
            } else {
                assert(after[i] == before[i]);
                let m = choose|m: int| 0 <= m < earlier.len() && earlier[m] == before[i];
                assert(rows[m] == after[i]);
                assert(rows[m].thread_id.value < rows[rows.len() - 1].thread_id.value);
            }
        }
        assert forall|k: int|
            0 <= k < rows.len() && (#[trigger] rows[k]).status == ThreadGoalStatus::Active
                && is_after(rows[k].thread_id, cursor) implies after.contains(rows[k]) by {
            if k < earlier.len() {
                assert(earlier[k] == rows[k]);
                let j = choose|j: int| 0 <= j < before.len() && before[j] == rows[k];
                assert(after[j] == rows[k]);
            } else {
                assert(after[after.len() - 1] == rows[k]);
            }
        }
    }
}

/// Reading on from the last goal of a page gives what the page left out.
proof fn next_page_continues(
    rows: Seq<ThreadGoalView>,
    cursor: Option<ThreadId>,
    count: int,
    next: ThreadId,
)
    requires
        in_thread_order(rows),
        0 < count <= active_after(rows, cursor).len(),
        next == active_after(rows, cursor)[count - 1].thread_id,
    ensures
        active_after(rows, Some(next)) == active_after(rows, cursor).skip(count),
    decreases rows.len(),
{
    let all = active_after(rows, cursor);
    active_goals_are_listed(rows, cursor);
    let earlier = rows.drop_last();
    let before = active_after(earlier, cursor);
    let last = rows.last();
    assert(in_thread_order(earlier)) by {
        assert forall|i: int, j: int| 0 <= i < j < earlier.len() implies (
        #[trigger] earlier[i]).thread_id.value < (#[trigger] earlier[j]).thread_id.value by {
            assert(rows[i].thread_id.value < rows[j].thread_id.value);
        }
    }
    if count <= before.len() {
        assert(all[count - 1] == before[count - 1]);
        next_page_continues(earlier, cursor, count, next);
        active_goals_are_listed(earlier, cursor);
        let m = choose|m: int| 0 <= m < earlier.len() && earlier[m] == before[count - 1];
        assert(rows[m].thread_id.value < rows[rows.len() - 1].thread_id.value);
        assert(is_after(last.thread_id, Some(next)));
        if last.status == ThreadGoalStatus::Active && is_after(last.thread_id, cursor) {
            assert(all.skip(count) =~= before.skip(count).push(last));
        } else {
            assert(all.skip(count) =~= before.skip(count));
            if last.status == ThreadGoalStatus::Active {
                active_goals_are_listed(earlier, cursor);
                assert(is_after(before[count - 1].thread_id, cursor));
            }
        }
    } else {
        assert(all[count - 1] == last);
        assert(all.skip(count) =~= Seq::<ThreadGoalView>::empty());
        active_goals_are_listed(rows, Some(next));
        let rest = active_after(rows, Some(next));
        if rest.len() > 0 {
            let goal = rest[0];
            let m = choose|m: int| 0 <= m < rows.len() && rows[m] == goal;
            if m < rows.len() - 1 {
                assert(rows[m].thread_id.value < rows[rows.len() - 1].thread_id.value);
            }
            assert(false);
        }
        assert(rest =~= Seq::<ThreadGoalView>::empty());
    }
}

/// Schedules of the goals found eligible by a scan.
#[derive(Debug)]
pub struct EligibleGoals {
    schedules: Vec<GoalSchedule>,
}

impl View for EligibleGoals {
    type V = Seq<ScheduleView>;

    closed spec fn view(&self) -> Seq<ScheduleView> {
        schedule_views(self.schedules@)
    }
}

impl EligibleGoals {
    /// The schedules.
    pub fn schedules(&self) -> (schedules: &Vec<GoalSchedule>)
        ensures
            schedule_views(schedules@) == self@,
    {
        &self.schedules
    }
}

/// A scan for eligible goals in progress, page by page.
#[derive(Debug)]
pub struct GoalScan {
    cursor: Option<ThreadId>,
    found: EligibleGoals,
    finished: bool,
}

/// The mathematical content of a [`GoalScan`].
pub struct ScanView {
    /// The last thread that has been read.
    pub cursor: Option<ThreadId>,
    /// The schedules found so far.
    pub found: Seq<ScheduleView>,
    /// Whether there is no page left to read.
    pub finished: bool,
}

impl View for GoalScan {
    type V = ScanView;

    closed spec fn view(&self) -> ScanView {
        ScanView { cursor: self.cursor, found: self.found@, finished: self.finished }
    }
}

/// The scan after a page has been read.
pub open spec fn scan_after(
    scan: ScanView,
    page: Seq<ThreadGoalView>,
    wakes: Map<u128, WakeView>,
    threads: Map<u128, ThreadRecord>,
) -> ScanView {
    ScanView {
        cursor: if page.len() > 0 {
            Some(page.last().thread_id)
        } else {
            scan.cursor
        },
        found: scan.found + eligible_schedules(page, wakes, threads),
        finished: page.len() != PAGE_SIZE,
    }
}

impl GoalScan {
    /// A scan that has read nothing.
    pub fn new() -> (scan: Self)
        ensures
            scan@ == (ScanView { cursor: None, found: Seq::empty(), finished: false }),
    {
        let scan = GoalScan {
            cursor: None,
            found: EligibleGoals { schedules: Vec::new() },
            finished: false,
        };
        proof {
            assert(scan@.found =~= Seq::<ScheduleView>::empty());
        }
        scan
    }

    /// The last thread that has been read: the cursor of the next page.
    pub fn cursor(&self) -> (cursor: Option<ThreadId>)
        ensures
            cursor == self@.cursor,
    {
        self.cursor
    }

    /// Whether there is no page left to read.
    pub fn is_finished(&self) -> (finished: bool)
        ensures
            finished == self@.finished,
    {
        self.finished
    }

    /// Takes the next page of active goals.
    pub fn accept_page(
        &mut self,
        page: &Vec<ThreadGoal>,
        store: &SaffronStore,
        threads: &ThreadDirectory,
    )
        ensures
            final(self)@ == scan_after(old(self)@, rows(page@), store@.wakes, threads@),
    {
        let ghost goals = rows(page@);
        let ghost before = self@.found;
        let mut i: usize = 0;
        proof {
            assert(goals.take(0) =~= Seq::<ThreadGoalView>::empty());
            assert(before + Seq::<ScheduleView>::empty() =~= before);
        }
        while i < page.len()
            invariant
                i <= page.len(),
                goals == rows(page@),
                self@.found == before + eligible_schedules(
                    goals.take(i as int),
                    store@.wakes,
                    threads@,
                ),
                self@.cursor == (if i > 0 {
                    Some(goals[i - 1].thread_id)
                } else {
                    old(self)@.cursor
                }),
            decreases page.len() - i,
        {
            let goal: &ThreadGoal = &page[i];
            proof {
                assert(goals[i as int] == goal@);
                assert(goals.take(i + 1).drop_last() =~= goals.take(i as int));
                assert(goals.take(i + 1).last() == goal@);
            }
            self.cursor = Some(goal.thread_id);
            if threads.is_eligible(goal.thread_id) {
                let schedule: GoalSchedule = GoalSchedule::from_goal(goal, store);
                let ghost earlier = self.found.schedules@;
                let ghost added = schedule@;
                self.found.schedules.push(schedule);
                proof {
                    assert(self@.found =~= schedule_views(earlier).push(added));
                    assert(self@.found =~= before + eligible_schedules(
                        goals.take(i + 1),
                        store@.wakes,
                        threads@,
                    ));
                }
            }
            i += 1;
        }
        self.finished = page.len() != PAGE_SIZE;
        proof {
            assert(goals.take(goals.len() as int) =~= goals);
        }
    }

    /// What has been found.
    pub fn into_found(self) -> (found: EligibleGoals)
        ensures
            found@ == self@.found,
    {
        self.found
    }
}

/// Finds every active goal that may be recovered.
pub fn scan_eligible_goals(
    goals: &GoalStore,
    store: &SaffronStore,
    threads: &ThreadDirectory,
) -> (found: EligibleGoals)
    ensures
        found@ == eligible_schedules(active_after(goals@, None), store@.wakes, threads@),
        in_schedule_order(found@),
        found@.no_duplicates(),
{
    let ghost all = active_after(goals@, None);
    let mut scan: GoalScan = GoalScan::new();
    let ghost mut read: int = 0;
    proof {
        assert(all.take(0) =~= Seq::<ThreadGoalView>::empty());
        assert(all.skip(0) =~= all);
    }
    while !scan.is_finished()
        invariant
            all == active_after(goals@, None),
            0 <= read <= all.len(),
            !scan@.finished ==> active_after(goals@, scan@.cursor) == all.skip(read),
            scan@.finished ==> read == all.len() && in_thread_order(goals@),
            scan@.found == eligible_schedules(all.take(read), store@.wakes, threads@),
        decreases all.len() - read + (if scan@.finished { 0int } else { 1int }),
    {
        let ghost cursor = scan@.cursor;
        let page: Vec<ThreadGoal> = goals.list_active_thread_goals(scan.cursor(), PAGE_SIZE);
        let ghost rest = all.skip(read);
        let ghost next = rows(page@);
        scan.accept_page(&page, store, threads);
        proof {
            assert(next == limited(rest, PAGE_SIZE as nat));
            assert(next.len() <= PAGE_SIZE);
            eligible_schedules_of_sum(all.take(read), next, store@.wakes, threads@);
            assert(next =~= rest.take(next.len() as int));
            assert(all.take(read) + next =~= all.take(read + next.len()));
            if next.len() == PAGE_SIZE {
                next_page_continues(goals@, cursor, next.len() as int, next.last().thread_id);
                assert(next.last() == rest[next.len() - 1]);
                assert(rest.skip(next.len() as int) =~= all.skip(read + next.len()));
            } else {
                assert(next =~= rest);
            }
            read = read + next.len();
        }
    }
    proof {
        assert(all.take(read) =~= all);
        schedules_keep_order(goals@, store@.wakes, threads@);
    }
    scan.into_found()
}

proof fn schedules_keep_order_of(
    goals: Seq<ThreadGoalView>,
    wakes: Map<u128, WakeView>,
    threads: Map<u128, ThreadRecord>,
)
    requires
        in_thread_order(goals),
    ensures
        in_schedule_order(eligible_schedules(goals, wakes, threads)),
        forall|k: int|
            0 <= k < eligible_schedules(goals, wakes, threads).len() ==> exists|j: int|
                0 <= j < goals.len() && schedule_of(#[trigger] goals[j], wakes) == (
                #[trigger] eligible_schedules(goals, wakes, threads)[k]) && is_eligible(
                    record_of(threads, goals[j].thread_id),
                ),
        forall|j: int|
            0 <= j < goals.len() && is_eligible(
                record_of(threads, (#[trigger] goals[j]).thread_id),
            ) ==> eligible_schedules(goals, wakes, threads).contains(schedule_of(goals[j], wakes)),
    decreases goals.len(),
{
    if goals.len() > 0 {
        let earlier = goals.drop_last();
        let last = goals.last();
        assert(in_thread_order(earlier)) by {
            assert forall|i: int, j: int| 0 <= i < j < earlier.len() implies (
            #[trigger] earlier[i]).thread_id.value < (#[trigger] earlier[j]).thread_id.value by {
                assert(goals[i].thread_id.value < goals[j].thread_id.value);
            }
        }
        schedules_keep_order_of(earlier, wakes, threads);
        let before = eligible_schedules(earlier, wakes, threads);
        let after = eligible_schedules(goals, wakes, threads);
        assert forall|k: int| 0 <= k < after.len() implies exists|j: int|
            0 <= j < goals.len() && schedule_of(#[trigger] goals[j], wakes) == (
            #[trigger] after[k]) && is_eligible(record_of(threads, goals[j].thread_id)) by {
            if k < before.len() {
                assert(after[k] == before[k]);
                let j = choose|j: int|
                    0 <= j < earlier.len() && schedule_of(#[trigger] earlier[j], wakes)
                        == before[k] && is_eligible(record_of(threads, earlier[j].thread_id));
                assert(goals[j] == earlier[j]);
            } else {
                assert(goals[goals.len() - 1] == last);
            }
        }
        assert forall|i: int, j: int| 0 <= i < j < after.len() implies (
        #[trigger] after[i]).thread_id.value < (#[trigger] after[j]).thread_id.value by {
            assert(after[i] == before[i]);
            if j < before.len() {
                assert(after[j] == before[j]);
            } else {
                let m = choose|m: int|
                    0 <= m < earlier.len() && schedule_of(#[trigger] earlier[m], wakes)
                        == before[i] && is_eligible(record_of(threads, earlier[m].thread_id));
                assert(goals[m].thread_id.value < goals[goals.len() - 1].thread_id.value);
            }
        }
        assert forall|j: int|
            0 <= j < goals.len() && is_eligible(
                record_of(threads, (#[trigger] goals[j]).thread_id),
            ) implies after.contains(schedule_of(goals[j], wakes)) by {
            if j < earlier.len() {
                assert(earlier[j] == goals[j]);
                let k = choose|k: int|
                    0 <= k < before.len() && before[k] == schedule_of(goals[j], wakes);
                assert(after[k] == before[k]);
            } else {
                assert(after[after.len() - 1] == schedule_of(goals[j], wakes));
            }
        }
    }
}

proof fn schedules_keep_order(
    rows: Seq<ThreadGoalView>,
    wakes: Map<u128, WakeView>,
    threads: Map<u128, ThreadRecord>,
)
    requires
        in_thread_order(rows),
    ensures
        in_schedule_order(eligible_schedules(active_after(rows, None), wakes, threads)),
{
    active_goals_are_listed(rows, None);
    schedules_keep_order_of(active_after(rows, None), wakes, threads);
}

/// The schedule of a thread's goal, if it is active and may be recovered.
pub open spec fn schedule_now(
    rows: Seq<ThreadGoalView>,
    wakes: Map<u128, WakeView>,
    threads: Map<u128, ThreadRecord>,
    id: ThreadId,
) -> Option<ScheduleView> {
    match goal_of(rows, id) {
        None => None,
        Some(goal) => if goal.status == ThreadGoalStatus::Active && is_eligible(
            record_of(threads, id),
        ) {
            Some(schedule_of(goal, wakes))
        } else {
            None
        },
    }
}

/// Makes the schedule of a thread's goal, if it is active and may be
/// recovered.
pub fn current_schedule(
    goals: &GoalStore,
    store: &SaffronStore,
    threads: &ThreadDirectory,
    thread_id: ThreadId,
) -> (schedule: Option<GoalSchedule>)
    ensures
        (match schedule {
            Some(schedule) => schedule_now(goals@, store@.wakes, threads@, thread_id) == Some(
                schedule@,
            ),
            None => schedule_now(goals@, store@.wakes, threads@, thread_id) is None,
        }),
{
    match goals.get_thread_goal(thread_id) {
        None => None,
        Some(goal) => if goal.status == ThreadGoalStatus::Active && threads.is_eligible(
            thread_id,
        ) {
            Some(GoalSchedule::from_goal(goal, store))
        } else {
            None
        },
    }
}

/// A scan finds the schedule of a thread exactly if a look at that thread
/// alone does.
pub proof fn scan_agrees_with_revalidation(
    rows: Seq<ThreadGoalView>,
    wakes: Map<u128, WakeView>,
    threads: Map<u128, ThreadRecord>,
    schedule: ScheduleView,
)
    requires
        in_thread_order(rows),
    ensures
        eligible_schedules(active_after(rows, None), wakes, threads).contains(schedule)
            <==> schedule_now(rows, wakes, threads, schedule.thread_id) == Some(schedule),
{
    let active = active_after(rows, None);
    active_goals_are_listed(rows, None);
    schedules_keep_order_of(active, wakes, threads);
    let found = eligible_schedules(active, wakes, threads);
    if found.contains(schedule) {
        let k = choose|k: int| 0 <= k < found.len() && found[k] == schedule;
        let j = choose|j: int|
            0 <= j < active.len() && schedule_of(#[trigger] active[j], wakes) == found[k]
                && is_eligible(record_of(threads, active[j].thread_id));
        let goal = active[j];
        let m = choose|m: int| 0 <= m < rows.len() && rows[m] == goal;
        goal_at(rows, m);
    }
    if schedule_now(rows, wakes, threads, schedule.thread_id) == Some(schedule) {
        let goal = goal_of(rows, schedule.thread_id)->0;
        let m = choose|m: int|
            0 <= m < rows.len() && (#[trigger] rows[m]).thread_id == schedule.thread_id;
        assert(rows[m] == goal);
        assert(active.contains(rows[m]));
        let j = choose|j: int| 0 <= j < active.len() && active[j] == goal;
        assert(is_eligible(record_of(threads, active[j].thread_id)));
    }
}

/// A wake that was set for another revision of a goal gives the goal no
/// deadline.
pub proof fn stale_wake_gives_no_deadline(goal: ThreadGoalView, wakes: Map<u128, WakeView>)
    requires
        wakes.dom().contains(goal.thread_id.value),
        !wake_is_for(wakes[goal.thread_id.value], goal),
    ensures
        schedule_of(goal, wakes).wake_at_millis is None,
{
}

/// A change of another thread's wake leaves the schedule of a goal as it is.
pub proof fn other_wakes_do_not_matter(
    goal: ThreadGoalView,
    wakes: Map<u128, WakeView>,
    other: WakeView,
)
    requires
        other.thread_id != goal.thread_id,
    ensures
        schedule_of(goal, wakes.insert(other.thread_id.value, other)) == schedule_of(goal, wakes),
        schedule_of(goal, wakes.remove(other.thread_id.value)) == schedule_of(goal, wakes),
{
    assert(other.thread_id.value != goal.thread_id.value);
}

/// A stored wake of the present revision gives the goal exactly its deadline,
/// whatever was stored before: a restart preserves the time of the wake.
pub proof fn stored_wake_is_the_deadline(
    goal: ThreadGoalView,
    wakes: Map<u128, WakeView>,
    wake: WakeView,
)
    requires
        wake.thread_id == goal.thread_id,
        wake_is_for(wake, goal),
    ensures
        schedule_of(goal, wakes.insert(wake.thread_id.value, wake)).wake_at_millis == Some(
            wake.wake_at_ms,
        ),
{
}

/// An edit or a resumption makes every wake that was set before obsolete, and
/// every schedule that was made before is no longer that of the goal.
pub proof fn changes_make_schedules_obsolete(
    goal: ThreadGoalView,
    objective: Seq<char>,
    now_ms: i64,
    wakes: Map<u128, WakeView>,
    wake: WakeView,
)
    requires
        goal.updated_at_ms < i64::MAX,
        wake_is_for(wake, goal),
    ensures
        !wake_is_for(wake, with_objective(goal, objective, now_ms)),
        !wake_is_for(wake, reactivated(goal, now_ms)),
        schedule_of(with_objective(goal, objective, now_ms), wakes) != schedule_of(goal, wakes),
        schedule_of(reactivated(goal, now_ms), wakes) != schedule_of(goal, wakes),
{
    edit_changes_only_the_objective(goal, objective, now_ms);
    resume_changes_only_the_status(goal, now_ms);
}

} // verus!
