//! Durable goals of threads.
use vstd::prelude::*;

use crate::ids::ThreadId;
use crate::text::same_text;

verus! {

/// Where a goal is in its life.
#[derive(Clone, Copy, Debug, PartialEq, Eq, Structural)]
pub enum ThreadGoalStatus {
    Active,
    Paused,
    Blocked,
    UsageLimited,
    BudgetLimited,
    Complete,
}

/// The stored name of a status.
pub open spec fn status_name(status: ThreadGoalStatus) -> Seq<char> {
    match status {
        ThreadGoalStatus::Active => "active"@,
        ThreadGoalStatus::Paused => "paused"@,
        ThreadGoalStatus::Blocked => "blocked"@,
        ThreadGoalStatus::UsageLimited => "usage_limited"@,
        ThreadGoalStatus::BudgetLimited => "budget_limited"@,
        ThreadGoalStatus::Complete => "complete"@,
    }
}

impl ThreadGoalStatus {
    /// The stored name of this status.
    pub fn as_str(&self) -> (name: &'static str)
        ensures
            name@ == status_name(*self),
    {
        match self {
            ThreadGoalStatus::Active => "active",
            ThreadGoalStatus::Paused => "paused",
            ThreadGoalStatus::Blocked => "blocked",
            ThreadGoalStatus::UsageLimited => "usage_limited",
            ThreadGoalStatus::BudgetLimited => "budget_limited",
            ThreadGoalStatus::Complete => "complete",
        }
    }

    /// The status with a stored name.
    pub fn from_name(name: &str) -> (status: Option<ThreadGoalStatus>)
        ensures
            (match status {
                Some(status) => name@ == status_name(status),
                None => forall|status: ThreadGoalStatus| name@ != #[trigger] status_name(status),
            }),
    {
        if same_text(name, "active") {
            Some(ThreadGoalStatus::Active)
        } else if same_text(name, "paused") {
            Some(ThreadGoalStatus::Paused)
        } else if same_text(name, "blocked") {
            Some(ThreadGoalStatus::Blocked)
        } else if same_text(name, "usage_limited") {
            Some(ThreadGoalStatus::UsageLimited)
        } else if same_text(name, "budget_limited") {
            Some(ThreadGoalStatus::BudgetLimited)
        } else if same_text(name, "complete") {
            Some(ThreadGoalStatus::Complete)
        } else {
            None
        }
    }
}

/// Different statuses have different stored names.
pub proof fn status_names_differ(a: ThreadGoalStatus, b: ThreadGoalStatus)
    requires
        a != b,
    ensures
        status_name(a) != status_name(b),
{
    reveal_strlit("active");
    reveal_strlit("paused");
    reveal_strlit("blocked");
    reveal_strlit("usage_limited");
    reveal_strlit("budget_limited");
    reveal_strlit("complete");
    assert("active"@[0] == 'a');
    assert("paused"@[0] == 'p');
    assert("blocked"@[1] == 'l');
    assert("blocked"@[0] == 'b');
    assert("usage_limited"@[0] == 'u');
    assert("budget_limited"@[0] == 'b');
    assert("budget_limited"@[1] == 'u');
    assert("complete"@[0] == 'c');
}

/// A durable goal.  Times are in milliseconds since the epoch.
#[derive(Debug)]
pub struct ThreadGoal {
    pub thread_id: ThreadId,
    pub goal_id: String,
    pub objective: String,
    pub status: ThreadGoalStatus,
    pub token_budget: Option<i64>,
    pub tokens_used: i64,
    pub time_used_seconds: i64,
    pub created_at_ms: i64,
    pub updated_at_ms: i64,
}

/// The mathematical content of a [`ThreadGoal`].
pub struct ThreadGoalView {
    pub thread_id: ThreadId,
    pub goal_id: Seq<char>,
    pub objective: Seq<char>,
    pub status: ThreadGoalStatus,
    pub token_budget: Option<i64>,
    pub tokens_used: i64,
    pub time_used_seconds: i64,
    pub created_at_ms: i64,
    pub updated_at_ms: i64,
}

impl View for ThreadGoal {
    type V = ThreadGoalView;

    open spec fn view(&self) -> ThreadGoalView {
        ThreadGoalView {
            thread_id: self.thread_id,
            goal_id: self.goal_id@,
            objective: self.objective@,
            status: self.status,
            token_budget: self.token_budget,
            tokens_used: self.tokens_used,
            time_used_seconds: self.time_used_seconds,
            created_at_ms: self.created_at_ms,
            updated_at_ms: self.updated_at_ms,
        }
    }
}

impl Clone for ThreadGoal {
    fn clone(&self) -> (copy: Self)
        ensures
            copy@ == self@,
    {
        ThreadGoal {
            thread_id: self.thread_id,
            goal_id: self.goal_id.clone(),
            objective: self.objective.clone(),
            status: self.status,
            token_budget: self.token_budget,
            tokens_used: self.tokens_used,
            time_used_seconds: self.time_used_seconds,
            created_at_ms: self.created_at_ms,
            updated_at_ms: self.updated_at_ms,
        }
    }
}

impl ThreadGoal {
    /// Whether two goals are the same in every field.
    pub fn same_as(&self, other: &ThreadGoal) -> (same: bool)
        ensures
            same == (self@ == other@),
    {
        self.thread_id == other.thread_id && same_text(
            self.goal_id.as_str(),
            other.goal_id.as_str(),
        ) && same_text(self.objective.as_str(), other.objective.as_str()) && self.status
            == other.status && self.token_budget == other.token_budget && self.tokens_used
            == other.tokens_used && self.time_used_seconds == other.time_used_seconds
            && self.created_at_ms == other.created_at_ms && self.updated_at_ms
            == other.updated_at_ms
    }
}

/// Identifies the goal snapshot against which a decision was made.
///
/// The stored objective participates in the comparison because goal timestamps
/// have millisecond resolution.  It prevents a same-millisecond user edit from
/// being overwritten even if the timestamp alone cannot distinguish it.
#[derive(Debug)]
pub struct ThreadGoalRevision {
    goal_id: String,
    objective: String,
    updated_at_ms: i64,
}

/// The mathematical content of a [`ThreadGoalRevision`].
pub struct RevisionView {
    pub goal_id: Seq<char>,
    pub objective: Seq<char>,
    pub updated_at_ms: i64,
}

impl View for ThreadGoalRevision {
    type V = RevisionView;

    closed spec fn view(&self) -> RevisionView {
        RevisionView {
            goal_id: self.goal_id@,
            objective: self.objective@,
            updated_at_ms: self.updated_at_ms,
        }
    }
}

/// The revision that a goal is at.
pub open spec fn revision_of(goal: ThreadGoalView) -> RevisionView {
    RevisionView {
        goal_id: goal.goal_id,
        objective: goal.objective,
        updated_at_ms: goal.updated_at_ms,
    }
}

impl Clone for ThreadGoalRevision {
    fn clone(&self) -> (copy: Self)
        ensures
            copy@ == self@,
    {
        ThreadGoalRevision {
            goal_id: self.goal_id.clone(),
            objective: self.objective.clone(),
            updated_at_ms: self.updated_at_ms,
        }
    }
}

impl ThreadGoalRevision {
    /// Captures the fields needed to reject a stale decision.
    pub fn capture(goal: &ThreadGoal) -> (revision: Self)
        ensures
            revision@ == revision_of(goal@),
    {
        ThreadGoalRevision {
            goal_id: goal.goal_id.clone(),
            objective: goal.objective.clone(),
            updated_at_ms: goal.updated_at_ms,
        }
    }

    /// Returns the durable identity of the captured goal.
    pub fn goal_id(&self) -> (goal_id: &str)
        ensures
            goal_id@ == self@.goal_id,
    {
        self.goal_id.as_str()
    }

    /// Whether a goal is at this revision.
    pub fn is_current(&self, goal: &ThreadGoal) -> (current: bool)
        ensures
            current == (revision_of(goal@) == self@),
    {
        same_text(goal.goal_id.as_str(), self.goal_id.as_str()) && same_text(
            goal.objective.as_str(),
            self.objective.as_str(),
        ) && goal.updated_at_ms == self.updated_at_ms
    }
}

/// A goal as it is shown to clients.  Times are in seconds since the epoch.
#[derive(Debug)]
pub struct ProtocolGoal {
    pub thread_id: ThreadId,
    pub objective: String,
    pub status: ThreadGoalStatus,
    pub token_budget: Option<i64>,
    pub tokens_used: i64,
    pub time_used_seconds: i64,
    pub created_at: i64,
    pub updated_at: i64,
}

/// The whole seconds of a time in milliseconds, rounded down.
pub open spec fn whole_seconds(ms: i64) -> int {
    ms as int / 1000
}

/// Whether a goal is what clients are shown of `goal`.
pub open spec fn shows(shown: ProtocolGoal, goal: ThreadGoalView) -> bool {
    &&& shown.thread_id == goal.thread_id
    &&& shown.objective@ == goal.objective
    &&& shown.status == goal.status
    &&& shown.token_budget == goal.token_budget
    &&& shown.tokens_used == goal.tokens_used
    &&& shown.time_used_seconds == goal.time_used_seconds
    &&& shown.created_at == whole_seconds(goal.created_at_ms)
    &&& shown.updated_at == whole_seconds(goal.updated_at_ms)
}

fn seconds_of(ms: i64) -> (seconds: i64)
    ensures
        seconds == whole_seconds(ms),
{
    if ms >= 0 {
        ms / 1000
    } else {
        -((-(ms + 1)) / 1000) - 1
    }
}

/// Shows a goal to clients.
pub fn protocol_goal(goal: &ThreadGoal) -> (shown: ProtocolGoal)
    ensures
        shows(shown, goal@),
{
    ProtocolGoal {
        thread_id: goal.thread_id,
        objective: goal.objective.clone(),
        status: goal.status,
        token_budget: goal.token_budget,
        tokens_used: goal.tokens_used,
        time_used_seconds: goal.time_used_seconds,
        created_at: seconds_of(goal.created_at_ms),
        updated_at: seconds_of(goal.updated_at_ms),
    }
}

/// Clients are shown the fields of a goal, with its times in seconds: the last
/// whole second that is not after the time.
pub proof fn clients_are_shown_the_goal(shown: ProtocolGoal, goal: ThreadGoal)
    ensures
        shows(shown, goal@) <==> {
            &&& shown.thread_id == goal.thread_id
            &&& shown.objective@ == goal.objective@
            &&& shown.status == goal.status
            &&& shown.token_budget == goal.token_budget
            &&& shown.tokens_used == goal.tokens_used
            &&& shown.time_used_seconds == goal.time_used_seconds
            &&& shown.created_at * 1000 <= goal.created_at_ms < (shown.created_at + 1) * 1000
            &&& shown.updated_at * 1000 <= goal.updated_at_ms < (shown.updated_at + 1) * 1000
        },
{
}

/// Two goals are at the same revision exactly if they have the same identity,
/// objective and time of revision.
pub proof fn revision_is_identity_objective_and_time(a: ThreadGoal, b: ThreadGoal)
    ensures
        revision_of(a@) == revision_of(b@) <==> a.goal_id@ == b.goal_id@ && a.objective@
            == b.objective@ && a.updated_at_ms == b.updated_at_ms,
        revision_of(a@).goal_id == a.goal_id@,
        revision_of(a@).objective == a.objective@,
        revision_of(a@).updated_at_ms == a.updated_at_ms,
{
}

/// Goals have the same content exactly if each field has.
pub proof fn content_of_a_goal_is_its_fields(a: ThreadGoal, b: ThreadGoal)
    ensures
        a@ == b@ <==> {
            &&& a.thread_id == b.thread_id
            &&& a.goal_id@ == b.goal_id@
            &&& a.objective@ == b.objective@
            &&& a.status == b.status
            &&& a.token_budget == b.token_budget
            &&& a.tokens_used == b.tokens_used
            &&& a.time_used_seconds == b.time_used_seconds
            &&& a.created_at_ms == b.created_at_ms
            &&& a.updated_at_ms == b.updated_at_ms
        },
        a@.thread_id == a.thread_id,
        a@.status == a.status,
        a@.token_budget == a.token_budget,
        a@.tokens_used == a.tokens_used,
        a@.updated_at_ms == a.updated_at_ms,
{
}

} // verus!
