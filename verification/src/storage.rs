//! Durable auxiliary state of the goal supervisor.
//!
//! Two tables keep, for each thread, the next deferred check-in and the last
//! action that the supervisor committed.  This module owns what the tables
//! mean; opening the database and moving rows in and out of it is left to the
//! host.
use std::collections::HashMap;
use vstd::prelude::*;

use crate::ids::parsed_thread_id;
use crate::ids::thread_id_text;
use crate::ids::thread_id_text_parses_back;
use crate::ids::ThreadId;
use crate::text::same_text;

verus! {

broadcast use vstd::std_specs::hash::group_hash_axioms;

/// Exact durable identity of one deferred supervisor check-in.
///
/// Goal ID, objective, and revision time form the revision identity.  The
/// objective distinguishes edits that share a millisecond.  Exact conditional
/// deletion prevents an obsolete timer from removing a newer schedule.
#[derive(Debug)]
pub struct GoalWake {
    pub thread_id: ThreadId,
    pub goal_id: String,
    pub goal_objective: String,
    pub goal_updated_at_ms: i64,
    pub wake_at_ms: i64,
}

/// The mathematical content of a [`GoalWake`].
pub struct WakeView {
    pub thread_id: ThreadId,
    pub goal_id: Seq<char>,
    pub goal_objective: Seq<char>,
    pub goal_updated_at_ms: i64,
    pub wake_at_ms: i64,
}

impl View for GoalWake {
    type V = WakeView;

    open spec fn view(&self) -> WakeView {
        WakeView {
            thread_id: self.thread_id,
            goal_id: self.goal_id@,
            goal_objective: self.goal_objective@,
            goal_updated_at_ms: self.goal_updated_at_ms,
            wake_at_ms: self.wake_at_ms,
        }
    }
}

impl Clone for GoalWake {
    fn clone(&self) -> (copy: Self)
        ensures
            copy@ == self@,
    {
        GoalWake {
            thread_id: self.thread_id,
            goal_id: self.goal_id.clone(),
            goal_objective: self.goal_objective.clone(),
            goal_updated_at_ms: self.goal_updated_at_ms,
            wake_at_ms: self.wake_at_ms,
        }
    }
}

impl GoalWake {
    /// Whether two wakes are the same in every field.
    pub fn same_as(&self, other: &GoalWake) -> (same: bool)
        ensures
            same == (self@ == other@),
    {
        self.thread_id == other.thread_id && same_text(
            self.goal_id.as_str(),
            other.goal_id.as_str(),
        ) && same_text(self.goal_objective.as_str(), other.goal_objective.as_str())
            && self.goal_updated_at_ms == other.goal_updated_at_ms && self.wake_at_ms
            == other.wake_at_ms
    }
}

/// Action variants that can be useful to a later check-in for the same goal.
#[derive(Debug)]
pub enum GoalSupervisorAction {
    Followup,
    Snooze { delay_seconds: u64, reason: String },
    Compact,
}

/// The mathematical content of a [`GoalSupervisorAction`].
pub enum ActionView {
    Followup,
    Snooze(u64, Seq<char>),
    Compact,
}

impl View for GoalSupervisorAction {
    type V = ActionView;

    open spec fn view(&self) -> ActionView {
        match self {
            GoalSupervisorAction::Followup => ActionView::Followup,
            GoalSupervisorAction::Snooze { delay_seconds, reason } => ActionView::Snooze(
                *delay_seconds,
                reason@,
            ),
            GoalSupervisorAction::Compact => ActionView::Compact,
        }
    }
}

/// The stored kind of an action.
pub open spec fn action_kind(action: ActionView) -> Seq<char> {
    match action {
        ActionView::Followup => "followup"@,
        ActionView::Snooze(_, _) => "snooze"@,
        ActionView::Compact => "compact"@,
    }
}

impl GoalSupervisorAction {
    /// The stored kind of this action.
    pub fn kind(&self) -> (kind: &'static str)
        ensures
            kind@ == action_kind(self@),
    {
        match self {
            GoalSupervisorAction::Followup => "followup",
            GoalSupervisorAction::Snooze { .. } => "snooze",
            GoalSupervisorAction::Compact => "compact",
        }
    }
}

impl Clone for GoalSupervisorAction {
    fn clone(&self) -> (copy: Self)
        ensures
            copy@ == self@,
    {
        match self {
            GoalSupervisorAction::Followup => GoalSupervisorAction::Followup,
            GoalSupervisorAction::Snooze { delay_seconds, reason } => {
                GoalSupervisorAction::Snooze {
                    delay_seconds: *delay_seconds,
                    reason: reason.clone(),
                }
            },
            GoalSupervisorAction::Compact => GoalSupervisorAction::Compact,
        }
    }
}

/// Last committed supervisor action for an active goal.
///
/// This representation is independent of the runtime action so that what is
/// stored stays owned by this module.
#[derive(Debug)]
pub struct GoalSupervisorContinuity {
    pub thread_id: ThreadId,
    pub goal_id: String,
    pub action: GoalSupervisorAction,
    pub action_at_ms: i64,
}

/// The mathematical content of a [`GoalSupervisorContinuity`].
pub struct ContinuityView {
    pub thread_id: ThreadId,
    pub goal_id: Seq<char>,
    pub action: ActionView,
    pub action_at_ms: i64,
}

impl View for GoalSupervisorContinuity {
    type V = ContinuityView;

    open spec fn view(&self) -> ContinuityView {
        ContinuityView {
            thread_id: self.thread_id,
            goal_id: self.goal_id@,
            action: self.action@,
            action_at_ms: self.action_at_ms,
        }
    }
}

/// One row of the continuity table.
#[derive(Debug)]
pub struct ContinuityRow {
    pub thread_id: String,
    pub goal_id: String,
    pub action_kind: String,
    pub action_at_ms: i64,
    pub snooze_delay_seconds: Option<i64>,
    pub snooze_reason: Option<String>,
}

/// The mathematical content of a [`ContinuityRow`].
pub struct RowView {
    pub thread_id: Seq<char>,
    pub goal_id: Seq<char>,
    pub action_kind: Seq<char>,
    pub action_at_ms: i64,
    pub snooze_delay_seconds: Option<i64>,
    pub snooze_reason: Option<Seq<char>>,
}

impl View for ContinuityRow {
    type V = RowView;

    open spec fn view(&self) -> RowView {
        RowView {
            thread_id: self.thread_id@,
            goal_id: self.goal_id@,
            action_kind: self.action_kind@,
            action_at_ms: self.action_at_ms,
            snooze_delay_seconds: self.snooze_delay_seconds,
            snooze_reason: match self.snooze_reason {
                Some(reason) => Some(reason@),
                None => None,
            },
        }
    }
}

/// Why a row cannot be written or read.
#[derive(Clone, Copy, Debug, PartialEq, Eq, Structural)]
pub enum StorageError {
    /// A delay is out of the range of the column, or of a delay.
    DelayOutOfRange,
    /// The kind and the columns of an action do not belong together.
    InvalidContinuityRow,
    /// A thread identifier is not one.
    InvalidThreadId,
}

impl StorageError {
    /// The sentence that reports this error.
    pub fn message(&self) -> (message: &'static str)
        ensures
            message@ == (match *self {
                StorageError::DelayOutOfRange => "out of range integral type conversion attempted"@,
                StorageError::InvalidContinuityRow => "invalid goal supervisor continuity row"@,
                StorageError::InvalidThreadId => "invalid thread identifier"@,
            }),
    {
        match self {
            StorageError::DelayOutOfRange => "out of range integral type conversion attempted",
            StorageError::InvalidContinuityRow => "invalid goal supervisor continuity row",
            StorageError::InvalidThreadId => "invalid thread identifier",
        }
    }
}

/// The row that keeps a continuity, if its delay fits the column.
pub open spec fn row_of(continuity: ContinuityView) -> Result<RowView, StorageError> {
    match continuity.action {
        ActionView::Snooze(delay_seconds, reason) => if delay_seconds > i64::MAX {
            Err(StorageError::DelayOutOfRange)
        } else {
            Ok(plain_row(continuity, Some(delay_seconds as i64), Some(reason)))
        },
        _ => Ok(plain_row(continuity, None, None)),
    }
}

/// A row for a continuity, with these snooze columns.
pub open spec fn plain_row(
    continuity: ContinuityView,
    delay: Option<i64>,
    reason: Option<Seq<char>>,
) -> RowView {
    RowView {
        thread_id: thread_id_text(continuity.thread_id.value),
        goal_id: continuity.goal_id,
        action_kind: action_kind(continuity.action),
        action_at_ms: continuity.action_at_ms,
        snooze_delay_seconds: delay,
        snooze_reason: reason,
    }
}

/// The action that the columns of a row describe.
pub open spec fn row_action(row: RowView) -> Result<ActionView, StorageError> {
    match (row.snooze_delay_seconds, row.snooze_reason) {
        (None, None) => if row.action_kind == "followup"@ {
            Ok(ActionView::Followup)
        } else if row.action_kind == "compact"@ {
            Ok(ActionView::Compact)
        } else {
            Err(StorageError::InvalidContinuityRow)
        },
        (Some(delay), Some(reason)) => if row.action_kind != "snooze"@ {
            Err(StorageError::InvalidContinuityRow)
        } else if delay < 0 {
            Err(StorageError::DelayOutOfRange)
        } else {
            Ok(ActionView::Snooze(delay as u64, reason))
        },
        _ => Err(StorageError::InvalidContinuityRow),
    }
}

/// The continuity that a row keeps.
pub open spec fn continuity_of(row: RowView) -> Result<ContinuityView, StorageError> {
    match row_action(row) {
        Err(error) => Err(error),
        Ok(action) => match parsed_thread_id(row.thread_id) {
            None => Err(StorageError::InvalidThreadId),
            Some(value) => Ok(
                ContinuityView {
                    thread_id: ThreadId { value },
                    goal_id: row.goal_id,
                    action,
                    action_at_ms: row.action_at_ms,
                },
            ),
        },
    }
}

/// What is written of a continuity is read back as the same continuity.
pub proof fn continuity_is_read_back(continuity: ContinuityView)
    requires
        row_of(continuity) is Ok,
    ensures
        continuity_of(row_of(continuity)->Ok_0) == Ok::<ContinuityView, StorageError>(continuity),
{
    thread_id_text_parses_back(continuity.thread_id.value);
    reveal_strlit("followup");
    reveal_strlit("compact");
    assert("followup"@[0] == 'f');
    assert("compact"@[0] == 'c');
}

/// Makes the row that keeps a continuity.
pub fn continuity_row(continuity: &GoalSupervisorContinuity) -> (row: Result<
    ContinuityRow,
    StorageError,
>)
    ensures
        (match row {
            Ok(row) => row_of(continuity@) == Ok::<RowView, StorageError>(row@),
            Err(error) => row_of(continuity@) == Err::<RowView, StorageError>(error),
        }),
{
    let (snooze_delay_seconds, snooze_reason): (Option<i64>, Option<String>) =
        match &continuity.action {
        GoalSupervisorAction::Snooze { delay_seconds, reason } => {
            if *delay_seconds > i64::MAX as u64 {
                return Err(StorageError::DelayOutOfRange);
            }
            (Some(*delay_seconds as i64), Some(reason.clone()))
        },
        GoalSupervisorAction::Followup => (None, None),
        GoalSupervisorAction::Compact => (None, None),
    };
    Ok(
        ContinuityRow {
            thread_id: continuity.thread_id.to_text(),
            goal_id: continuity.goal_id.clone(),
            action_kind: continuity.action.kind().to_string(),
            action_at_ms: continuity.action_at_ms,
            snooze_delay_seconds,
            snooze_reason,
        },
    )
}

/// Reads the continuity that a row keeps.
pub fn goal_supervisor_continuity_from_row(row: &ContinuityRow) -> (continuity: Result<
    GoalSupervisorContinuity,
    StorageError,
>)
    ensures
        (match continuity {
            Ok(continuity) => continuity_of(row@) == Ok::<ContinuityView, StorageError>(
                continuity@,
            ),
            Err(error) => continuity_of(row@) == Err::<ContinuityView, StorageError>(error),
        }),
{
    let kind: &str = row.action_kind.as_str();
    let action: GoalSupervisorAction = match (row.snooze_delay_seconds, &row.snooze_reason) {
        (None, None) => if same_text(kind, "followup") {
            GoalSupervisorAction::Followup
        } else if same_text(kind, "compact") {
            GoalSupervisorAction::Compact
        } else {
            return Err(StorageError::InvalidContinuityRow);
        },
        (Some(delay), Some(reason)) => if !same_text(kind, "snooze") {
            return Err(StorageError::InvalidContinuityRow);
        } else if delay < 0 {
            return Err(StorageError::DelayOutOfRange);
        } else {
            GoalSupervisorAction::Snooze { delay_seconds: delay as u64, reason: reason.clone() }
        },
        (None, Some(_)) => {
            return Err(StorageError::InvalidContinuityRow);
        },
        (Some(_), None) => {
            return Err(StorageError::InvalidContinuityRow);
        },
    };
    match ThreadId::from_text(row.thread_id.as_str()) {
        None => Err(StorageError::InvalidThreadId),
        Some(thread_id) => Ok(
            GoalSupervisorContinuity {
                thread_id,
                goal_id: row.goal_id.clone(),
                action,
                action_at_ms: row.action_at_ms,
            },
        ),
    }
}

/// Advances the generation that tells schedulers of a changed wake.
pub fn notify_wake_changed(generation: &mut u64)
    ensures
        *final(generation) == next_generation(*old(generation)),
{
    *generation = generation.wrapping_add(1);
}

/// The generation after this one.  It wraps around.
pub open spec fn next_generation(generation: u64) -> u64 {
    if generation == u64::MAX {
        0
    } else {
        (generation + 1) as u64
    }
}

/// The tables of the store.
pub struct StoreView {
    /// The wake of each thread.
    pub wakes: Map<u128, WakeView>,
    /// The continuity row of each thread.
    pub continuity: Map<u128, RowView>,
    /// Advances with every change of a wake.
    pub generation: u64,
}

/// The table of wakes.
#[derive(Debug)]
struct WakeTable {
    rows: HashMap<u128, GoalWake>,
}

impl View for WakeTable {
    type V = Map<u128, WakeView>;

    closed spec fn view(&self) -> Map<u128, WakeView> {
        self.rows@.map_values(|wake: GoalWake| wake@)
    }
}

impl WakeTable {
    /// Each wake is kept under its own thread.
    #[verifier::type_invariant]
    spec fn is_keyed_by_thread(self) -> bool {
        forall|id: u128| #[trigger]
            self.rows@.dom().contains(id) ==> self.rows@[id].thread_id.value == id
    }

    fn new() -> (table: Self)
        ensures
            table@ == Map::<u128, WakeView>::empty(),
    {
        let table = WakeTable { rows: HashMap::new() };
        proof {
            assert(table@ =~= Map::<u128, WakeView>::empty());
        }
        table
    }

    fn get(&self, thread_id: ThreadId) -> (wake: Option<&GoalWake>)
        ensures
            (match wake {
                Some(wake) => self@.dom().contains(thread_id.value) && self@[thread_id.value]
                    == wake@ && wake.thread_id == thread_id,
                None => !self@.dom().contains(thread_id.value),
            }),
    {
        proof {
            use_type_invariant(&*self);
        }
        self.rows.get(&thread_id.value)
    }

    fn insert(&mut self, wake: GoalWake)
        ensures
            final(self)@ == old(self)@.insert(wake.thread_id.value, wake@),
    {
        proof {
            use_type_invariant(&*self);
        }
        let ghost added = wake@;
        let thread_id: u128 = wake.thread_id.value;
        let mut rows: HashMap<u128, GoalWake> = HashMap::new();
        std::mem::swap(&mut rows, &mut self.rows);
        rows.insert(thread_id, wake);
        self.rows = rows;
        proof {
            assert(self@ =~= old(self)@.insert(thread_id, added));
        }
    }

    fn remove(&mut self, thread_id: ThreadId)
        ensures
            final(self)@ == old(self)@.remove(thread_id.value),
    {
        proof {
            use_type_invariant(&*self);
        }
        let mut rows: HashMap<u128, GoalWake> = HashMap::new();
        std::mem::swap(&mut rows, &mut self.rows);
        rows.remove(&thread_id.value);
        self.rows = rows;
        proof {
            assert(self@ =~= old(self)@.remove(thread_id.value));
        }
    }
}

/// Saffron's auxiliary tables.
#[derive(Debug)]
pub struct SaffronStore {
    wakes: WakeTable,
    continuity: HashMap<u128, ContinuityRow>,
    generation: u64,
}

impl View for SaffronStore {
    type V = StoreView;

    closed spec fn view(&self) -> StoreView {
        StoreView {
            wakes: self.wakes@,
            continuity: self.continuity@.map_values(|row: ContinuityRow| row@),
            generation: self.generation,
        }
    }
}

/// Whether a thread's wake is exactly this one.
pub open spec fn is_stored_wake(wakes: Map<u128, WakeView>, wake: WakeView) -> bool {
    wakes.dom().contains(wake.thread_id.value) && wakes[wake.thread_id.value] == wake
}

/// Whether a thread's continuity row belongs to a goal.
pub open spec fn belongs_to(rows: Map<u128, RowView>, id: ThreadId, goal_id: Seq<char>) -> bool {
    rows.dom().contains(id.value) && rows[id.value].goal_id == goal_id
}

impl SaffronStore {
    /// Tables without rows, at a generation.
    pub fn new(generation: u64) -> (store: Self)
        ensures
            store@ == (StoreView { wakes: Map::empty(), continuity: Map::empty(), generation }),
    {
        let store = SaffronStore {
            wakes: WakeTable::new(),
            continuity: HashMap::new(),
            generation,
        };
        proof {
            assert(store@.continuity =~= Map::<u128, RowView>::empty());
        }
        store
    }

    /// The generation that advances with every change of a wake.
    pub fn generation(&self) -> (generation: u64)
        ensures
            generation == self@.generation,
    {
        self.generation
    }

    /// Returns the persisted wake for `thread_id`, including stale identities.
    pub fn get_goal_wake(&self, thread_id: ThreadId) -> (wake: Option<GoalWake>)
        ensures
            (match wake {
                Some(wake) => self@.wakes.dom().contains(thread_id.value)
                    && self@.wakes[thread_id.value] == wake@ && wake.thread_id == thread_id,
                None => !self@.wakes.dom().contains(thread_id.value),
            }),
    {
        match self.wakes.get(thread_id) {
            Some(wake) => Some(wake.clone()),
            None => None,
        }
    }

    /// Replaces the wake for a thread and advances the generation.
    pub fn set_goal_wake(&mut self, wake: &GoalWake)
        ensures
            final(self)@ == (StoreView {
                wakes: old(self)@.wakes.insert(wake.thread_id.value, wake@),
                generation: next_generation(old(self)@.generation),
                ..old(self)@
            }),
    {
        self.wakes.insert(wake.clone());
        notify_wake_changed(&mut self.generation);
    }

    /// Deletes `wake` only if no newer identity has replaced it.
    pub fn clear_goal_wake(&mut self, wake: &GoalWake) -> (cleared: bool)
        ensures
            cleared == is_stored_wake(old(self)@.wakes, wake@),
            !cleared ==> final(self)@ == old(self)@,
            cleared ==> final(self)@ == (StoreView {
                wakes: old(self)@.wakes.remove(wake.thread_id.value),
                generation: next_generation(old(self)@.generation),
                ..old(self)@
            }),
    {
        let stored: bool = match self.wakes.get(wake.thread_id) {
            Some(current) => current.same_as(wake),
            None => false,
        };
        if stored {
            self.wakes.remove(wake.thread_id);
            notify_wake_changed(&mut self.generation);
        }
        stored
    }

    /// Removes continuity for a replaced goal, then returns what is kept for
    /// the current one.
    pub fn reconcile_goal_supervisor_continuity(&mut self, thread_id: ThreadId, goal_id: &str) -> (
    continuity: Result<Option<GoalSupervisorContinuity>, StorageError>)
        ensures
            final(self)@ == (StoreView {
                continuity: if belongs_to(old(self)@.continuity, thread_id, goal_id@) {
                    old(self)@.continuity
                } else {
                    old(self)@.continuity.remove(thread_id.value)
                },
                ..old(self)@
            }),
            (match continuity {
                Ok(None) => !belongs_to(old(self)@.continuity, thread_id, goal_id@),
                Ok(Some(continuity)) => belongs_to(old(self)@.continuity, thread_id, goal_id@)
                    && continuity_of(old(self)@.continuity[thread_id.value]) == Ok::<
                    ContinuityView,
                    StorageError,
                >(continuity@),
                Err(error) => belongs_to(old(self)@.continuity, thread_id, goal_id@)
                    && continuity_of(old(self)@.continuity[thread_id.value]) == Err::<
                    ContinuityView,
                    StorageError,
                >(error),
            }),
    {
        let kept: bool = match self.continuity.get(&thread_id.value) {
            Some(row) => same_text(row.goal_id.as_str(), goal_id),
            None => false,
        };
        if !kept {
            self.continuity.remove(&thread_id.value);
            proof {
                assert(self@.continuity =~= old(self)@.continuity.remove(thread_id.value));
            }
            return Ok(None);
        }
        match self.continuity.get(&thread_id.value) {
            None => Ok(None),
            Some(row) => match goal_supervisor_continuity_from_row(row) {
                Ok(continuity) => Ok(Some(continuity)),
                Err(error) => Err(error),
            },
        }
    }

    /// Replaces continuity for the thread with the latest committed action.
    pub fn set_goal_supervisor_continuity(&mut self, continuity: &GoalSupervisorContinuity) -> (
    written: Result<(), StorageError>)
        ensures
            (match written {
                Ok(_) => row_of(continuity@) is Ok && final(self)@ == (StoreView {
                    continuity: old(self)@.continuity.insert(
                        continuity.thread_id.value,
                        row_of(continuity@)->Ok_0,
                    ),
                    ..old(self)@
                }),
                Err(error) => row_of(continuity@) == Err::<RowView, StorageError>(error)
                    && final(self)@ == old(self)@,
            }),
    {
        match continuity_row(continuity) {
            Err(error) => Err(error),
            Ok(row) => {
                let ghost added = row@;
                self.continuity.insert(continuity.thread_id.value, row);
                proof {
                    assert(self@.continuity =~= old(self)@.continuity.insert(
                        continuity.thread_id.value,
                        added,
                    ));
                }
                Ok(())
            },
        }
    }

    /// Stores a row as it was read from the database.
    pub fn load_continuity_row(&mut self, thread_id: ThreadId, row: ContinuityRow)
        ensures
            final(self)@ == (StoreView {
                continuity: old(self)@.continuity.insert(thread_id.value, row@),
                ..old(self)@
            }),
    {
        let ghost added = row@;
        self.continuity.insert(thread_id.value, row);
        proof {
            assert(self@.continuity =~= old(self)@.continuity.insert(thread_id.value, added));
        }
    }

    /// Stores a wake as it was read from the database.
    pub fn load_goal_wake(&mut self, wake: GoalWake)
        ensures
            final(self)@ == (StoreView {
                wakes: old(self)@.wakes.insert(wake.thread_id.value, wake@),
                ..old(self)@
            }),
    {
        self.wakes.insert(wake);
    }

    /// The continuity row of a thread, as the database keeps it.
    pub fn stored_continuity_row(&self, thread_id: ThreadId) -> (row: Option<&ContinuityRow>)
        ensures
            (match row {
                Some(row) => self@.continuity.dom().contains(thread_id.value)
                    && self@.continuity[thread_id.value] == row@,
                None => !self@.continuity.dom().contains(thread_id.value),
            }),
    {
        self.continuity.get(&thread_id.value)
    }

    /// Deletes continuity only when it still belongs to `goal_id`.
    pub fn clear_goal_supervisor_continuity_for_goal(
        &mut self,
        thread_id: ThreadId,
        goal_id: &str,
    ) -> (cleared: bool)
        ensures
            cleared == belongs_to(old(self)@.continuity, thread_id, goal_id@),
            !cleared ==> final(self)@ == old(self)@,
            cleared ==> final(self)@ == (StoreView {
                continuity: old(self)@.continuity.remove(thread_id.value),
                ..old(self)@
            }),
    {
        let stored: bool = match self.continuity.get(&thread_id.value) {
            Some(row) => same_text(row.goal_id.as_str(), goal_id),
            None => false,
        };
        if stored {
            self.continuity.remove(&thread_id.value);
            proof {
                assert(self@.continuity =~= old(self)@.continuity.remove(thread_id.value));
            }
        }
        stored
    }

    /// Deletes all continuity after the thread no longer has a goal.
    pub fn clear_goal_supervisor_continuity(&mut self, thread_id: ThreadId) -> (cleared: bool)
        ensures
            cleared == old(self)@.continuity.dom().contains(thread_id.value),
            final(self)@ == (StoreView {
                continuity: old(self)@.continuity.remove(thread_id.value),
                ..old(self)@
            }),
    {
        let stored: bool = self.continuity.contains_key(&thread_id.value);
        self.continuity.remove(&thread_id.value);
        proof {
            assert(self@.continuity =~= old(self)@.continuity.remove(thread_id.value));
        }
        stored
    }
}

/// A wake that is set is stored, and every other thread keeps its own; once it
/// is cleared, the thread has none.
pub proof fn wakes_are_kept_by_thread(wakes: Map<u128, WakeView>, wake: WakeView, other: ThreadId)
    requires
        other != wake.thread_id,
    ensures
        ({
            let set = wakes.insert(wake.thread_id.value, wake);
            let cleared = set.remove(wake.thread_id.value);
            &&& is_stored_wake(set, wake)
            &&& !cleared.dom().contains(wake.thread_id.value)
            &&& set.dom().contains(other.value) == wakes.dom().contains(other.value)
            &&& cleared.dom().contains(other.value) == wakes.dom().contains(other.value)
            &&& wakes.dom().contains(other.value) ==> set[other.value] == wakes[other.value]
                && cleared[other.value] == wakes[other.value]
        }),
{
    assert(other.value != wake.thread_id.value);
}

/// A wake that has been replaced does not clear its replacement: after one
/// wake of a thread is set over another that differs in any field, the older
/// is no longer stored, and the newer is.
pub proof fn replaced_wake_is_not_stored(
    wakes: Map<u128, WakeView>,
    older: WakeView,
    newer: WakeView,
)
    requires
        older.thread_id == newer.thread_id,
        older != newer,
    ensures
        ({
            let after = wakes.insert(older.thread_id.value, older).insert(
                newer.thread_id.value,
                newer,
            );
            !is_stored_wake(after, older) && is_stored_wake(after, newer)
        }),
{
}

/// The action that was last written for a goal is what reconciliation with
/// that goal gives back.
pub proof fn written_continuity_is_reconciled(
    rows: Map<u128, RowView>,
    continuity: ContinuityView,
)
    requires
        row_of(continuity) is Ok,
    ensures
        ({
            let id = continuity.thread_id;
            let after = rows.insert(id.value, row_of(continuity)->Ok_0);
            &&& belongs_to(after, id, continuity.goal_id)
            &&& continuity_of(after[id.value]) == Ok::<ContinuityView, StorageError>(continuity)
        }),
{
    continuity_is_read_back(continuity);
}

/// After reconciliation with a goal, a continuity row of the thread belongs to
/// that goal.
pub proof fn reconciled_rows_belong_to_the_goal(
    rows: Map<u128, RowView>,
    id: ThreadId,
    goal_id: Seq<char>,
)
    ensures
        ({
            let after = if belongs_to(rows, id, goal_id) {
                rows
            } else {
                rows.remove(id.value)
            };
            after.dom().contains(id.value) ==> after[id.value].goal_id == goal_id
        }),
{
}

/// Advancing a generation gives another, the next number, and 0 after the
/// greatest.
pub proof fn generations_advance_by_one(generation: u64)
    ensures
        next_generation(generation) != generation,
        generation < u64::MAX ==> next_generation(generation) == generation + 1,
        next_generation(u64::MAX) == 0,
{
}

/// A wake is stored exactly if the thread has one that agrees with it in every
/// field: one that differs in its identity, objective, time of revision or
/// deadline is another.
pub proof fn stored_wake_agrees_in_every_field(wakes: Map<u128, WakeView>, wake: GoalWake)
    ensures
        is_stored_wake(wakes, wake@) <==> {
            let id = wake.thread_id.value;
            &&& wakes.dom().contains(id)
            &&& wakes[id].thread_id == wake.thread_id
            &&& wakes[id].goal_id == wake.goal_id@
            &&& wakes[id].goal_objective == wake.goal_objective@
            &&& wakes[id].goal_updated_at_ms == wake.goal_updated_at_ms
            &&& wakes[id].wake_at_ms == wake.wake_at_ms
        },
        wake@.thread_id == wake.thread_id,
        wake@.goal_id == wake.goal_id@,
        wake@.goal_objective == wake.goal_objective@,
        wake@.goal_updated_at_ms == wake.goal_updated_at_ms,
        wake@.wake_at_ms == wake.wake_at_ms,
{
}

/// A thread's continuity row belongs to a goal exactly if it has that identity.
pub proof fn row_belongs_to_the_goal_it_names(
    rows: Map<u128, RowView>,
    id: ThreadId,
    goal_id: Seq<char>,
)
    ensures
        !rows.dom().contains(id.value) ==> !belongs_to(rows, id, goal_id),
        rows.dom().contains(id.value) ==> (belongs_to(rows, id, goal_id) <==> rows[id.value].goal_id
            == goal_id),
{
}

/// A continuity is written exactly if it is no snooze or its delay fits the
/// column.  The row names the thread and the goal, the kind of the action and
/// its time; a snooze, and nothing else, has a delay and a reason.
pub proof fn continuity_is_written_field_by_field(continuity: ContinuityView)
    ensures
        row_of(continuity) is Ok <==> match continuity.action {
            ActionView::Snooze(delay, _) => delay <= i64::MAX,
            _ => true,
        },
        match row_of(continuity) {
            Ok(row) => {
                &&& row.thread_id == thread_id_text(continuity.thread_id.value)
                &&& row.goal_id == continuity.goal_id
                &&& row.action_at_ms == continuity.action_at_ms
                &&& match continuity.action {
                    ActionView::Followup => row.action_kind == "followup"@
                        && row.snooze_delay_seconds is None && row.snooze_reason is None,
                    ActionView::Compact => row.action_kind == "compact"@
                        && row.snooze_delay_seconds is None && row.snooze_reason is None,
                    ActionView::Snooze(delay, reason) => row.action_kind == "snooze"@
                        && row.snooze_delay_seconds is Some && row.snooze_delay_seconds->0 == delay
                        && row.snooze_reason == Some(reason),
                }
            },
            Err(error) => error == StorageError::DelayOutOfRange,
        },
{
}

/// A row is read exactly if its columns are those of one of the three actions,
/// a delay is not negative and the thread identifier can be read; which of
/// these fails first is the error.
pub proof fn continuity_is_read_field_by_field(row: RowView)
    ensures
        ({
            let plain = row.snooze_delay_seconds is None && row.snooze_reason is None;
            let full = row.snooze_delay_seconds is Some && row.snooze_reason is Some;
            let known = (plain && (row.action_kind == "followup"@ || row.action_kind
                == "compact"@)) || (full && row.action_kind == "snooze"@);
            match continuity_of(row) {
                Ok(continuity) => {
                    &&& known
                    &&& parsed_thread_id(row.thread_id) == Some(continuity.thread_id.value)
                    &&& continuity.goal_id == row.goal_id
                    &&& continuity.action_at_ms == row.action_at_ms
                    &&& match continuity.action {
                        ActionView::Followup => plain && row.action_kind == "followup"@,
                        ActionView::Compact => plain && row.action_kind == "compact"@,
                        ActionView::Snooze(delay, reason) => full && row.action_kind == "snooze"@
                            && delay == row.snooze_delay_seconds->0 && reason
                            == row.snooze_reason->0,
                    }
                },
                Err(StorageError::InvalidContinuityRow) => !known,
                Err(StorageError::DelayOutOfRange) => known && full && row.snooze_delay_seconds->0
                    < 0,
                Err(StorageError::InvalidThreadId) => known && (full
                    ==> row.snooze_delay_seconds->0 >= 0) && parsed_thread_id(
                    row.thread_id,
                ) is None,
            }
        }),
{
}

/// What is kept of an action and of a row is what their fields hold.
pub proof fn content_of_a_row_is_its_fields(row: ContinuityRow, continuity: GoalSupervisorContinuity)
    ensures
        row@.thread_id == row.thread_id@,
        row@.goal_id == row.goal_id@,
        row@.action_kind == row.action_kind@,
        row@.action_at_ms == row.action_at_ms,
        row@.snooze_delay_seconds == row.snooze_delay_seconds,
        row@.snooze_reason is Some <==> row.snooze_reason is Some,
        row.snooze_reason is Some ==> row@.snooze_reason->0 == row.snooze_reason->0@,
        continuity@.thread_id == continuity.thread_id,
        continuity@.goal_id == continuity.goal_id@,
        continuity@.action_at_ms == continuity.action_at_ms,
        continuity@.action == (match continuity.action {
            GoalSupervisorAction::Followup => ActionView::Followup,
            GoalSupervisorAction::Snooze { delay_seconds, reason } => ActionView::Snooze(
                delay_seconds,
                reason@,
            ),
            GoalSupervisorAction::Compact => ActionView::Compact,
        }),
{
}

} // verus!
