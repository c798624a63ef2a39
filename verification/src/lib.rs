pub mod cache;
pub mod clock;
pub mod state;

use vstd::prelude::*;

use crate::cache::{
    contains_entry_id, entry_ids, freshly_started_for, resynced_with_some_def,
    started_for_some_active_def, ActiveReminderCache, Cache,
};
use crate::state::{
    active_def_ids, all_defs_valid, def_is_active_id, unique_def_ids, ClientState, ReminderState,
    MAX_DUR_SEC, MAX_NOW_MS,
};

verus! {

/// Increments a value by one.
pub fn add_one(x: i32) -> (r: i32)
    requires
        x < i32::MAX,
    ensures
        r == x + 1,
{
    x + 1
}

/// Adds two values.
pub fn add(x: i32, y: i32) -> (r: i32)
    requires
        i32::MIN <= x + y <= i32::MAX,
    ensures
        r == x + y,
{
    x + y
}

/// A read-only question to the engine.
#[derive(Debug, Clone, Copy, PartialEq, Eq, Structural)]
pub enum ClientQuery {
    ClientGetState,
    JobGetRunning,
}

/// A state-changing order to the engine.
#[derive(Debug, PartialEq)]
pub enum ClientCommand {
    AddOne { value: i32 },
    Add { x: i32, y: i32 },
    SaveReminders { reminders: Vec<ReminderState> },
    DelayReminder { id: String, delay: u64 },
}

/// What the engine hands back for a query or command.
#[derive(Debug, PartialEq)]
pub enum CoreResponse {
    Success(()),
    ClientGetState(ClientState),
    Sum(i32),
}

/// Why the engine could not serve a request.
#[derive(Debug, Clone, Copy, PartialEq, Eq, Structural)]
pub enum CoreError {
    QueryError,
}

/// An event a timer task hands back into the engine loop.
#[derive(Debug, PartialEq)]
pub enum InternalEvent {
    ReminderStart { id: String },
}

/// The single-writer engine: it owns the persisted state and the schedule
/// cache, and all mutation goes through its `exec_*` methods, one message at
/// a time.  The host drives it from one processing loop, feeds it the
/// current time, persists the state after a mutating command, and performs
/// the timer sleeps and notifications the methods call for.
#[derive(Debug)]
pub struct Core {
    pub state: ClientState,
    pub cache: Cache,
}

impl Core {
    /// The engine's internal consistency: the schedule cache is well-formed.
    pub open spec fn wf(self) -> bool {
        self.cache.wf()
    }

    /// Builds an engine around an already loaded (or freshly defaulted)
    /// persisted state; the cache gets one idle entry per active definition.
    pub fn new(state: ClientState, now_ms: u64) -> (r: Core)
        requires
            unique_def_ids(state.reminders@),
            all_defs_valid(state.reminders@),
            now_ms <= MAX_NOW_MS,
        ensures
            r.wf(),
            r.state == state,
            entry_ids(r.cache.reminders@) == active_def_ids(state.reminders@),
    {
        let cache = Cache::new(&state, now_ms);
        Core { state, cache }
    }

    /// Rebuilds the schedule cache from the owned state and starts every
    /// entry's timer (used once at boot).
    pub fn initialize(&mut self, now_ms: u64)
        requires
            unique_def_ids(old(self).state.reminders@),
            all_defs_valid(old(self).state.reminders@),
            now_ms <= MAX_NOW_MS,
        ensures
            final(self).wf(),
            final(self).state == old(self).state,
            entry_ids(final(self).cache.reminders@) == active_def_ids(old(self).state.reminders@),
            forall|k: int| 0 <= k < final(self).cache.reminders@.len()
                ==> started_for_some_active_def(
                    #[trigger] final(self).cache.reminders@[k],
                    old(self).state.reminders@,
                    now_ms,
                ),
    {
        self.cache = Cache::new(&self.state, now_ms);
        let ghost c0 = self.cache.reminders@;
        self.cache.start(now_ms);
        proof {
            let fin = self.cache.reminders@;
            let defs = old(self).state.reminders@;
            assert forall|k: int| 0 <= k < fin.len()
                implies started_for_some_active_def(#[trigger] fin[k], defs, now_ms) by {
                let j = choose|j: int|
                    0 <= j < defs.len() && defs[j].is_active
                    && #[trigger] c0[k] == ActiveReminderCache::spec_fresh(defs[j], now_ms);
                assert(fin[k] == c0[k].spec_started(now_ms));
                assert(freshly_started_for(fin[k], defs[j], now_ms));
            }
            assert(entry_ids(fin) =~= entry_ids(c0)) by {
                assert forall|id: Seq<char>| contains_entry_id(fin, id)
                    implies contains_entry_id(c0, id) by {
                    let k = choose|k: int| 0 <= k < fin.len() && #[trigger] fin[k].id@ == id;
                    assert(fin[k] == c0[k].spec_started(now_ms));
                    assert(c0[k].id@ == id);
                }
                assert forall|id: Seq<char>| contains_entry_id(c0, id)
                    implies contains_entry_id(fin, id) by {
                    let k = choose|k: int| 0 <= k < c0.len() && #[trigger] c0[k].id@ == id;
                    assert(fin[k] == c0[k].spec_started(now_ms));
                    assert(fin[k].id@ == id);
                }
            }
        }
    }

    /// Answers a query from the current state alone, without mutating
    /// anything: the full state for `ClientGetState`, and `QueryError` for a
    /// query the engine does not serve.
    pub fn exec_query(&self, query: ClientQuery) -> (r: Result<CoreResponse, CoreError>)
        ensures
            query is ClientGetState ==> (r matches Ok(CoreResponse::ClientGetState(s))
                && s.client_uuid == self.state.client_uuid
                && s.data_path == self.state.data_path
                && s.reminders@ == self.state.reminders@),
            query is JobGetRunning ==> r == Err::<CoreResponse, CoreError>(CoreError::QueryError),
    {
        match query {
            ClientQuery::ClientGetState => Ok(CoreResponse::ClientGetState(self.state.clone())),
            ClientQuery::JobGetRunning => Err(CoreError::QueryError),
        }
    }

    /// Applies one command.  The two arithmetic commands answer with a sum
    /// and change nothing.  `SaveReminders` replaces the whole definition
    /// list and reconciles the schedule cache against it, so afterwards the
    /// cache holds exactly the active incoming ids; the caller persists the
    /// new state.  `DelayReminder` installs a one-shot delay on the matching
    /// entry (a silent no-op for an unknown id) and touches nothing else.
    pub fn exec_command(&mut self, command: ClientCommand, now_ms: u64) -> (r: Result<
        CoreResponse,
        CoreError,
    >)
        requires
            old(self).wf(),
            now_ms <= MAX_NOW_MS,
            command matches ClientCommand::AddOne { value } ==> value < i32::MAX,
            command matches ClientCommand::Add { x, y } ==> i32::MIN <= x + y <= i32::MAX,
            command matches ClientCommand::SaveReminders { reminders }
                ==> unique_def_ids(reminders@) && all_defs_valid(reminders@),
            command matches ClientCommand::DelayReminder { id, delay } ==> delay <= MAX_DUR_SEC,
        ensures
            final(self).wf(),
            command matches ClientCommand::AddOne { value }
                ==> r == Ok::<CoreResponse, CoreError>(CoreResponse::Sum((value + 1) as i32))
                    && *final(self) == *old(self),
            command matches ClientCommand::Add { x, y }
                ==> r == Ok::<CoreResponse, CoreError>(CoreResponse::Sum((x + y) as i32))
                    && *final(self) == *old(self),
            command matches ClientCommand::SaveReminders { reminders } ==> {
                &&& r == Ok::<CoreResponse, CoreError>(CoreResponse::Success(()))
                &&& final(self).state.reminders == reminders
                &&& final(self).state.client_uuid == old(self).state.client_uuid
                &&& final(self).state.data_path == old(self).state.data_path
                &&& entry_ids(final(self).cache.reminders@) == active_def_ids(reminders@)
                &&& forall|i: int| 0 <= i < old(self).cache.reminders@.len()
                    && def_is_active_id(reminders@, (#[trigger] old(self).cache.reminders@[i]).id@)
                    ==> exists|k: int|
                        0 <= k < final(self).cache.reminders@.len()
                        && #[trigger] resynced_with_some_def(
                            old(self).cache.reminders@[i],
                            final(self).cache.reminders@[k],
                            reminders@,
                            now_ms,
                        )
                &&& forall|j: int| 0 <= j < reminders@.len()
                    && (#[trigger] reminders@[j]).is_active
                    && !contains_entry_id(old(self).cache.reminders@, reminders@[j].id@)
                    ==> exists|k: int|
                        0 <= k < final(self).cache.reminders@.len()
                        && #[trigger] freshly_started_for(
                            final(self).cache.reminders@[k],
                            reminders@[j],
                            now_ms,
                        )
            },
            command matches ClientCommand::DelayReminder { id, delay } ==> {
                &&& r == Ok::<CoreResponse, CoreError>(CoreResponse::Success(()))
                &&& final(self).state == old(self).state
                &&& final(self).cache.reminders@.len() == old(self).cache.reminders@.len()
                &&& forall|i: int| 0 <= i < old(self).cache.reminders@.len()
                    && (#[trigger] old(self).cache.reminders@[i]).id@ != id@
                    ==> final(self).cache.reminders@[i] == old(self).cache.reminders@[i]
                &&& forall|i: int| 0 <= i < old(self).cache.reminders@.len()
                    && (#[trigger] old(self).cache.reminders@[i]).id@ == id@
                    ==> final(self).cache.reminders@[i]
                        == old(self).cache.reminders@[i].spec_delayed(delay, now_ms)
            },
    {
        match command {
            ClientCommand::AddOne { value } => Ok(CoreResponse::Sum(value + 1)),
            ClientCommand::Add { x, y } => Ok(CoreResponse::Sum(x + y)),
            ClientCommand::SaveReminders { reminders } => Ok(
                self.save_reminders(reminders, now_ms),
            ),
            ClientCommand::DelayReminder { id, delay } => {
                self.cache.delay_reminder(&id, delay, now_ms);
                Ok(CoreResponse::Success(()))
            },
        }
    }

    /// A timer event arrived in the engine loop: the named reminder's active
    /// window has elapsed.  Returns the id to hand to the notification
    /// collaborator; the engine's own state is untouched.
    pub fn exec_event(&mut self, event: InternalEvent) -> (r: String)
        ensures
            *final(self) == *old(self),
            event matches InternalEvent::ReminderStart { id } ==> r == id,
    {
        match event {
            InternalEvent::ReminderStart { id } => id,
        }
    }

    /// Replaces the definition list wholesale and reconciles the cache; the
    /// caller persists the updated state.
    fn save_reminders(&mut self, reminders: Vec<ReminderState>, now_ms: u64) -> (r: CoreResponse)
        requires
            old(self).wf(),
            unique_def_ids(reminders@),
            all_defs_valid(reminders@),
            now_ms <= MAX_NOW_MS,
        ensures
            r == CoreResponse::Success(()),
            final(self).wf(),
            final(self).state.reminders == reminders,
            final(self).state.client_uuid == old(self).state.client_uuid,
            final(self).state.data_path == old(self).state.data_path,
            entry_ids(final(self).cache.reminders@) == active_def_ids(reminders@),
            forall|i: int| 0 <= i < old(self).cache.reminders@.len()
                && def_is_active_id(reminders@, (#[trigger] old(self).cache.reminders@[i]).id@)
                ==> exists|k: int|
                    0 <= k < final(self).cache.reminders@.len()
                    && #[trigger] resynced_with_some_def(
                        old(self).cache.reminders@[i],
                        final(self).cache.reminders@[k],
                        reminders@,
                        now_ms,
                    ),
            forall|j: int| 0 <= j < reminders@.len() && (#[trigger] reminders@[j]).is_active
                && !contains_entry_id(old(self).cache.reminders@, reminders@[j].id@)
                ==> exists|k: int|
                    0 <= k < final(self).cache.reminders@.len()
                    && #[trigger] freshly_started_for(
                        final(self).cache.reminders@[k],
                        reminders@[j],
                        now_ms,
                    ),
    {
        self.cache.resync(&reminders, now_ms);
        self.state.reminders = reminders;
        CoreResponse::Success(())
    }
}

} // verus!
