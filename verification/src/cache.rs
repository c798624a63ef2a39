use vstd::prelude::*;

use crate::state::{ClientState, ReminderState, MAX_DUR_SEC, MAX_NOW_MS};
use crate::state::{active_def_ids, all_defs_valid, def_is_active_id, unique_def_ids};

verus! {

/// Lifecycle of a single reminder's timer: `Idle` (no running task),
/// `Waiting` (suspended until the first firing), `Recurring` (steady
/// periodic cadence).  Stopping always returns the entry to `Idle`.
#[derive(Debug, Clone, Copy, PartialEq, Eq, Structural)]
pub enum SchedulePhase {
    Idle,
    Waiting,
    Recurring,
}

/// The epoch that a restarted timer task carries.  Epochs only serve to
/// tell one task generation from the next, so wrapping is harmless.
pub open spec fn spec_next_epoch(e: u64) -> u64 {
    if e == u64::MAX {
        0
    } else {
        (e + 1) as u64
    }
}

fn next_epoch(e: u64) -> (r: u64)
    ensures
        r == spec_next_epoch(e),
{
    if e == u64::MAX {
        0
    } else {
        e + 1
    }
}

/// Runtime schedule state for one reminder: mirrors the definition's id,
/// name and durations (in whole seconds), plus an optional one-shot wait
/// override consumed by the next start, the deadline of the next firing (in
/// milliseconds since the Unix epoch), the timer phase, and the epoch of the
/// current timer task.
#[derive(Debug)]
pub struct ActiveReminderCache {
    pub id: String,
    pub name: String,
    pub wait_sec_dur: u64,
    pub one_off_wait_sec_dur: Option<u64>,
    pub reminder_dur: u64,
    pub next_execution: u64,
    pub phase: SchedulePhase,
    pub epoch: u64,
}

impl ActiveReminderCache {
    /// All durations the entry carries are small enough for deadline
    /// arithmetic in `u64` milliseconds.
    pub open spec fn wf(self) -> bool {
        &&& self.wait_sec_dur <= MAX_DUR_SEC
        &&& self.reminder_dur <= MAX_DUR_SEC
        &&& (self.one_off_wait_sec_dur matches Some(d) ==> d <= MAX_DUR_SEC)
    }

    /// The wait before the next firing: the one-shot override if present,
    /// the regular wait otherwise (seconds).
    pub open spec fn spec_initial_wait_sec(self) -> u64 {
        match self.one_off_wait_sec_dur {
            Some(d) => d,
            None => self.wait_sec_dur,
        }
    }

    /// The steady-state period between firings, in milliseconds.
    pub open spec fn spec_cycle_ms(self) -> int {
        (self.wait_sec_dur + self.reminder_dur) * 1000
    }

    /// The entry as it stands after `start` at time `now_ms`: the override
    /// is consumed, the deadline moves to `now_ms` plus the initial wait,
    /// the timer enters its waiting phase under a fresh epoch.
    pub open spec fn spec_started(self, now_ms: u64) -> ActiveReminderCache {
        ActiveReminderCache {
            one_off_wait_sec_dur: None,
            next_execution: (now_ms + self.spec_initial_wait_sec() * 1000) as u64,
            phase: SchedulePhase::Waiting,
            epoch: spec_next_epoch(self.epoch),
            ..self
        }
    }

    /// The entry as it stands after `stop`: back to `Idle`, all else kept.
    pub open spec fn spec_stopped(self) -> ActiveReminderCache {
        ActiveReminderCache { phase: SchedulePhase::Idle, ..self }
    }

    /// The entry as it stands after `delay(d)` at time `now_ms`: a one-shot
    /// override of `d` seconds is installed and the timer restarted, so the
    /// next firing is due at `now_ms + d * 1000`.
    pub open spec fn spec_delayed(self, delay: u64, now_ms: u64) -> ActiveReminderCache {
        ActiveReminderCache {
            one_off_wait_sec_dur: Some(delay),
            ..self
        }.spec_started(now_ms)
    }

    /// Whether a wake-up of the timer task of generation `task_epoch`
    /// produces a firing: the entry must not be idle and the task must
    /// belong to the current generation.
    pub open spec fn accepts_tick(self, task_epoch: u64) -> bool {
        !(self.phase is Idle) && task_epoch == self.epoch
    }

    /// The entry as it stands after a firing at time `now_ms`: the deadline
    /// moves one full cycle ahead and the cadence becomes recurring.
    pub open spec fn spec_fired(self, now_ms: u64) -> ActiveReminderCache {
        ActiveReminderCache {
            next_execution: (now_ms + self.spec_cycle_ms()) as u64,
            phase: SchedulePhase::Recurring,
            ..self
        }
    }

    /// The idle entry that `new` builds for a definition at time `now_ms`.
    pub open spec fn spec_fresh(reminder: ReminderState, now_ms: u64) -> ActiveReminderCache {
        ActiveReminderCache {
            id: reminder.id,
            name: reminder.name,
            wait_sec_dur: reminder.wait_sec,
            one_off_wait_sec_dur: None,
            reminder_dur: reminder.duration_sec,
            next_execution: (now_ms + reminder.wait_sec * 1000) as u64,
            phase: SchedulePhase::Idle,
            epoch: 0,
        }
    }

    /// Builds an idle entry for a definition; no timer is started.
    pub fn new(reminder: &ReminderState, now_ms: u64) -> (r: ActiveReminderCache)
        requires
            reminder.valid_durations(),
            now_ms <= MAX_NOW_MS,
        ensures
            r == Self::spec_fresh(*reminder, now_ms),
            r.wf(),
    {
        ActiveReminderCache {
            id: reminder.id.clone(),
            name: reminder.name.clone(),
            wait_sec_dur: reminder.wait_sec,
            one_off_wait_sec_dur: None,
            reminder_dur: reminder.duration_sec,
            next_execution: now_ms + reminder.wait_sec * 1000,
            phase: SchedulePhase::Idle,
            epoch: 0,
        }
    }

    /// Cancels any current task generation and schedules the next firing:
    /// the one-shot override, if present, replaces the regular wait exactly
    /// once.  Returns how long, in milliseconds, the new task generation
    /// must sleep before its first wake-up.
    pub fn start(&mut self, now_ms: u64) -> (initial_ms: u64)
        requires
            old(self).wf(),
            now_ms <= MAX_NOW_MS,
        ensures
            *final(self) == old(self).spec_started(now_ms),
            final(self).wf(),
            initial_ms == old(self).spec_initial_wait_sec() * 1000,
            final(self).next_execution == now_ms + initial_ms,
    {
        let initial_sec = match self.one_off_wait_sec_dur {
            Some(d) => d,
            None => self.wait_sec_dur,
        };
        let initial_ms = initial_sec * 1000;
        self.one_off_wait_sec_dur = None;
        self.next_execution = now_ms + initial_ms;
        self.phase = SchedulePhase::Waiting;
        self.epoch = next_epoch(self.epoch);
        initial_ms
    }

    /// Cancels the running task generation; the entry becomes idle and no
    /// wake-up of any earlier generation produces a firing any more.
    pub fn stop(&mut self)
        ensures
            *final(self) == old(self).spec_stopped(),
            forall|e: u64| !final(self).accepts_tick(e),
    {
        self.phase = SchedulePhase::Idle;
    }

    /// Installs a one-shot override of `delay` seconds and restarts the
    /// timer, so exactly the next firing comes after `delay`; the cadence
    /// then reverts to the regular cycle.  Returns the sleep for the new
    /// task generation, in milliseconds.
    pub fn delay(&mut self, delay: u64, now_ms: u64) -> (initial_ms: u64)
        requires
            old(self).wf(),
            delay <= MAX_DUR_SEC,
            now_ms <= MAX_NOW_MS,
        ensures
            *final(self) == old(self).spec_delayed(delay, now_ms),
            final(self).wf(),
            initial_ms == delay * 1000,
            final(self).next_execution == now_ms + delay * 1000,
    {
        self.one_off_wait_sec_dur = Some(delay);
        self.start(now_ms)
    }

    /// A timer task of generation `task_epoch` woke up at `now_ms`.  If the
    /// entry still runs that generation, this is a firing: the deadline
    /// moves one cycle ahead and the task must sleep the returned number of
    /// milliseconds.  A wake-up of a stopped entry or of a stale generation
    /// changes nothing and returns `None`, so no firing is ever observed
    /// after `stop`.
    pub fn on_elapsed(&mut self, task_epoch: u64, now_ms: u64) -> (next: Option<u64>)
        requires
            old(self).wf(),
            now_ms <= MAX_NOW_MS,
        ensures
            old(self).accepts_tick(task_epoch) ==> {
                &&& *final(self) == old(self).spec_fired(now_ms)
                &&& next == Some(old(self).spec_cycle_ms() as u64)
            },
            !old(self).accepts_tick(task_epoch) ==> {
                &&& *final(self) == *old(self)
                &&& next is None
            },
            final(self).wf() == old(self).wf(),
    {
        if self.phase == SchedulePhase::Idle || task_epoch != self.epoch {
            return None;
        }
        let cycle_ms = (self.wait_sec_dur + self.reminder_dur) * 1000;
        self.next_execution = now_ms + cycle_ms;
        self.phase = SchedulePhase::Recurring;
        Some(cycle_ms)
    }

    /// Applies a changed definition to the entry.  The name is always taken
    /// over in place.  If the wait or active duration changed, or a one-shot
    /// override is supplied, the timer is stopped and started again, so the
    /// deadline recomputes from `now_ms`; otherwise the running timer is
    /// left untouched.  Returns the new task generation's sleep in
    /// milliseconds when a restart happened.
    pub fn resync(
        &mut self,
        name: &String,
        wait_sec: &u64,
        dur_sec: &u64,
        one_off_wait_sec: Option<u64>,
        now_ms: u64,
    ) -> (restarted: Option<u64>)
        requires
            old(self).wf(),
            *wait_sec <= MAX_DUR_SEC,
            *dur_sec <= MAX_DUR_SEC,
            one_off_wait_sec matches Some(d) ==> d <= MAX_DUR_SEC,
            now_ms <= MAX_NOW_MS,
        ensures
            *final(self) == old(self).spec_resynced(*name, *wait_sec, *dur_sec, one_off_wait_sec, now_ms),
            final(self).wf(),
            restarted is Some <==> old(self).spec_needs_restart(*wait_sec, *dur_sec, one_off_wait_sec),
            restarted matches Some(ms) ==> ms == final(self).next_execution - now_ms,
    {
        let mut restart = false;
        self.name = name.clone();
        if self.reminder_dur != *dur_sec {
            self.reminder_dur = *dur_sec;
            restart = true;
        }
        if let Some(off) = one_off_wait_sec {
            self.one_off_wait_sec_dur = Some(off);
            restart = true;
        }
        if self.wait_sec_dur != *wait_sec {
            self.wait_sec_dur = *wait_sec;
            restart = true;
        }
        if restart {
            self.stop();
            Some(self.start(now_ms))
        } else {
            None
        }
    }

    /// Whether applying these definition values restarts the timer: a
    /// changed wait or active duration, or a supplied override, does; a
    /// name-only change does not.
    pub open spec fn spec_needs_restart(self, wait_sec: u64, dur_sec: u64, one_off: Option<u64>) -> bool {
        ||| one_off is Some
        ||| self.wait_sec_dur != wait_sec
        ||| self.reminder_dur != dur_sec
    }

    /// The entry as it stands after `resync` with these definition values
    /// at `now_ms`.
    pub open spec fn spec_resynced(
        self,
        name: String,
        wait_sec: u64,
        dur_sec: u64,
        one_off: Option<u64>,
        now_ms: u64,
    ) -> ActiveReminderCache {
        let updated = ActiveReminderCache {
            name: name,
            wait_sec_dur: wait_sec,
            reminder_dur: dur_sec,
            one_off_wait_sec_dur: if one_off is Some {
                one_off
            } else {
                self.one_off_wait_sec_dur
            },
            ..self
        };
        if self.spec_needs_restart(wait_sec, dur_sec, one_off) {
            updated.spec_stopped().spec_started(now_ms)
        } else {
            updated
        }
    }

    /// Applying a definition whose name and durations the entry already
    /// carries changes nothing.
    pub proof fn lemma_resync_unchanged_is_identity(self, name: String, now_ms: u64)
        requires
            self.name == name,
        ensures
            self.spec_resynced(name, self.wait_sec_dur, self.reminder_dur, None, now_ms) == self,
    {
    }
}

/// The entry after `n` punctual firings, each arriving exactly at its
/// deadline.
pub open spec fn after_punctual_fires(e: ActiveReminderCache, n: nat) -> ActiveReminderCache
    decreases n,
{
    if n == 0 {
        e
    } else {
        let p = after_punctual_fires(e, (n - 1) as nat);
        p.spec_fired(p.next_execution)
    }
}

/// Stopping silences an entry: no wake-up of any task generation is a
/// firing once the entry is stopped, so no due-event is observed after
/// `stop` returns.
pub proof fn lemma_stop_silences(e: ActiveReminderCache, task_epoch: u64)
    ensures
        !e.spec_stopped().accepts_tick(task_epoch),
{
}

/// Restarting an entry invalidates the generation that ran before: a task
/// spawned before the restart can never produce a firing afterwards.
pub proof fn lemma_restart_rejects_stale(e: ActiveReminderCache, now_ms: u64)
    ensures
        !e.spec_started(now_ms).accepts_tick(e.epoch),
{
}

/// A one-shot delay causes exactly one firing after `delay` seconds: the
/// delayed entry is due at `now_ms + delay * 1000`, the override is consumed
/// by that single start, and every following firing schedules the next one a
/// regular cycle ahead.
pub proof fn lemma_delay_one_shot(
    e: ActiveReminderCache,
    delay: u64,
    now_ms: u64,
    t1: u64,
    t2: u64,
)
    requires
        e.wf(),
        delay <= MAX_DUR_SEC,
        now_ms <= MAX_NOW_MS,
        t1 <= MAX_NOW_MS,
        t2 <= MAX_NOW_MS,
    ensures
        ({
            let d = e.spec_delayed(delay, now_ms);
            let cycle = (e.wait_sec_dur + e.reminder_dur) * 1000;
            &&& d.next_execution == now_ms + delay * 1000
            &&& d.one_off_wait_sec_dur is None
            &&& d.spec_fired(t1).next_execution == t1 + cycle
            &&& d.spec_fired(t1).spec_fired(t2).next_execution == t2 + cycle
        }),
{
}

/// An entry started at `now_ms` and woken punctually is due first after its
/// initial wait and then exactly one full cycle after each firing, so the
/// deadline read right after the `n`-th firing is that firing's time plus
/// one cycle.  The whole schedule is a function of the entry's own durations
/// alone.
pub proof fn lemma_punctual_cadence(e: ActiveReminderCache, now_ms: u64, n: nat)
    requires
        e.wf(),
        now_ms <= MAX_NOW_MS,
        now_ms + e.spec_initial_wait_sec() * 1000
            + n * ((e.wait_sec_dur + e.reminder_dur) * 1000) <= u64::MAX,
    ensures
        ({
            let s = after_punctual_fires(e.spec_started(now_ms), n);
            &&& s.wait_sec_dur == e.wait_sec_dur
            &&& s.reminder_dur == e.reminder_dur
            &&& s.next_execution == now_ms + e.spec_initial_wait_sec() * 1000
                + n * ((e.wait_sec_dur + e.reminder_dur) * 1000)
        }),
    decreases n,
{
    let cycle = (e.wait_sec_dur + e.reminder_dur) * 1000;
    if n == 0 {
    } else {
        assert((n - 1) * cycle + cycle == n * cycle) by (nonlinear_arith)
            requires n >= 1,
        ;
        assert(0 <= (n - 1) * cycle) by (nonlinear_arith)
            requires n >= 1 && cycle >= 0,
        ;
        lemma_punctual_cadence(e, now_ms, (n - 1) as nat);
    }
}

/// Two entries started at the same instant fire on schedules that each
/// depend on that entry's own durations alone: neither influences the
/// other's deadlines, whatever their cycles are.
pub proof fn lemma_independent_schedules(
    a: ActiveReminderCache,
    b: ActiveReminderCache,
    now_ms: u64,
    n: nat,
    m: nat,
)
    requires
        a.wf(),
        b.wf(),
        now_ms <= MAX_NOW_MS,
        now_ms + a.spec_initial_wait_sec() * 1000
            + n * ((a.wait_sec_dur + a.reminder_dur) * 1000) <= u64::MAX,
        now_ms + b.spec_initial_wait_sec() * 1000
            + m * ((b.wait_sec_dur + b.reminder_dur) * 1000) <= u64::MAX,
    ensures
        after_punctual_fires(a.spec_started(now_ms), n).next_execution == now_ms
            + a.spec_initial_wait_sec() * 1000 + n * ((a.wait_sec_dur + a.reminder_dur) * 1000),
        after_punctual_fires(b.spec_started(now_ms), m).next_execution == now_ms
            + b.spec_initial_wait_sec() * 1000 + m * ((b.wait_sec_dur + b.reminder_dur) * 1000),
{
    lemma_punctual_cadence(a, now_ms, n);
    lemma_punctual_cadence(b, now_ms, m);
}

/// A resync that changes only the name mutates the entry in place: deadline,
/// phase and task generation all stay, so the running timer shows no
/// discontinuity.
pub proof fn lemma_name_only_resync_keeps_timer(
    e: ActiveReminderCache,
    name: String,
    now_ms: u64,
)
    ensures
        ({
            let r = e.spec_resynced(name, e.wait_sec_dur, e.reminder_dur, None, now_ms);
            &&& r.name == name
            &&& r.next_execution == e.next_execution
            &&& r.epoch == e.epoch
            &&& r.phase == e.phase
        }),
{
}

/// A resync that changes the wait or active duration restarts the timer:
/// the deadline recomputes from `now_ms` under the new wait, any partially
/// elapsed wait is discarded, and a fresh task generation begins.
pub proof fn lemma_duration_change_restarts(
    e: ActiveReminderCache,
    name: String,
    wait_sec: u64,
    dur_sec: u64,
    now_ms: u64,
)
    requires
        e.wf(),
        e.one_off_wait_sec_dur is None,
        wait_sec <= MAX_DUR_SEC,
        dur_sec <= MAX_DUR_SEC,
        now_ms <= MAX_NOW_MS,
        wait_sec != e.wait_sec_dur || dur_sec != e.reminder_dur,
    ensures
        ({
            let r = e.spec_resynced(name, wait_sec, dur_sec, None, now_ms);
            &&& r.phase is Waiting
            &&& r.next_execution == now_ms + wait_sec * 1000
            &&& r.epoch == spec_next_epoch(e.epoch)
        }),
{
}

/// Some entry in the sequence carries this id.
pub open spec fn contains_entry_id(s: Seq<ActiveReminderCache>, id: Seq<char>) -> bool {
    exists|i: int| 0 <= i < s.len() && #[trigger] s[i].id@ == id
}

/// The ids of all entries in the sequence.
pub open spec fn entry_ids(s: Seq<ActiveReminderCache>) -> Set<Seq<char>> {
    Set::new(|id: Seq<char>| contains_entry_id(s, id))
}

/// No two entries in the sequence share an id.
pub open spec fn unique_entry_ids(s: Seq<ActiveReminderCache>) -> bool {
    forall|i: int, j: int| 0 <= i < j < s.len() ==> s[i].id@ != s[j].id@
}

/// Every entry in the sequence is well-formed.
pub open spec fn all_entries_wf(s: Seq<ActiveReminderCache>) -> bool {
    forall|i: int| 0 <= i < s.len() ==> (#[trigger] s[i]).wf()
}

/// Linear search for an entry with this id.
fn find_index(entries: &Vec<ActiveReminderCache>, id: &String) -> (r: Option<usize>)
    ensures
        r matches Some(i) ==> i < entries@.len() && entries@[i as int].id@ == id@,
        r is None ==> !contains_entry_id(entries@, id@),
{
    let n = entries.len();
    let mut i: usize = 0;
    while i < n
        invariant
            n == entries@.len(),
            i <= n,
            forall|k: int| 0 <= k < i ==> entries@[k].id@ != id@,
        decreases n - i,
    {
        if entries[i].id == *id {
            return Some(i);
        }
        i += 1;
    }
    None
}

/// Whether some entry carries this id, decided executably.
fn contains_id(entries: &Vec<ActiveReminderCache>, id: &String) -> (r: bool)
    ensures
        r == contains_entry_id(entries@, id@),
{
    match find_index(entries, id) {
        Some(i) => {
            proof {
                assert(entries@[i as int].id@ == id@);
            }
            true
        },
        None => false,
    }
}

/// Linear search for a definition with this id.
fn find_def_index(rs: &Vec<ReminderState>, id: &String) -> (r: Option<usize>)
    ensures
        r matches Some(i) ==> i < rs@.len() && rs@[i as int].id@ == id@,
        r is None ==> forall|k: int| 0 <= k < rs@.len() ==> rs@[k].id@ != id@,
{
    let n = rs.len();
    let mut i: usize = 0;
    while i < n
        invariant
            n == rs@.len(),
            i <= n,
            forall|k: int| 0 <= k < i ==> rs@[k].id@ != id@,
        decreases n - i,
    {
        if rs[i].id == *id {
            return Some(i);
        }
        i += 1;
    }
    None
}

/// Whether some definition with this id is marked active, decided executably.
fn def_active_in(rs: &Vec<ReminderState>, id: &String) -> (r: bool)
    requires
        unique_def_ids(rs@),
    ensures
        r == def_is_active_id(rs@, id@),
{
    match find_def_index(rs, id) {
        Some(i) => {
            let active = rs[i].is_active;
            proof {
                if active {
                    assert(def_is_active_id(rs@, id@));
                } else {
                    assert forall|k: int| 0 <= k < rs@.len() && #[trigger] rs@[k].id@ == id@
                        implies !rs@[k].is_active by {
                        assert(rs@[k].id@ == rs@[i as int].id@);
                        if k != i {
                            assert(false);
                        }
                    }
                }
            }
            active
        },
        None => {
            proof {
                assert(!def_is_active_id(rs@, id@));
            }
            false
        },
    }
}

/// The fleet of live schedule entries, one per active definition, keyed by
/// the definition's id.
#[derive(Debug)]
pub struct Cache {
    pub reminders: Vec<ActiveReminderCache>,
}

impl Cache {
    /// Entry ids are pairwise distinct and every entry is well-formed.
    pub open spec fn wf(self) -> bool {
        unique_entry_ids(self.reminders@) && all_entries_wf(self.reminders@)
    }

    /// Builds a cache holding one idle entry per active definition in the
    /// persisted state; no timers are started.
    pub fn new(state: &ClientState, now_ms: u64) -> (r: Cache)
        requires
            unique_def_ids(state.reminders@),
            all_defs_valid(state.reminders@),
            now_ms <= MAX_NOW_MS,
        ensures
            r.wf(),
            entry_ids(r.reminders@) == active_def_ids(state.reminders@),
            forall|k: int| 0 <= k < r.reminders@.len() ==> exists|j: int|
                0 <= j < state.reminders@.len() && state.reminders@[j].is_active
                && #[trigger] r.reminders@[k] == ActiveReminderCache::spec_fresh(
                    state.reminders@[j],
                    now_ms,
                ),
    {
        let mut cache = Cache { reminders: Vec::new() };
        let defs = &state.reminders;
        let n = defs.len();
        let mut j: usize = 0;
        while j < n
            invariant
                n == defs@.len(),
                defs@ == state.reminders@,
                unique_def_ids(state.reminders@),
                all_defs_valid(state.reminders@),
                now_ms <= MAX_NOW_MS,
                j <= n,
                forall|k: int| 0 <= k < cache.reminders@.len() ==> exists|jj: int|
                    0 <= jj < j && state.reminders@[jj].is_active
                    && #[trigger] cache.reminders@[k] == ActiveReminderCache::spec_fresh(
                        state.reminders@[jj],
                        now_ms,
                    ),
                forall|jj: int| 0 <= jj < j && state.reminders@[jj].is_active
                    ==> contains_entry_id(cache.reminders@, #[trigger] state.reminders@[jj].id@),
                unique_entry_ids(cache.reminders@),
                all_entries_wf(cache.reminders@),
            decreases n - j,
        {
            if defs[j].is_active {
                let entry = ActiveReminderCache::new(&defs[j], now_ms);
                let ghost prev = cache.reminders@;
                proof {
                    assert forall|k: int| 0 <= k < prev.len()
                        implies prev[k].id@ != entry.id@ by {
                        let jj = choose|jj: int|
                            0 <= jj < j && state.reminders@[jj].is_active
                            && #[trigger] prev[k] == ActiveReminderCache::spec_fresh(
                                state.reminders@[jj],
                                now_ms,
                            );
                        assert(prev[k].id@ == state.reminders@[jj].id@);
                        assert(state.reminders@[jj].id@ != state.reminders@[j as int].id@);
                    }
                }
                cache.reminders.push(entry);
                proof {
                    let cur = cache.reminders@;
                    assert forall|k: int| 0 <= k < cur.len() implies exists|jj: int|
                        0 <= jj < j + 1 && state.reminders@[jj].is_active
                        && #[trigger] cur[k] == ActiveReminderCache::spec_fresh(
                            state.reminders@[jj],
                            now_ms,
                        ) by {
                        if k < prev.len() {
                            let jj = choose|jj: int|
                                0 <= jj < j && state.reminders@[jj].is_active
                                && #[trigger] prev[k] == ActiveReminderCache::spec_fresh(
                                    state.reminders@[jj],
                                    now_ms,
                                );
                            assert(cur[k] == prev[k]);
                            assert(0 <= jj < j + 1 && state.reminders@[jj].is_active
                                && cur[k] == ActiveReminderCache::spec_fresh(
                                    state.reminders@[jj],
                                    now_ms,
                                ));
                        } else {
                            assert(cur[k] == entry);
                            assert(0 <= j < j + 1 && state.reminders@[j as int].is_active
                                && cur[k] == ActiveReminderCache::spec_fresh(
                                    state.reminders@[j as int],
                                    now_ms,
                                ));
                        }
                    }
                    assert forall|jj: int| 0 <= jj < j + 1 && state.reminders@[jj].is_active
                        implies contains_entry_id(cur, #[trigger] state.reminders@[jj].id@) by {
                        if jj < j {
                            let k = choose|k: int|
                                0 <= k < prev.len() && #[trigger] prev[k].id@
                                    == state.reminders@[jj].id@;
                            assert(cur[k].id@ == state.reminders@[jj].id@);
                        } else {
                            assert(cur[cur.len() - 1].id@ == state.reminders@[jj].id@);
                        }
                    }
                }
            }
            j += 1;
        }
        proof {
            assert(entry_ids(cache.reminders@) =~= active_def_ids(state.reminders@)) by {
                assert forall|id: Seq<char>| contains_entry_id(cache.reminders@, id)
                    implies def_is_active_id(state.reminders@, id) by {
                    let k = choose|k: int|
                        0 <= k < cache.reminders@.len() && #[trigger] cache.reminders@[k].id@ == id;
                    let jj = choose|jj: int|
                        0 <= jj < n && state.reminders@[jj].is_active
                        && #[trigger] cache.reminders@[k] == ActiveReminderCache::spec_fresh(
                            state.reminders@[jj],
                            now_ms,
                        );
                    assert(state.reminders@[jj].id@ == id && state.reminders@[jj].is_active);
                }
            }
        }
        cache
    }

    /// Registers a new idle entry for the definition; its timer is not
    /// started.
    pub fn add(&mut self, reminder: &ReminderState, now_ms: u64)
        requires
            old(self).wf(),
            reminder.valid_durations(),
            !contains_entry_id(old(self).reminders@, reminder.id@),
            now_ms <= MAX_NOW_MS,
        ensures
            final(self).reminders@ == old(self).reminders@.push(
                ActiveReminderCache::spec_fresh(*reminder, now_ms),
            ),
            final(self).wf(),
    {
        let entry = ActiveReminderCache::new(reminder, now_ms);
        self.reminders.push(entry);
        proof {
            let s = final(self).reminders@;
            assert forall|i: int, j: int| 0 <= i < j < s.len() implies s[i].id@ != s[j].id@ by {
                if j == s.len() - 1 {
                    assert(s[i] == old(self).reminders@[i]);
                }
            }
        }
    }

    /// Starts every entry's timer at `now_ms` (used once at boot, after the
    /// persisted list has loaded).
    pub fn start(&mut self, now_ms: u64)
        requires
            old(self).wf(),
            now_ms <= MAX_NOW_MS,
        ensures
            final(self).wf(),
            final(self).reminders@.len() == old(self).reminders@.len(),
            forall|i: int| 0 <= i < old(self).reminders@.len()
                ==> final(self).reminders@[i] == old(self).reminders@[i].spec_started(now_ms),
    {
        let n = self.reminders.len();
        let mut i: usize = 0;
        while i < n
            invariant
                n == self.reminders@.len(),
                n == old(self).reminders@.len(),
                now_ms <= MAX_NOW_MS,
                i <= n,
                forall|k: int| i <= k < n ==> self.reminders@[k] == old(self).reminders@[k],
                forall|k: int| 0 <= k < i
                    ==> self.reminders@[k] == old(self).reminders@[k].spec_started(now_ms),
                old(self).wf(),
            decreases n - i,
        {
            proof {
                assert(old(self).reminders@[i as int].wf());
            }
            self.reminders[i].start(now_ms);
            i += 1;
        }
        proof {
            assert forall|i: int, j: int| 0 <= i < j < final(self).reminders@.len()
                implies final(self).reminders@[i].id@ != final(self).reminders@[j].id@ by {
                assert(final(self).reminders@[i].id@ == old(self).reminders@[i].id@);
                assert(final(self).reminders@[j].id@ == old(self).reminders@[j].id@);
            }
        }
    }

    /// Installs a one-shot delay on the entry with this id and restarts its
    /// timer; a missing id is a silent no-op.  Entries with other ids are
    /// untouched.
    pub fn delay_reminder(&mut self, id: &String, delay: u64, now_ms: u64)
        requires
            old(self).wf(),
            delay <= MAX_DUR_SEC,
            now_ms <= MAX_NOW_MS,
        ensures
            final(self).wf(),
            final(self).reminders@.len() == old(self).reminders@.len(),
            forall|i: int| 0 <= i < old(self).reminders@.len()
                && old(self).reminders@[i].id@ != id@
                ==> final(self).reminders@[i] == old(self).reminders@[i],
            forall|i: int| 0 <= i < old(self).reminders@.len()
                && old(self).reminders@[i].id@ == id@
                ==> final(self).reminders@[i] == old(self).reminders@[i].spec_delayed(
                    delay,
                    now_ms,
                ),
            !contains_entry_id(old(self).reminders@, id@)
                ==> final(self).reminders@ == old(self).reminders@,
    {
        match find_index(&self.reminders, id) {
            Some(i) => {
                proof {
                    assert(old(self).reminders@[i as int].wf());
                }
                self.reminders[i].delay(delay, now_ms);
                proof {
                    assert forall|k: int| 0 <= k < old(self).reminders@.len()
                        && old(self).reminders@[k].id@ == id@ implies k == i by {
                        if k != i {
                            assert(old(self).reminders@[k].id@
                                != old(self).reminders@[i as int].id@);
                        }
                    }
                    assert forall|p: int, q: int| 0 <= p < q < final(self).reminders@.len()
                        implies final(self).reminders@[p].id@ != final(self).reminders@[q].id@ by {
                        assert(final(self).reminders@[p].id@ == old(self).reminders@[p].id@);
                        assert(final(self).reminders@[q].id@ == old(self).reminders@[q].id@);
                    }
                }
            },
            None => {},
        }
    }

    /// A timer task woke up: `id` names the entry, `task_epoch` the task's
    /// generation, `now_ms` the wake-up time.  Returns the task's next sleep
    /// in milliseconds when the wake-up is a genuine firing, and `None` when
    /// the entry is gone, stopped, or running a newer generation — so a
    /// stale task can never produce a firing.  Entries with other ids are
    /// untouched.
    pub fn on_timer_elapsed(&mut self, id: &String, task_epoch: u64, now_ms: u64) -> (next: Option<
        u64,
    >)
        requires
            old(self).wf(),
            now_ms <= MAX_NOW_MS,
        ensures
            final(self).wf(),
            final(self).reminders@.len() == old(self).reminders@.len(),
            forall|i: int| 0 <= i < old(self).reminders@.len()
                && old(self).reminders@[i].id@ != id@
                ==> final(self).reminders@[i] == old(self).reminders@[i],
            forall|i: int| 0 <= i < old(self).reminders@.len()
                && old(self).reminders@[i].id@ == id@
                && old(self).reminders@[i].accepts_tick(task_epoch)
                ==> final(self).reminders@[i] == old(self).reminders@[i].spec_fired(now_ms)
                    && next == Some(old(self).reminders@[i].spec_cycle_ms() as u64),
            forall|i: int| 0 <= i < old(self).reminders@.len()
                && old(self).reminders@[i].id@ == id@
                && !old(self).reminders@[i].accepts_tick(task_epoch)
                ==> final(self).reminders@[i] == old(self).reminders@[i] && next is None,
            !contains_entry_id(old(self).reminders@, id@)
                ==> final(self).reminders@ == old(self).reminders@ && next is None,
    {
        match find_index(&self.reminders, id) {
            Some(i) => {
                proof {
                    assert(old(self).reminders@[i as int].wf());
                }
                let next = self.reminders[i].on_elapsed(task_epoch, now_ms);
                proof {
                    assert forall|k: int| 0 <= k < old(self).reminders@.len()
                        && old(self).reminders@[k].id@ == id@ implies k == i by {
                        if k != i {
                            assert(old(self).reminders@[k].id@
                                != old(self).reminders@[i as int].id@);
                        }
                    }
                    assert forall|p: int, q: int| 0 <= p < q < final(self).reminders@.len()
                        implies final(self).reminders@[p].id@ != final(self).reminders@[q].id@ by {
                        assert(final(self).reminders@[p].id@ == old(self).reminders@[p].id@);
                        assert(final(self).reminders@[q].id@ == old(self).reminders@[q].id@);
                    }
                }
                next
            },
            None => None,
        }
    }
    /// First reconciliation pass: create and immediately start an entry for
    /// every active incoming definition that has none yet; existing entries
    /// stay exactly where and as they were.
    fn start_missing(&mut self, reminders: &Vec<ReminderState>, now_ms: u64)
        requires
            old(self).wf(),
            unique_def_ids(reminders@),
            all_defs_valid(reminders@),
            now_ms <= MAX_NOW_MS,
        ensures
            final(self).wf(),
            final(self).reminders@.len() >= old(self).reminders@.len(),
            final(self).reminders@.subrange(0, old(self).reminders@.len() as int)
                == old(self).reminders@,
            forall|k: int| old(self).reminders@.len() <= k < final(self).reminders@.len()
                ==> fresh_start_of_new_def(
                    #[trigger] final(self).reminders@[k],
                    old(self).reminders@,
                    reminders@,
                    now_ms,
                ),
            forall|jj: int| 0 <= jj < reminders@.len() && (#[trigger] reminders@[jj]).is_active
                ==> contains_entry_id(final(self).reminders@, reminders@[jj].id@),
    {
        let ghost s0 = self.reminders@;
        let n_defs = reminders.len();
        let mut j: usize = 0;
        while j < n_defs
            invariant
                n_defs == reminders@.len(),
                s0 == old(self).reminders@,
                unique_def_ids(reminders@),
                all_defs_valid(reminders@),
                now_ms <= MAX_NOW_MS,
                j <= n_defs,
                self.reminders@.len() >= s0.len(),
                self.reminders@.subrange(0, s0.len() as int) == s0,
                forall|k: int| s0.len() <= k < self.reminders@.len()
                    ==> fresh_start_of_new_def(
                        #[trigger] self.reminders@[k],
                        s0,
                        reminders@,
                        now_ms,
                    ),
                forall|jj: int| 0 <= jj < j && (#[trigger] reminders@[jj]).is_active
                    ==> contains_entry_id(self.reminders@, reminders@[jj].id@),
                unique_entry_ids(self.reminders@),
                all_entries_wf(self.reminders@),
            decreases n_defs - j,
        {
            if reminders[j].is_active && !contains_id(&self.reminders, &reminders[j].id) {
                let mut entry = ActiveReminderCache::new(&reminders[j], now_ms);
                entry.start(now_ms);
                let ghost prev = self.reminders@;
                proof {
                    assert(!contains_entry_id(s0, reminders@[j as int].id@)) by {
                        if contains_entry_id(s0, reminders@[j as int].id@) {
                            let k = choose|k: int|
                                0 <= k < s0.len() && #[trigger] s0[k].id@
                                    == reminders@[j as int].id@;
                            assert(prev.subrange(0, s0.len() as int)[k] == s0[k]);
                            assert(prev[k].id@ == reminders@[j as int].id@);
                            assert(contains_entry_id(prev, reminders@[j as int].id@));
                        }
                    }
                    assert forall|k: int| 0 <= k < prev.len()
                        implies prev[k].id@ != entry.id@ by {
                        if prev[k].id@ == entry.id@ {
                            assert(contains_entry_id(prev, reminders@[j as int].id@));
                        }
                    }
                }
                self.reminders.push(entry);
                proof {
                    let cur = self.reminders@;
                    assert(cur.subrange(0, s0.len() as int) =~= s0);
                    assert(freshly_started_for(entry, reminders@[j as int], now_ms));
                    assert(fresh_start_of_new_def(entry, s0, reminders@, now_ms));
                    assert forall|k: int| s0.len() <= k < cur.len()
                        implies fresh_start_of_new_def(
                            #[trigger] cur[k],
                            s0,
                            reminders@,
                            now_ms,
                        ) by {
                        if k < prev.len() {
                            assert(cur[k] == prev[k]);
                        } else {
                            assert(cur[k] == entry);
                        }
                    }
                    assert forall|jj: int| 0 <= jj < j + 1 && (#[trigger] reminders@[jj]).is_active
                        implies contains_entry_id(cur, reminders@[jj].id@) by {
                        if jj < j {
                            let k = choose|k: int|
                                0 <= k < prev.len() && #[trigger] prev[k].id@
                                    == reminders@[jj].id@;
                            assert(cur[k].id@ == reminders@[jj].id@);
                        } else {
                            assert(cur[cur.len() - 1].id@ == reminders@[jj].id@);
                        }
                    }
                    assert forall|p: int, q: int| 0 <= p < q < cur.len()
                        implies cur[p].id@ != cur[q].id@ by {
                        if q < prev.len() {
                        } else {
                            assert(cur[p] == prev[p]);
                        }
                    }
                }
            } else {
                proof {
                    if reminders@[j as int].is_active {
                        assert(contains_entry_id(self.reminders@, reminders@[j as int].id@));
                    }
                }
            }
            j += 1;
        }
    }

    /// Second reconciliation pass: stop every entry whose id is gone from
    /// the incoming list or whose definition turned inactive; all other
    /// entries are untouched.
    fn stop_dropped(&mut self, reminders: &Vec<ReminderState>)
        requires
            old(self).wf(),
            unique_def_ids(reminders@),
        ensures
            final(self).wf(),
            final(self).reminders@.len() == old(self).reminders@.len(),
            forall|k: int| 0 <= k < old(self).reminders@.len()
                ==> final(self).reminders@[k] == (
                    if def_is_active_id(reminders@, (#[trigger] old(self).reminders@[k]).id@) {
                        old(self).reminders@[k]
                    } else {
                        old(self).reminders@[k].spec_stopped()
                    }
                ),
    {
        let ghost s1 = self.reminders@;
        let n1 = self.reminders.len();
        let mut i: usize = 0;
        while i < n1
            invariant
                n1 == self.reminders@.len(),
                n1 == s1.len(),
                s1 == old(self).reminders@,
                unique_def_ids(reminders@),
                i <= n1,
                forall|k: int| i <= k < n1 ==> self.reminders@[k] == s1[k],
                forall|k: int| 0 <= k < i ==> self.reminders@[k] == (
                    if def_is_active_id(reminders@, (#[trigger] s1[k]).id@) {
                        s1[k]
                    } else {
                        s1[k].spec_stopped()
                    }
                ),
            decreases n1 - i,
        {
            let keep = def_active_in(reminders, &self.reminders[i].id);
            if !keep {
                self.reminders[i].stop();
            }
            i += 1;
        }
        proof {
            assert forall|p: int, q: int| 0 <= p < q < final(self).reminders@.len()
                implies final(self).reminders@[p].id@ != final(self).reminders@[q].id@ by {
                assert(final(self).reminders@[p].id@ == s1[p].id@);
                assert(final(self).reminders@[q].id@ == s1[q].id@);
            }
            assert forall|k: int| 0 <= k < final(self).reminders@.len()
                implies (#[trigger] final(self).reminders@[k]).wf() by {
                assert(s1[k].wf());
            }
        }
    }

    /// Third reconciliation pass: remove every entry whose id is gone from
    /// the incoming list or whose definition turned inactive (all of them
    /// stopped by the previous pass); every entry with an active id survives
    /// unchanged.
    fn remove_dropped(&mut self, reminders: &Vec<ReminderState>)
        requires
            old(self).wf(),
            unique_def_ids(reminders@),
        ensures
            final(self).wf(),
            forall|k: int| 0 <= k < final(self).reminders@.len()
                ==> def_is_active_id(reminders@, (#[trigger] final(self).reminders@[k]).id@),
            forall|m: int| 0 <= m < old(self).reminders@.len()
                && def_is_active_id(reminders@, (#[trigger] old(self).reminders@[m]).id@)
                ==> final(self).reminders@.contains(old(self).reminders@[m]),
    {
        let ghost s2 = self.reminders@;
        let mut survivors: Vec<ActiveReminderCache> = Vec::new();
        while self.reminders.len() > 0
            invariant
                s2 == old(self).reminders@,
                unique_def_ids(reminders@),
                unique_entry_ids(s2),
                all_entries_wf(s2),
                self.reminders@.len() <= s2.len(),
                self.reminders@ == s2.subrange(
                    s2.len() - self.reminders@.len(),
                    s2.len() as int,
                ),
                forall|k: int| 0 <= k < survivors@.len()
                    ==> def_is_active_id(reminders@, (#[trigger] survivors@[k]).id@),
                forall|k: int| 0 <= k < survivors@.len() ==> exists|m: int|
                    0 <= m < s2.len() - self.reminders@.len()
                    && #[trigger] survivors@[k] == s2[m],
                forall|m: int| 0 <= m < s2.len() - self.reminders@.len()
                    && def_is_active_id(reminders@, (#[trigger] s2[m]).id@)
                    ==> survivors@.contains(s2[m]),
                unique_entry_ids(survivors@),
                all_entries_wf(survivors@),
            decreases self.reminders@.len(),
        {
            let ghost m_cur = s2.len() - self.reminders@.len();
            let ghost rem_prev = self.reminders@;
            let ghost surv_prev = survivors@;
            let e = self.reminders.remove(0);
            proof {
                assert(rem_prev[0] == s2.subrange(m_cur, s2.len() as int)[0]);
                assert(e == s2[m_cur]);
                assert(self.reminders@ =~= s2.subrange(
                    s2.len() - self.reminders@.len(),
                    s2.len() as int,
                ));
            }
            let keep = def_active_in(reminders, &e.id);
            if keep {
                proof {
                    assert forall|k: int| 0 <= k < surv_prev.len()
                        implies surv_prev[k].id@ != e.id@ by {
                        let m = choose|m: int|
                            0 <= m < m_cur && #[trigger] surv_prev[k] == s2[m];
                        assert(s2[m].id@ != s2[m_cur].id@);
                    }
                }
                survivors.push(e);
                proof {
                    let cur = survivors@;
                    assert forall|k: int| 0 <= k < cur.len() implies exists|m: int|
                        0 <= m < m_cur + 1 && #[trigger] cur[k] == s2[m] by {
                        if k < surv_prev.len() {
                            let m = choose|m: int|
                                0 <= m < m_cur && #[trigger] surv_prev[k] == s2[m];
                            assert(cur[k] == surv_prev[k]);
                            assert(0 <= m < m_cur + 1 && cur[k] == s2[m]);
                        } else {
                            assert(cur[k] == s2[m_cur]);
                            assert(0 <= m_cur < m_cur + 1 && cur[k] == s2[m_cur]);
                        }
                    }
                    assert forall|m: int| 0 <= m < m_cur + 1
                        && def_is_active_id(reminders@, (#[trigger] s2[m]).id@)
                        implies cur.contains(s2[m]) by {
                        if m < m_cur {
                            let k = choose|k: int|
                                0 <= k < surv_prev.len() && surv_prev[k] == s2[m];
                            assert(cur[k] == s2[m]);
                        } else {
                            assert(cur[cur.len() - 1] == s2[m]);
                        }
                    }
                }
            } else {
                proof {
                    assert forall|m: int| 0 <= m < m_cur + 1
                        && def_is_active_id(reminders@, (#[trigger] s2[m]).id@)
                        implies survivors@.contains(s2[m]) by {
                        if m == m_cur {
                            assert(!def_is_active_id(reminders@, s2[m].id@));
                        }
                    }
                }
            }
        }
        self.reminders = survivors;
    }

    /// Fourth reconciliation pass: apply the matching definition's current
    /// name and durations to every surviving entry.
    fn apply_definitions(&mut self, reminders: &Vec<ReminderState>, now_ms: u64)
        requires
            old(self).wf(),
            unique_def_ids(reminders@),
            all_defs_valid(reminders@),
            now_ms <= MAX_NOW_MS,
            forall|k: int| 0 <= k < old(self).reminders@.len()
                ==> def_is_active_id(reminders@, (#[trigger] old(self).reminders@[k]).id@),
        ensures
            final(self).wf(),
            final(self).reminders@.len() == old(self).reminders@.len(),
            forall|k: int| 0 <= k < old(self).reminders@.len()
                ==> (#[trigger] final(self).reminders@[k]).id@ == old(self).reminders@[k].id@,
            forall|k: int| 0 <= k < old(self).reminders@.len()
                ==> resynced_with_some_def(
                    old(self).reminders@[k],
                    #[trigger] final(self).reminders@[k],
                    reminders@,
                    now_ms,
                ),
    {
        let ghost s3 = self.reminders@;
        let n3 = self.reminders.len();
        let mut i: usize = 0;
        while i < n3
            invariant
                n3 == self.reminders@.len(),
                n3 == s3.len(),
                s3 == old(self).reminders@,
                unique_def_ids(reminders@),
                all_defs_valid(reminders@),
                now_ms <= MAX_NOW_MS,
                i <= n3,
                forall|k: int| 0 <= k < s3.len()
                    ==> def_is_active_id(reminders@, (#[trigger] s3[k]).id@),
                unique_entry_ids(s3),
                all_entries_wf(s3),
                forall|k: int| i <= k < n3 ==> self.reminders@[k] == s3[k],
                forall|k: int| 0 <= k < i
                    ==> resynced_with_some_def(
                        s3[k],
                        #[trigger] self.reminders@[k],
                        reminders@,
                        now_ms,
                    ),
                forall|k: int| 0 <= k < n3
                    ==> (#[trigger] self.reminders@[k]).id@ == s3[k].id@,
                all_entries_wf(self.reminders@),
            decreases n3 - i,
        {
            let found = find_def_index(reminders, &self.reminders[i].id);
            match found {
                Some(dj) => {
                    proof {
                        assert(def_is_active_id(reminders@, s3[i as int].id@));
                        let aj = choose|aj: int|
                            0 <= aj < reminders@.len() && #[trigger] reminders@[aj].id@
                                == s3[i as int].id@ && reminders@[aj].is_active;
                        if aj != dj {
                            assert(reminders@[aj].id@ != reminders@[dj as int].id@);
                        }
                        assert(reminders@[dj as int].is_active);
                        assert(reminders@[dj as int].valid_durations());
                        assert(s3[i as int].wf());
                    }
                    let name = &reminders[dj].name;
                    let wait_sec = &reminders[dj].wait_sec;
                    let dur_sec = &reminders[dj].duration_sec;
                    self.reminders[i].resync(name, wait_sec, dur_sec, None, now_ms);
                    proof {
                        assert(self.reminders@[i as int] == s3[i as int].spec_resynced(
                            reminders@[dj as int].name,
                            reminders@[dj as int].wait_sec,
                            reminders@[dj as int].duration_sec,
                            None,
                            now_ms,
                        ));
                        assert(resynced_with_some_def(
                            s3[i as int],
                            self.reminders@[i as int],
                            reminders@,
                            now_ms,
                        ));
                    }
                },
                None => {
                    proof {
                        assert(def_is_active_id(reminders@, s3[i as int].id@));
                        assert(false);
                    }
                },
            }
            i += 1;
        }
    }

    /// Reconciles the fleet with a freshly supplied definition list, in four
    /// strict passes: start an entry for every active definition that has
    /// none, stop every entry whose definition is gone or inactive, remove
    /// those stopped entries, and finally apply the matching definition to
    /// every survivor.  Afterwards the cache holds exactly one entry per
    /// active incoming definition; survivors whose durations did not change
    /// keep their running timer untouched.
    pub fn resync(&mut self, reminders: &Vec<ReminderState>, now_ms: u64)
        requires
            old(self).wf(),
            unique_def_ids(reminders@),
            all_defs_valid(reminders@),
            now_ms <= MAX_NOW_MS,
        ensures
            final(self).wf(),
            entry_ids(final(self).reminders@) == active_def_ids(reminders@),
            forall|k: int| 0 <= k < final(self).reminders@.len()
                ==> def_is_active_id(reminders@, (#[trigger] final(self).reminders@[k]).id@),
            forall|i: int| 0 <= i < old(self).reminders@.len()
                && def_is_active_id(reminders@, (#[trigger] old(self).reminders@[i]).id@)
                ==> exists|k: int|
                    0 <= k < final(self).reminders@.len()
                    && #[trigger] resynced_with_some_def(
                        old(self).reminders@[i],
                        final(self).reminders@[k],
                        reminders@,
                        now_ms,
                    ),
            forall|j: int| 0 <= j < reminders@.len() && (#[trigger] reminders@[j]).is_active
                && !contains_entry_id(old(self).reminders@, reminders@[j].id@)
                ==> exists|k: int|
                    0 <= k < final(self).reminders@.len()
                    && #[trigger] freshly_started_for(
                        final(self).reminders@[k],
                        reminders@[j],
                        now_ms,
                    ),
    {
        let ghost s0 = self.reminders@;
        self.start_missing(reminders, now_ms);
        let ghost s1 = self.reminders@;
        self.stop_dropped(reminders);
        let ghost s2 = self.reminders@;
        self.remove_dropped(reminders);
        let ghost s3 = self.reminders@;
        self.apply_definitions(reminders, now_ms);

        proof {
            let fin = self.reminders@;
            let rs = reminders@;

            // survivors: every old entry whose id stays active ends up
            // resynced with its matching definition
            assert forall|i0: int| 0 <= i0 < s0.len()
                && def_is_active_id(rs, (#[trigger] s0[i0]).id@)
                implies exists|k: int|
                    0 <= k < fin.len()
                    && #[trigger] resynced_with_some_def(s0[i0], fin[k], rs, now_ms) by {
                assert(s1.subrange(0, s0.len() as int)[i0] == s0[i0]);
                assert(s1[i0] == s0[i0]);
                assert(s2[i0] == s1[i0]);
                assert(s3.contains(s2[i0]));
                let k = choose|k: int| 0 <= k < s3.len() && s3[k] == s2[i0];
                assert(resynced_with_some_def(s3[k], fin[k], rs, now_ms));
                assert(0 <= k < fin.len()
                    && resynced_with_some_def(s0[i0], fin[k], rs, now_ms));
            }

            // new definitions: every active definition without an old entry
            // ends up as a freshly started entry
            assert forall|jx: int| 0 <= jx < rs.len() && (#[trigger] rs[jx]).is_active
                && !contains_entry_id(s0, rs[jx].id@)
                implies exists|k: int|
                    0 <= k < fin.len()
                    && #[trigger] freshly_started_for(fin[k], rs[jx], now_ms) by {
                assert(contains_entry_id(s1, rs[jx].id@));
                let k1 = choose|k1: int| 0 <= k1 < s1.len() && #[trigger] s1[k1].id@ == rs[jx].id@;
                assert(k1 >= s0.len()) by {
                    if k1 < s0.len() {
                        assert(s1.subrange(0, s0.len() as int)[k1] == s0[k1]);
                        assert(contains_entry_id(s0, rs[jx].id@));
                    }
                }
                assert(fresh_start_of_new_def(s1[k1], s0, rs, now_ms));
                let jj = choose|jj: int|
                    0 <= jj < rs.len() && (#[trigger] rs[jj]).is_active
                    && !contains_entry_id(s0, rs[jj].id@)
                    && freshly_started_for(s1[k1], rs[jj], now_ms);
                assert(s1[k1].id@ == rs[jj].id@);
                assert(jj == jx) by {
                    if jj != jx {
                        assert(rs[jj].id@ != rs[jx].id@);
                    }
                }
                let fresh = ActiveReminderCache::spec_fresh(rs[jx], now_ms).spec_started(now_ms);
                assert(s1[k1] == fresh);
                assert(def_is_active_id(rs, s1[k1].id@));
                assert(s2[k1] == s1[k1]);
                assert(s3.contains(s2[k1]));
                let k = choose|k: int| 0 <= k < s3.len() && s3[k] == s2[k1];
                assert(resynced_with_some_def(s3[k], fin[k], rs, now_ms));
                let dj = choose|dj: int|
                    0 <= dj < rs.len() && (#[trigger] rs[dj]).id@ == s3[k].id@ && rs[dj].is_active
                    && fin[k] == s3[k].spec_resynced(
                        rs[dj].name,
                        rs[dj].wait_sec,
                        rs[dj].duration_sec,
                        None,
                        now_ms,
                    );
                assert(dj == jx) by {
                    if dj != jx {
                        assert(rs[dj].id@ != rs[jx].id@);
                    }
                }
                fresh.lemma_resync_unchanged_is_identity(rs[jx].name, now_ms);
                assert(fin[k] == fresh);
                assert(freshly_started_for(fin[k], rs[jx], now_ms));
            }

            // the surviving id set equals exactly the incoming active id set
            assert(entry_ids(fin) =~= active_def_ids(rs)) by {
                assert forall|id: Seq<char>| contains_entry_id(fin, id)
                    implies def_is_active_id(rs, id) by {
                    let k = choose|k: int| 0 <= k < fin.len() && #[trigger] fin[k].id@ == id;
                }
                assert forall|id: Seq<char>| def_is_active_id(rs, id)
                    implies contains_entry_id(fin, id) by {
                    if contains_entry_id(s0, id) {
                        let i0 = choose|i0: int|
                            0 <= i0 < s0.len() && #[trigger] s0[i0].id@ == id;
                        assert(s1.subrange(0, s0.len() as int)[i0] == s0[i0]);
                        assert(s1[i0] == s0[i0]);
                        assert(def_is_active_id(rs, s2[i0].id@));
                        assert(s3.contains(s2[i0]));
                        let k = choose|k: int| 0 <= k < s3.len() && s3[k] == s2[i0];
                        assert(fin[k].id@ == s3[k].id@);
                        assert(contains_entry_id(fin, id));
                    } else {
                        let jx = choose|jx: int|
                            0 <= jx < rs.len() && #[trigger] rs[jx].id@ == id && rs[jx].is_active;
                        let k = choose|k: int|
                            0 <= k < fin.len()
                            && #[trigger] freshly_started_for(fin[k], rs[jx], now_ms);
                        assert(fin[k].id@ == id);
                    }
                }
            }
        }
    }
}

/// The entry equals a fresh idle entry for this definition whose timer was
/// started at `now_ms`.
pub open spec fn freshly_started_for(
    e: ActiveReminderCache,
    d: ReminderState,
    now_ms: u64,
) -> bool {
    e == ActiveReminderCache::spec_fresh(d, now_ms).spec_started(now_ms)
}

/// The entry is a freshly started one for some active definition in `rs`.
pub open spec fn started_for_some_active_def(
    e: ActiveReminderCache,
    rs: Seq<ReminderState>,
    now_ms: u64,
) -> bool {
    exists|j: int|
        0 <= j < rs.len() && (#[trigger] rs[j]).is_active && freshly_started_for(e, rs[j], now_ms)
}

/// The entry is a freshly started one for some active definition in `rs`
/// that had no entry in `base`.
pub open spec fn fresh_start_of_new_def(
    e: ActiveReminderCache,
    base: Seq<ActiveReminderCache>,
    rs: Seq<ReminderState>,
    now_ms: u64,
) -> bool {
    exists|j: int|
        0 <= j < rs.len() && (#[trigger] rs[j]).is_active && !contains_entry_id(base, rs[j].id@)
            && freshly_started_for(e, rs[j], now_ms)
}

/// `e_new` is `e_old` resynced with the definition in `rs` that matches
/// `e_old`'s id and is active.
pub open spec fn resynced_with_some_def(
    e_old: ActiveReminderCache,
    e_new: ActiveReminderCache,
    rs: Seq<ReminderState>,
    now_ms: u64,
) -> bool {
    exists|j: int|
        0 <= j < rs.len() && (#[trigger] rs[j]).id@ == e_old.id@ && rs[j].is_active
            && e_new == e_old.spec_resynced(rs[j].name, rs[j].wait_sec, rs[j].duration_sec, None, now_ms)
}

} // verus!
