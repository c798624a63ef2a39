use pazcore::cache::{ActiveReminderCache, Cache, SchedulePhase};
use pazcore::state::ReminderState;

fn create_test_cache() -> Cache {
    Cache { reminders: Vec::new() }
}

#[test]
fn cache_resync_removes_deleted() {
    let mut persisted = vec![
        ReminderState::new("r1".to_string(), 1, 1),
        ReminderState::new("r2".to_string(), 1, 1),
        ReminderState::new("r3".to_string(), 1, 1),
    ];
    let deleted = ReminderState::new("r4".to_string(), 1, 1);
    persisted.iter_mut().for_each(|r| r.is_active = true);

    let mut cache = create_test_cache();
    cache.add(&persisted[0], 0);
    cache.add(&persisted[1], 0);
    cache.add(&persisted[2], 0);
    cache.add(&deleted, 0);

    cache.resync(&persisted, 0);

    assert_eq!(cache.reminders.len(), 3)
}

#[test]
fn cache_resync_adds_new() {
    let mut persisted = vec![
        ReminderState::new("r1".to_string(), 1, 1),
        ReminderState::new("r2".to_string(), 1, 1),
        ReminderState::new("r3".to_string(), 1, 1),
    ];
    persisted.iter_mut().for_each(|r| r.is_active = true);

    let mut cache = create_test_cache();
    cache.add(&persisted[0], 0);
    cache.add(&persisted[1], 0);

    cache.resync(&persisted, 0);

    assert_eq!(cache.reminders.len(), 3)
}

#[test]
fn cache_resync_unactive_removed() {
    let r1 = ReminderState::new("r1".to_string(), 1, 1);
    let mut r2 = ReminderState::new("r2".to_string(), 1, 1);
    r2.is_active = true;

    let persisted = vec![r1, r2];

    let mut cache = create_test_cache();
    cache.add(&persisted[0], 0);
    cache.add(&persisted[1], 0);

    cache.resync(&persisted, 0);

    assert_eq!(cache.reminders.len(), 1);
}

#[test]
fn cache_resync_active_added() {
    let mut persisted = vec![
        ReminderState::new("r1".to_string(), 1, 1),
        ReminderState::new("r2".to_string(), 1, 1),
    ];
    persisted.iter_mut().for_each(|r| r.is_active = true);

    let mut cache = create_test_cache();
    cache.add(&persisted[0], 0);

    cache.resync(&persisted, 0);

    assert_eq!(cache.reminders.len(), 2);
}

#[test]
fn cache_resync_surviving_ids_match_active_ids() {
    let mut persisted = vec![
        ReminderState::new("r1".to_string(), 1, 1),
        ReminderState::new("r2".to_string(), 1, 1),
        ReminderState::new("r3".to_string(), 1, 1),
    ];
    persisted[0].is_active = true;
    persisted[2].is_active = true;

    let mut cache = create_test_cache();
    cache.add(&persisted[1], 0);

    cache.resync(&persisted, 0);

    let mut ids: Vec<String> = cache.reminders.iter().map(|e| e.id.clone()).collect();
    ids.sort();
    let mut expected = vec![persisted[0].id.clone(), persisted[2].id.clone()];
    expected.sort();
    assert_eq!(ids, expected);
}

#[test]
fn cache_resync_readded_id_starts_fresh_entry() {
    let mut def = ReminderState::new("r1".to_string(), 2, 1);
    def.is_active = false;

    let mut cache = create_test_cache();
    let defs = vec![def];
    cache.resync(&defs, 0);
    assert_eq!(cache.reminders.len(), 0);

    let mut defs = defs;
    defs[0].is_active = true;
    cache.resync(&defs, 500);
    assert_eq!(cache.reminders.len(), 1);
    assert_eq!(cache.reminders[0].id, defs[0].id);
    assert_eq!(cache.reminders[0].phase, SchedulePhase::Waiting);
    assert_eq!(cache.reminders[0].next_execution, 500 + 2000);
}

#[test]
fn two_reminders_single_loop() {
    let mut reminder1 = ReminderState::new("test_reminder1".to_string(), 1, 1);
    let mut reminder2 = ReminderState::new("test_reminder2".to_string(), 2, 1);
    reminder1.is_active = true;
    reminder2.is_active = true;

    let mut cache = create_test_cache();
    cache.add(&reminder1, 0);
    cache.add(&reminder2, 0);

    cache.start(0);

    // both timers run at once; the punctual firing order over the first
    // four seconds is reminder1, reminder2, reminder1, reminder2
    let due1 = cache.reminders[0].next_execution;
    let due2 = cache.reminders[1].next_execution;
    assert_eq!(due1, 1000);
    assert_eq!(due2, 2000);
    assert!(due1 < due2);

    let epoch1 = cache.reminders[0].epoch;
    let epoch2 = cache.reminders[1].epoch;

    let next = cache.on_timer_elapsed(&reminder1.id, epoch1, 1000);
    assert_eq!(next, Some(2000));
    let next = cache.on_timer_elapsed(&reminder2.id, epoch2, 2000);
    assert_eq!(next, Some(3000));
    assert_eq!(cache.reminders[0].next_execution, 3000);
    assert_eq!(cache.reminders[1].next_execution, 5000);
    assert!(cache.reminders[0].next_execution < cache.reminders[1].next_execution);

    let next = cache.on_timer_elapsed(&reminder1.id, epoch1, 3000);
    assert_eq!(next, Some(2000));
    let next = cache.on_timer_elapsed(&reminder2.id, epoch2, 5000);
    assert_eq!(next, Some(3000));
}

#[test]
fn reminder_default_single_loop() {
    let mut reminder = ReminderState::new("test_reminder".to_string(), 2, 1);
    reminder.is_active = true;

    let mut cache = create_test_cache();
    cache.add(&reminder, 0);

    cache.start(0);

    // the first firing comes after the wait duration alone
    let next_one = cache.reminders[0].next_execution;
    let one_ts: u64 = next_one;
    let dur1: u64 = one_ts - 0;
    assert_eq!(dur1, 2000, "dur1 is {} but should be 2000 ms", dur1);

    let epoch = cache.reminders[0].epoch;
    let fired = cache.on_timer_elapsed(&reminder.id, epoch, one_ts);
    assert_eq!(fired, Some(3000));

    // afterwards the cadence is one full wait + active cycle, and the
    // deadline read right after a firing is the firing time plus that cycle
    let next_two = cache.reminders[0].next_execution;
    let two_ts: u64 = next_two;
    let dur2: u64 = two_ts - one_ts;
    assert_eq!(dur2, 3000, "dur2 is {} but should be 3000 ms", dur2);
    let diff2: u64 = next_two - one_ts;
    assert_eq!(diff2, 3000);

    let fired = cache.on_timer_elapsed(&reminder.id, epoch, two_ts);
    assert_eq!(fired, Some(3000));
    assert_eq!(cache.reminders[0].next_execution, two_ts + 3000);
}

#[test]
fn reminder_oneoff_single_loop() {
    let mut reminder = ReminderState::new("test_reminder".to_string(), 1, 1);
    reminder.is_active = true;

    let mut cache = create_test_cache();
    cache.add(&reminder, 0);

    cache.start(0);

    // first firing after the regular wait of 1000 ms
    let next_one = cache.reminders[0].next_execution;
    assert_eq!(next_one, 1000, "dur1 is {} but should be 1000 ms", next_one);
    let epoch = cache.reminders[0].epoch;
    let fired = cache.on_timer_elapsed(&reminder.id, epoch, 1000);
    assert_eq!(fired, Some(2000));

    // a one-shot delay of 3 s replaces exactly the next wait
    cache.delay_reminder(&reminder.id, 3, 1000);
    let next_two = cache.reminders[0].next_execution;
    let dur2: u64 = next_two - 1000;
    assert_eq!(dur2, 3000, "dur2 is {} but should be 3000 ms", dur2);

    // the delay restarted the timer under a new task generation
    let epoch2 = cache.reminders[0].epoch;
    assert_ne!(epoch, epoch2);
    assert_eq!(cache.on_timer_elapsed(&reminder.id, epoch, next_two), None);

    let fired = cache.on_timer_elapsed(&reminder.id, epoch2, next_two);
    assert_eq!(fired, Some(2000));

    // the cadence reverts to the regular 2000 ms cycle
    let next_three = cache.reminders[0].next_execution;
    let dur3: u64 = next_three - next_two;
    assert_eq!(dur3, 2000, "dur3 is {} but should be 2000 ms", dur3);
    assert_eq!(cache.reminders[0].one_off_wait_sec_dur, None);
}

#[test]
fn stopped_entry_fires_no_more() {
    let mut reminder = ReminderState::new("r".to_string(), 1, 1);
    reminder.is_active = true;

    let mut cache = create_test_cache();
    cache.add(&reminder, 0);
    cache.start(0);
    let epoch = cache.reminders[0].epoch;

    cache.reminders[0].stop();
    assert_eq!(cache.reminders[0].phase, SchedulePhase::Idle);

    // a wake-up of the old task is rejected and changes nothing
    let before = cache.reminders[0].next_execution;
    assert_eq!(cache.on_timer_elapsed(&reminder.id, epoch, 1000), None);
    assert_eq!(cache.reminders[0].next_execution, before);
    assert_eq!(cache.reminders[0].phase, SchedulePhase::Idle);
}

#[test]
fn unknown_id_is_silent_noop() {
    let mut reminder = ReminderState::new("r".to_string(), 1, 1);
    reminder.is_active = true;

    let mut cache = create_test_cache();
    cache.add(&reminder, 0);
    cache.start(0);

    let missing_id = "no-such-id".to_string();
    cache.delay_reminder(&missing_id, 5, 0);
    assert_eq!(cache.on_timer_elapsed(&missing_id, 1, 1000), None);
    assert_eq!(cache.reminders.len(), 1);
    assert_eq!(cache.reminders[0].next_execution, 1000);
}

#[test]
fn resync_name_change_keeps_timer() {
    let mut reminder = ReminderState::new("old name".to_string(), 2, 1);
    reminder.is_active = true;

    let mut cache = create_test_cache();
    cache.add(&reminder, 0);
    cache.start(0);
    let due_before = cache.reminders[0].next_execution;
    let epoch_before = cache.reminders[0].epoch;

    let mut renamed = reminder.clone();
    renamed.name = "new name".to_string();
    cache.resync(&vec![renamed], 777);

    assert_eq!(cache.reminders.len(), 1);
    assert_eq!(cache.reminders[0].name, "new name".to_string());
    assert_eq!(cache.reminders[0].next_execution, due_before);
    assert_eq!(cache.reminders[0].epoch, epoch_before);
}

#[test]
fn resync_duration_change_restarts_timer() {
    let mut reminder = ReminderState::new("r".to_string(), 2, 1);
    reminder.is_active = true;

    let mut cache = create_test_cache();
    cache.add(&reminder, 0);
    cache.start(0);
    let epoch_before = cache.reminders[0].epoch;

    let mut changed = reminder.clone();
    changed.wait_sec = 5;
    cache.resync(&vec![changed], 10_000);

    // the deadline recomputes from "now" under the new wait
    assert_eq!(cache.reminders.len(), 1);
    assert_eq!(cache.reminders[0].next_execution, 10_000 + 5000);
    assert_eq!(cache.reminders[0].phase, SchedulePhase::Waiting);
    assert_ne!(cache.reminders[0].epoch, epoch_before);
}

#[test]
fn entry_new_is_idle() {
    let reminder = ReminderState::new("r".to_string(), 4, 3);
    let entry = ActiveReminderCache::new(&reminder, 100);
    assert_eq!(entry.id, reminder.id);
    assert_eq!(entry.name, "r".to_string());
    assert_eq!(entry.wait_sec_dur, 4);
    assert_eq!(entry.reminder_dur, 3);
    assert_eq!(entry.one_off_wait_sec_dur, None);
    assert_eq!(entry.next_execution, 100 + 4000);
    assert_eq!(entry.phase, SchedulePhase::Idle);
    assert_eq!(entry.epoch, 0);
}
