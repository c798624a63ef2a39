use pazcore::cache::SchedulePhase;
use pazcore::clock::current_time_ms;
use pazcore::state::{defs_have_unique_ids, ClientState, ReminderState, UiView, MAX_NOW_MS};
use pazcore::{ClientCommand, ClientQuery, Core, CoreError, CoreResponse, InternalEvent};

fn empty_state() -> ClientState {
    ClientState {
        client_uuid: "client".to_string(),
        data_path: "data".to_string(),
        reminders: Vec::new(),
    }
}

#[test]
fn add_helpers_compute_sums() {
    assert_eq!(pazcore::add_one(41), 42);
    assert_eq!(pazcore::add(2, 3), 5);
    assert_eq!(pazcore::add(-7, 3), -4);
}

#[test]
fn exec_command_add_one() {
    let mut core = Core::new(empty_state(), 0);
    let r = core.exec_command(ClientCommand::AddOne { value: 41 }, 0);
    assert_eq!(r, Ok(CoreResponse::Sum(42)));
}

#[test]
fn exec_command_add() {
    let mut core = Core::new(empty_state(), 0);
    let r = core.exec_command(ClientCommand::Add { x: 2, y: 3 }, 0);
    assert_eq!(r, Ok(CoreResponse::Sum(5)));
}

#[test]
fn exec_query_returns_state_snapshot() {
    let mut state = empty_state();
    let mut r1 = ReminderState::new("r1".to_string(), 1, 1);
    r1.is_active = true;
    state.reminders.push(r1);

    let core = Core::new(state, 0);
    let response = core.exec_query(ClientQuery::ClientGetState);
    match response {
        Ok(CoreResponse::ClientGetState(snapshot)) => {
            assert_eq!(snapshot.client_uuid, "client".to_string());
            assert_eq!(snapshot.data_path, "data".to_string());
            assert_eq!(snapshot.reminders.len(), 1);
            assert_eq!(snapshot.reminders[0].name, "r1".to_string());
        },
        other => panic!("unexpected response: {:?}", other),
    }
}

#[test]
fn exec_query_unserved_variant_is_query_error() {
    let core = Core::new(empty_state(), 0);
    let response = core.exec_query(ClientQuery::JobGetRunning);
    assert_eq!(response, Err(CoreError::QueryError));
}

#[test]
fn save_reminders_replaces_list_and_reconciles_cache() {
    let mut old_def = ReminderState::new("old".to_string(), 1, 1);
    old_def.is_active = true;
    let mut state = empty_state();
    state.reminders.push(old_def.clone());

    let mut core = Core::new(state, 0);
    core.initialize(0);
    assert_eq!(core.cache.reminders.len(), 1);

    // the new list lacks the previously-active id: its entry goes away
    let mut new_def = ReminderState::new("new".to_string(), 2, 1);
    new_def.is_active = true;
    let r = core.exec_command(
        ClientCommand::SaveReminders { reminders: vec![new_def.clone()] },
        5000,
    );
    assert_eq!(r, Ok(CoreResponse::Success(())));
    assert_eq!(core.state.reminders.len(), 1);
    assert_eq!(core.state.reminders[0].id, new_def.id);
    assert_eq!(core.cache.reminders.len(), 1);
    assert_eq!(core.cache.reminders[0].id, new_def.id);
    assert_eq!(core.cache.reminders[0].phase, SchedulePhase::Waiting);
    assert_eq!(core.cache.reminders[0].next_execution, 5000 + 2000);
}

#[test]
fn delay_reminder_command_sets_one_shot() {
    let mut def = ReminderState::new("r".to_string(), 10, 5);
    def.is_active = true;
    let mut state = empty_state();
    state.reminders.push(def.clone());

    let mut core = Core::new(state, 0);
    core.initialize(0);
    assert_eq!(core.cache.reminders[0].next_execution, 10_000);

    let r = core.exec_command(
        ClientCommand::DelayReminder { id: def.id.clone(), delay: 3 },
        1000,
    );
    assert_eq!(r, Ok(CoreResponse::Success(())));
    assert_eq!(core.cache.reminders[0].next_execution, 1000 + 3000);
    assert_eq!(core.cache.reminders[0].one_off_wait_sec_dur, None);
    // the definition list is untouched: a delay is transient
    assert_eq!(core.state.reminders[0].wait_sec, 10);
}

#[test]
fn delay_reminder_unknown_id_is_noop() {
    let mut def = ReminderState::new("r".to_string(), 10, 5);
    def.is_active = true;
    let mut state = empty_state();
    state.reminders.push(def);

    let mut core = Core::new(state, 0);
    core.initialize(0);
    let before = core.cache.reminders[0].next_execution;

    let r = core.exec_command(
        ClientCommand::DelayReminder { id: "unknown".to_string(), delay: 3 },
        1000,
    );
    assert_eq!(r, Ok(CoreResponse::Success(())));
    assert_eq!(core.cache.reminders[0].next_execution, before);
}

#[test]
fn exec_event_hands_out_reminder_id() {
    let mut core = Core::new(empty_state(), 0);
    let id = core.exec_event(InternalEvent::ReminderStart { id: "abc".to_string() });
    assert_eq!(id, "abc".to_string());
}

#[test]
fn initialize_starts_active_entries_only() {
    let mut active = ReminderState::new("on".to_string(), 2, 1);
    active.is_active = true;
    let inactive = ReminderState::new("off".to_string(), 2, 1);

    let mut state = empty_state();
    state.reminders.push(active.clone());
    state.reminders.push(inactive);

    let mut core = Core::new(state, 0);
    core.initialize(100);

    assert_eq!(core.cache.reminders.len(), 1);
    assert_eq!(core.cache.reminders[0].id, active.id);
    assert_eq!(core.cache.reminders[0].phase, SchedulePhase::Waiting);
    assert_eq!(core.cache.reminders[0].next_execution, 100 + 2000);
}

#[test]
fn client_state_default_has_two_inactive_reminders() {
    let state = ClientState::new("some/dir");
    assert_eq!(state.data_path, "some/dir".to_string());
    assert_eq!(state.client_uuid.len(), 36);
    assert_eq!(state.reminders.len(), 2);
    assert_eq!(state.reminders[0].name, "Stretch".to_string());
    assert_eq!(state.reminders[0].wait_sec, 10 * 1000);
    assert_eq!(state.reminders[0].duration_sec, 15 * 1000);
    assert_eq!(state.reminders[1].name, "Drink Water".to_string());
    assert_eq!(state.reminders[1].wait_sec, 20 * 1000);
    assert_eq!(state.reminders[1].duration_sec, 30 * 1000);
    assert!(!state.reminders[0].is_active);
    assert!(!state.reminders[1].is_active);
}

#[test]
fn reminder_state_new_generates_uuid_id() {
    let r = ReminderState::new("r".to_string(), 7, 9);
    assert_eq!(r.name, "r".to_string());
    assert_eq!(r.wait_sec, 7);
    assert_eq!(r.duration_sec, 9);
    assert!(!r.is_active);
    assert_eq!(r.id.len(), 36);
}

#[test]
fn defs_have_unique_ids_detects_duplicates() {
    let r1 = ReminderState::new("a".to_string(), 1, 1);
    let r2 = ReminderState::new("b".to_string(), 1, 1);
    let mut dup = r2.clone();
    dup.name = "c".to_string();

    assert!(defs_have_unique_ids(&vec![r1.clone(), r2.clone()]));
    assert!(!defs_have_unique_ids(&vec![r1, r2, dup]));
}

#[test]
fn current_time_ms_is_in_range() {
    let t = current_time_ms();
    assert!(t <= MAX_NOW_MS);
    // any real clock reading lies after the Unix epoch
    assert!(t > 0);
}

#[test]
fn ui_view_variants_are_distinct() {
    let v = UiView::Dashboard;
    assert_eq!(v, UiView::Dashboard);
    assert_ne!(UiView::Dashboard, UiView::Settings);
}
