use vstd::prelude::*;

verus! {

/// Largest wait or active duration, in whole seconds, that the schedule
/// logic accepts for a single reminder (roughly 126 years).  The bound keeps
/// every deadline computation inside `u64` milliseconds.
pub const MAX_DUR_SEC: u64 = 4_000_000_000;

/// Latest clock reading, in milliseconds since the Unix epoch, that the
/// schedule logic accepts.  Adding two maximal durations to such a reading
/// still fits comfortably in a `u64`.
pub const MAX_NOW_MS: u64 = 4_000_000_000_000_000;

/// Relies on `uuid::Uuid::new_v4` for a fresh random identifier and on its
/// `Display` impl, which always renders the hyphenated 36-character form.
#[verifier::external_body]
fn new_uuid_string() -> (r: String)
    ensures
        r@.len() == 36,
{
    uuid::Uuid::new_v4().to_string()
}

/// Persisted description of a single reminder, independent of any running
/// timer: a unique id, a display name, whether a live schedule should exist,
/// and the two cadence durations (both in whole seconds).
#[derive(Debug, PartialEq)]
pub struct ReminderState {
    pub id: String,
    pub name: String,
    pub is_active: bool,
    pub wait_sec: u64,
    pub duration_sec: u64,
}

impl ReminderState {
    /// Both cadence durations are small enough for deadline arithmetic.
    pub open spec fn valid_durations(self) -> bool {
        self.wait_sec <= MAX_DUR_SEC && self.duration_sec <= MAX_DUR_SEC
    }

    /// Builds a fresh, inactive definition with a newly generated id.
    pub fn new(name: String, wait: u64, duration: u64) -> (r: ReminderState)
        ensures
            r.name == name,
            r.is_active == false,
            r.wait_sec == wait,
            r.duration_sec == duration,
            r.id@.len() == 36,
    {
        ReminderState {
            id: new_uuid_string(),
            name,
            is_active: false,
            wait_sec: wait,
            duration_sec: duration,
        }
    }
}

impl Clone for ReminderState {
    fn clone(&self) -> (r: Self)
        ensures
            r == *self,
    {
        ReminderState {
            id: self.id.clone(),
            name: self.name.clone(),
            is_active: self.is_active,
            wait_sec: self.wait_sec,
            duration_sec: self.duration_sec,
        }
    }
}

/// No two definitions in the list share an id.
pub open spec fn unique_def_ids(rs: Seq<ReminderState>) -> bool {
    forall|i: int, j: int| 0 <= i < j < rs.len() ==> rs[i].id@ != rs[j].id@
}

/// Every definition in the list carries durations the schedule logic accepts.
pub open spec fn all_defs_valid(rs: Seq<ReminderState>) -> bool {
    forall|i: int| 0 <= i < rs.len() ==> #[trigger] rs[i].valid_durations()
}

/// Some definition in the list has this id and is marked active.
pub open spec fn def_is_active_id(rs: Seq<ReminderState>, id: Seq<char>) -> bool {
    exists|i: int| 0 <= i < rs.len() && #[trigger] rs[i].id@ == id && rs[i].is_active
}

/// The ids of all active definitions in the list.
pub open spec fn active_def_ids(rs: Seq<ReminderState>) -> Set<Seq<char>> {
    Set::new(|id: Seq<char>| def_is_active_id(rs, id))
}

/// Whether every id in `rs` is distinct, decided executably.
pub fn defs_have_unique_ids(rs: &Vec<ReminderState>) -> (r: bool)
    ensures
        r == unique_def_ids(rs@),
{
    let n = rs.len();
    let mut i: usize = 0;
    while i < n
        invariant
            n == rs@.len(),
            i <= n,
            forall|p: int, q: int| 0 <= p < q < rs@.len() && p < i ==> rs@[p].id@ != rs@[q].id@,
        decreases n - i,
    {
        let mut j: usize = i + 1;
        while j < n
            invariant
                n == rs@.len(),
                i < j <= n,
                forall|q: int| i < q < j ==> rs@[i as int].id@ != rs@[q].id@,
            decreases n - j,
        {
            if rs[i].id == rs[j].id {
                return false;
            }
            j += 1;
        }
        i += 1;
    }
    true
}

/// The whole persisted aggregate: an opaque client identity, the storage
/// location, and the ordered definition list.  Owned by the engine and
/// replaced wholesale on a save command.
#[derive(Debug, PartialEq)]
pub struct ClientState {
    pub client_uuid: String,
    pub data_path: String,
    pub reminders: Vec<ReminderState>,
}

impl ClientState {
    /// Builds the default state used when nothing was persisted yet: a fresh
    /// client id and two inactive starter reminders.
    pub fn new(data_path: &str) -> (r: ClientState)
        ensures
            r.client_uuid@.len() == 36,
            r.data_path@ == data_path@,
            r.reminders@.len() == 2,
            r.reminders@[0].name@ == "Stretch"@,
            r.reminders@[0].wait_sec == 10 * 1000,
            r.reminders@[0].duration_sec == 15 * 1000,
            r.reminders@[1].name@ == "Drink Water"@,
            r.reminders@[1].wait_sec == 20 * 1000,
            r.reminders@[1].duration_sec == 30 * 1000,
            forall|i: int| 0 <= i < 2 ==> !(#[trigger] r.reminders@[i]).is_active,
            all_defs_valid(r.reminders@),
    {
        let mut config = ClientState {
            client_uuid: new_uuid_string(),
            data_path: data_path.to_owned(),
            reminders: Vec::new(),
        };

        let stretch = ReminderState::new("Stretch".to_owned(), 10 * 1000, 15 * 1000);
        let water = ReminderState::new("Drink Water".to_owned(), 20 * 1000, 30 * 1000);
        config.reminders.push(stretch);
        config.reminders.push(water);
        config
    }
}

impl Clone for ClientState {
    fn clone(&self) -> (r: Self)
        ensures
            r.client_uuid == self.client_uuid,
            r.data_path == self.data_path,
            r.reminders@ == self.reminders@,
    {
        let mut reminders: Vec<ReminderState> = Vec::new();
        let n = self.reminders.len();
        let mut i: usize = 0;
        while i < n
            invariant
                n == self.reminders@.len(),
                i <= n,
                reminders@ == self.reminders@.subrange(0, i as int),
            decreases n - i,
        {
            reminders.push(self.reminders[i].clone());
            i += 1;
        }
        proof {
            assert(reminders@ =~= self.reminders@);
        }
        ClientState {
            client_uuid: self.client_uuid.clone(),
            data_path: self.data_path.clone(),
            reminders,
        }
    }
}

/// The screens a host user interface can show.
#[derive(Debug, Clone, Copy, PartialEq, Eq, Structural)]
pub enum UiView {
    Dashboard,
    Settings,
}

} // verus!
