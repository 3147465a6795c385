use std::collections::HashMap;
use update_supervisor::error::{StoreFailure, UpdateError};
use update_supervisor::layout::InstallationState;
use update_supervisor::protocol::{Action, Event, PidFile, Step};
use update_supervisor::supervisor::{Mode, Supervisor, POLL_INTERVAL_SECONDS};

const DIR: &str = "/shared";
const BINARY: &str = "/shared/cmd";
const CONFIG: &str = "/shared/config.json";
const MARKER: &str = "/shared/current_version.txt";
const PID: &str = "/shared/wrapper.pid";
const NEW_BINARY: &str = "/shared/new_cmd";
const NEW_CONFIG: &str = "/shared/new_config.json";
const NEW_FILE_MODE: u32 = 0o644;

/// A store, a directory and a process table that live in memory.
struct Fake {
    store: HashMap<String, Vec<u8>>,
    store_down: bool,
    files: HashMap<String, (Vec<u8>, u32)>,
    processes: Vec<i32>,
    pid_file_locked: bool,
    fail_file_operation: Option<usize>,
    file_operations: usize,
    pointer_fetches: usize,
    payload_fetches: usize,
    signals: Vec<i32>,
    performed: Vec<Action>,
}

impl Fake {
    fn new() -> Fake {
        Fake {
            store: HashMap::new(),
            store_down: false,
            files: HashMap::new(),
            processes: Vec::new(),
            pid_file_locked: false,
            fail_file_operation: None,
            file_operations: 0,
            pointer_fetches: 0,
            payload_fetches: 0,
            signals: Vec::new(),
            performed: Vec::new(),
        }
    }

    fn publish(&mut self, app: &str, version: &str, binary: &[u8], config: &[u8]) {
        self.store.insert(format!("{}/executables/{}/cmd", app, version), binary.to_vec());
        self.store.insert(format!("{}/executables/{}/config.json", app, version), config.to_vec());
    }

    fn point_at(&mut self, app: &str, text: &str) {
        self.store.insert(format!("{}/latest.txt", app), text.as_bytes().to_vec());
    }

    fn put(&mut self, path: &str, data: &[u8], executable: bool) {
        let mode = if executable { 0o755 } else { NEW_FILE_MODE };
        self.files.insert(path.to_string(), (data.to_vec(), mode));
    }

    fn data(&self, path: &str) -> Option<Vec<u8>> {
        self.files.get(path).map(|file| file.0.clone())
    }

    fn executable(&self, path: &str) -> bool {
        self.files.get(path).map(|file| file.1) == Some(0o755)
    }

    fn get(&self, key: &str) -> Result<Vec<u8>, StoreFailure> {
        if self.store_down {
            Err(StoreFailure::Unavailable)
        } else {
            self.store.get(key).cloned().ok_or(StoreFailure::Missing)
        }
    }

    fn file_operation_succeeds(&mut self) -> bool {
        let index = self.file_operations;
        self.file_operations += 1;
        self.fail_file_operation != Some(index)
    }

    fn perform(&mut self, action: &Action) -> Event {
        self.performed.push(action.clone());
        match action {
            Action::ProbeBinary { path } => Event::Probed { exists: self.files.contains_key(path) },
            Action::FetchPointer { key } => {
                self.pointer_fetches += 1;
                Event::Fetched(self.get(key))
            }
            Action::FetchPayload { key } => {
                self.payload_fetches += 1;
                Event::Fetched(self.get(key))
            }
            Action::ReadMarker { path } => Event::Marker(self.data(path)),
            Action::WriteFile { path, data } => {
                let ok = self.file_operation_succeeds();
                if ok {
                    let mode = self.files.get(path).map(|file| file.1).unwrap_or(NEW_FILE_MODE);
                    self.files.insert(path.clone(), (data.clone(), mode));
                }
                Event::Done { ok }
            }
            Action::SetMode { path, mode } => {
                let ok = self.file_operation_succeeds() && self.files.contains_key(path);
                if ok {
                    self.files.get_mut(path).unwrap().1 = *mode;
                }
                Event::Done { ok }
            }
            Action::Rename { from, to } => {
                let ok = self.file_operation_succeeds() && self.files.contains_key(from);
                if ok {
                    let file = self.files.remove(from).unwrap();
                    self.files.insert(to.clone(), file);
                }
                Event::Done { ok }
            }
            Action::ReadPid { path } => Event::Pid(match self.data(path) {
                None => PidFile::Absent,
                Some(_) if self.pid_file_locked => PidFile::Unreadable,
                Some(bytes) => PidFile::Contents(bytes),
            }),
            Action::Signal { pid } => {
                let ok = self.processes.contains(pid);
                if ok {
                    self.signals.push(*pid);
                }
                Event::Signalled { ok }
            }
            Action::Sleep { .. } => Event::Woke,
        }
    }
}

/// A supervisor together with the request that it has issued last.
struct Driver {
    supervisor: Option<Supervisor>,
    pending: Action,
    reports: Vec<UpdateError>,
}

impl Driver {
    fn start(app: &str) -> Driver {
        let (supervisor, step) =
            Supervisor::start(Some(app.to_string()), InstallationState::under(DIR)).unwrap();
        assert_eq!(step.report, None);
        Driver { supervisor: Some(supervisor), pending: step.action, reports: Vec::new() }
    }

    fn mode(&self) -> Mode {
        self.supervisor.as_ref().unwrap().mode()
    }

    fn feed(&mut self, event: Event) -> Option<Step> {
        let (supervisor, step) = self.supervisor.take().unwrap().step(event);
        self.supervisor = Some(supervisor);
        if let Some(step) = &step {
            if let Some(error) = step.report {
                self.reports.push(error);
            }
            self.pending = step.action.clone();
        }
        step
    }

    /// Performs the pending request and takes the next one.
    fn turn(&mut self, fake: &mut Fake) {
        let event = fake.perform(&self.pending);
        assert!(self.feed(event).is_some());
    }

    /// Performs requests until the supervisor wants to sleep.
    fn run_to_sleep(&mut self, fake: &mut Fake) {
        let mut turns = 0;
        loop {
            self.turn(fake);
            turns += 1;
            assert!(turns < 100);
            if matches!(self.pending, Action::Sleep { .. }) {
                return;
            }
        }
    }

    /// A supervisor that has found a live binary and an up-to-date marker,
    /// and sleeps.
    fn settled(app: &str, version: &str, fake: &mut Fake) -> Driver {
        fake.put(BINARY, b"old binary", true);
        fake.put(CONFIG, b"old config", false);
        fake.put(MARKER, version.as_bytes(), false);
        let pointer = fake.store.get(&format!("{}/latest.txt", app)).cloned();
        fake.point_at(app, version);
        let mut driver = Driver::start(app);
        driver.run_to_sleep(fake);
        assert!(driver.reports.is_empty());
        match pointer {
            Some(bytes) => {
                fake.store.insert(format!("{}/latest.txt", app), bytes);
            }
            None => {
                fake.store.remove(&format!("{}/latest.txt", app));
            }
        }
        fake.performed.clear();
        fake.pointer_fetches = 0;
        fake.payload_fetches = 0;
        fake.file_operations = 0;
        driver
    }
}

#[test]
fn start_without_application_name_is_config_missing() {
    let started = Supervisor::start(None, InstallationState::under(DIR));
    assert!(matches!(started, Err(UpdateError::ConfigMissing)));
}

#[test]
fn start_asks_whether_the_live_binary_exists() {
    let (supervisor, step) =
        Supervisor::start(Some(String::from("app")), InstallationState::under(DIR)).unwrap();
    assert_eq!(step, Step { action: Action::ProbeBinary { path: BINARY.to_string() }, report: None });
    assert_eq!(supervisor.mode(), Mode::Starting);
    assert_eq!(supervisor.app(), "app");
    assert_eq!(supervisor.layout().marker(), MARKER);
}

#[test]
fn bootstrap_installs_latest_and_notifies_nobody() {
    let mut fake = Fake::new();
    fake.point_at("app", "v3");
    fake.publish("app", "v3", b"binary three", b"{\"three\": 3}");
    fake.put(PID, b"77", false);
    fake.processes.push(77);
    let mut driver = Driver::start("app");
    driver.turn(&mut fake);
    assert_eq!(driver.mode(), Mode::Bootstrapping);
    while driver.mode() == Mode::Bootstrapping {
        driver.turn(&mut fake);
    }
    assert_eq!(driver.mode(), Mode::Polling);
    assert_eq!(driver.pending, Action::FetchPointer { key: String::from("app/latest.txt") });
    assert_eq!(fake.data(BINARY), Some(b"binary three".to_vec()));
    assert!(fake.executable(BINARY));
    assert_eq!(fake.data(CONFIG), Some(b"{\"three\": 3}".to_vec()));
    assert_eq!(fake.data(MARKER), Some(b"v3".to_vec()));
    assert!(!fake.files.contains_key(NEW_BINARY));
    assert!(!fake.files.contains_key(NEW_CONFIG));
    assert!(fake.signals.is_empty());
    assert!(!fake.performed.iter().any(|a| matches!(a, Action::ReadPid { .. } | Action::Signal { .. })));
    assert!(driver.reports.is_empty());
    driver.run_to_sleep(&mut fake);
    assert!(fake.signals.is_empty());
    assert_eq!(fake.payload_fetches, 2);
    assert!(driver.reports.is_empty());
}

#[test]
fn bootstrap_issues_the_install_in_order() {
    let mut fake = Fake::new();
    fake.point_at("app", " v3\n");
    fake.publish("app", "v3", b"B", b"C");
    let mut driver = Driver::start("app");
    for _ in 0..10 {
        driver.turn(&mut fake);
    }
    let expected = vec![
        Action::ProbeBinary { path: BINARY.to_string() },
        Action::FetchPointer { key: String::from("app/latest.txt") },
        Action::FetchPayload { key: String::from("app/executables/v3/cmd") },
        Action::FetchPayload { key: String::from("app/executables/v3/config.json") },
        Action::WriteFile { path: NEW_BINARY.to_string(), data: b"B".to_vec() },
        Action::SetMode { path: NEW_BINARY.to_string(), mode: 0o755 },
        Action::WriteFile { path: NEW_CONFIG.to_string(), data: b"C".to_vec() },
        Action::Rename { from: NEW_BINARY.to_string(), to: BINARY.to_string() },
        Action::Rename { from: NEW_CONFIG.to_string(), to: CONFIG.to_string() },
        Action::WriteFile { path: MARKER.to_string(), data: b"v3".to_vec() },
    ];
    assert_eq!(fake.performed, expected);
}

#[test]
fn existing_binary_skips_bootstrap() {
    let mut fake = Fake::new();
    fake.put(BINARY, b"old", true);
    fake.put(MARKER, b"v1", false);
    fake.point_at("app", "v1");
    let mut driver = Driver::start("app");
    driver.turn(&mut fake);
    assert_eq!(driver.mode(), Mode::Polling);
    driver.run_to_sleep(&mut fake);
    assert_eq!(driver.mode(), Mode::Resting);
    assert_eq!(fake.payload_fetches, 0);
    assert_eq!(fake.data(BINARY), Some(b"old".to_vec()));
}

#[test]
fn steady_state_fetches_nothing() {
    let mut fake = Fake::new();
    fake.point_at("app", "v5");
    fake.publish("app", "v5", b"five", b"{}");
    fake.put(PID, b"12", false);
    fake.processes.push(12);
    let mut driver = Driver::settled("app", "v5", &mut fake);
    let before = fake.files.clone();
    for _ in 0..25 {
        driver.turn(&mut fake);
        driver.run_to_sleep(&mut fake);
        assert_eq!(driver.pending, Action::Sleep { seconds: POLL_INTERVAL_SECONDS });
    }
    assert_eq!(fake.payload_fetches, 0);
    assert_eq!(fake.pointer_fetches, 25);
    assert_eq!(fake.file_operations, 0);
    assert!(fake.signals.is_empty());
    assert!(driver.reports.is_empty());
    assert_eq!(fake.files, before);
    assert_eq!(fake.performed.len(), 75);
}

#[test]
fn same_version_with_surrounding_whitespace_is_up_to_date() {
    let mut fake = Fake::new();
    let mut driver = Driver::settled("app", "v5", &mut fake);
    fake.point_at("app", "  v5\r\n");
    fake.put(MARKER, b"v5\n", false);
    driver.turn(&mut fake);
    driver.run_to_sleep(&mut fake);
    assert_eq!(fake.payload_fetches, 0);
    assert_eq!(fake.file_operations, 0);
}

#[test]
fn update_installs_and_signals_once() {
    let mut fake = Fake::new();
    fake.point_at("app", "v5");
    fake.publish("app", "v5", b"binary five", b"config five");
    fake.put(PID, b"4321\n", false);
    fake.processes.push(4321);
    let mut driver = Driver::settled("app", "v4", &mut fake);
    driver.turn(&mut fake);
    driver.turn(&mut fake);
    driver.turn(&mut fake);
    assert_eq!(driver.mode(), Mode::Updating);
    driver.run_to_sleep(&mut fake);
    assert_eq!(fake.data(MARKER), Some(b"v5".to_vec()));
    assert!(!fake.files.contains_key(NEW_BINARY));
    assert!(!fake.files.contains_key(NEW_CONFIG));
    assert_eq!(fake.signals, vec![4321]);
    assert_eq!(fake.data(BINARY), Some(b"binary five".to_vec()));
    assert!(fake.executable(BINARY));
    assert_eq!(fake.data(CONFIG), Some(b"config five".to_vec()));
    assert_eq!(fake.data(PID), Some(b"4321\n".to_vec()));
    assert!(driver.reports.is_empty());
    assert_eq!(driver.mode(), Mode::Resting);
    driver.turn(&mut fake);
    driver.run_to_sleep(&mut fake);
    assert_eq!(fake.signals, vec![4321]);
    assert_eq!(fake.payload_fetches, 2);
}

#[test]
fn update_round_trips_the_fetched_bytes() {
    let binary: Vec<u8> = (0..=255u8).cycle().take(5000).collect();
    let mut fake = Fake::new();
    fake.point_at("svc", "2024-06-01.7\n");
    fake.publish("svc", "2024-06-01.7", &binary, b"{\"k\": [1, 2]}\n");
    let mut driver = Driver::settled("svc", "2024-05-30.1", &mut fake);
    fake.put(BINARY, b"old binary", false);
    driver.turn(&mut fake);
    driver.run_to_sleep(&mut fake);
    assert_eq!(fake.data(BINARY), Some(binary));
    assert!(fake.executable(BINARY));
    assert_eq!(fake.data(CONFIG), Some(b"{\"k\": [1, 2]}\n".to_vec()));
    assert_eq!(fake.data(MARKER), Some(b"2024-06-01.7".to_vec()));
    fake.performed.clear();
    driver.turn(&mut fake);
    driver.run_to_sleep(&mut fake);
    assert_eq!(fake.performed.len(), 3);
}

#[test]
fn older_looking_latest_is_installed_too() {
    let mut fake = Fake::new();
    fake.point_at("app", "v5");
    fake.publish("app", "v5", b"five", b"{}");
    let mut driver = Driver::settled("app", "v9", &mut fake);
    driver.turn(&mut fake);
    driver.run_to_sleep(&mut fake);
    assert_eq!(fake.data(MARKER), Some(b"v5".to_vec()));
    assert_eq!(fake.data(BINARY), Some(b"five".to_vec()));
}

#[test]
fn missing_marker_counts_as_nothing_installed() {
    let mut fake = Fake::new();
    fake.point_at("app", "");
    fake.publish("app", "", b"nameless", b"{}");
    let mut driver = Driver::settled("app", "", &mut fake);
    fake.files.remove(MARKER);
    driver.turn(&mut fake);
    driver.run_to_sleep(&mut fake);
    assert_eq!(fake.payload_fetches, 2);
    assert_eq!(fake.data(BINARY), Some(b"nameless".to_vec()));
    assert_eq!(fake.data(MARKER), Some(Vec::new()));
}

#[test]
fn unreadable_marker_counts_as_nothing_installed() {
    let mut fake = Fake::new();
    fake.point_at("app", "v5");
    fake.publish("app", "v5", b"five", b"{}");
    let mut driver = Driver::settled("app", "v5", &mut fake);
    fake.put(MARKER, &[0xff, 0xfe], false);
    driver.turn(&mut fake);
    driver.run_to_sleep(&mut fake);
    assert_eq!(fake.payload_fetches, 2);
    assert_eq!(fake.data(MARKER), Some(b"v5".to_vec()));
}

#[test]
fn failed_install_keeps_the_marker_at_every_stage() {
    for stage in 0..6 {
        let mut fake = Fake::new();
        fake.point_at("app", "v5");
        fake.publish("app", "v5", b"binary five", b"config five");
        fake.put(PID, b"4321", false);
        fake.processes.push(4321);
        let mut driver = Driver::settled("app", "v4", &mut fake);
        fake.fail_file_operation = Some(stage);
        driver.turn(&mut fake);
        driver.run_to_sleep(&mut fake);
        assert_eq!(driver.reports, vec![UpdateError::InstallFailed], "stage {}", stage);
        assert_eq!(fake.data(MARKER), Some(b"v4".to_vec()), "stage {}", stage);
        assert_eq!(fake.file_operations, stage + 1);
        assert!(fake.signals.is_empty());
        assert!(!fake.performed.iter().any(|a| matches!(a, Action::ReadPid { .. })));
        if stage <= 3 {
            assert_eq!(fake.data(BINARY), Some(b"old binary".to_vec()));
        } else {
            assert_eq!(fake.data(BINARY), Some(b"binary five".to_vec()));
            assert!(fake.executable(BINARY));
        }
        fake.fail_file_operation = None;
        driver.turn(&mut fake);
        driver.run_to_sleep(&mut fake);
        assert_eq!(fake.data(MARKER), Some(b"v5".to_vec()), "stage {}", stage);
        assert_eq!(fake.data(BINARY), Some(b"binary five".to_vec()));
        assert_eq!(fake.data(CONFIG), Some(b"config five".to_vec()));
        assert!(!fake.files.contains_key(NEW_BINARY));
        assert!(!fake.files.contains_key(NEW_CONFIG));
        assert_eq!(fake.signals, vec![4321]);
    }
}

#[test]
fn absent_pid_file_is_no_error() {
    let mut fake = Fake::new();
    fake.point_at("app", "v5");
    fake.publish("app", "v5", b"five", b"{}");
    let mut driver = Driver::settled("app", "v4", &mut fake);
    driver.turn(&mut fake);
    driver.run_to_sleep(&mut fake);
    assert!(driver.reports.is_empty());
    assert!(fake.signals.is_empty());
    assert!(!fake.performed.iter().any(|a| matches!(a, Action::Signal { .. })));
    assert_eq!(fake.performed.last(), Some(&Action::ReadPid { path: PID.to_string() }));
    assert_eq!(fake.data(MARKER), Some(b"v5".to_vec()));
}

#[test]
fn non_numeric_pid_is_invalid_and_keeps_the_install() {
    for contents in [&b"not a pid"[..], &b""[..], &b"12x"[..], &[0xff, 0x00][..]] {
        let mut fake = Fake::new();
        fake.point_at("app", "v5");
        fake.publish("app", "v5", b"five", b"cfg");
        fake.put(PID, contents, false);
        let mut driver = Driver::settled("app", "v4", &mut fake);
        driver.turn(&mut fake);
        driver.run_to_sleep(&mut fake);
        assert_eq!(driver.reports, vec![UpdateError::InvalidPid]);
        assert!(!fake.performed.iter().any(|a| matches!(a, Action::Signal { .. })));
        assert_eq!(fake.data(MARKER), Some(b"v5".to_vec()));
        assert_eq!(fake.data(BINARY), Some(b"five".to_vec()));
        assert!(fake.executable(BINARY));
        assert_eq!(fake.data(CONFIG), Some(b"cfg".to_vec()));
    }
}

#[test]
fn undelivered_signal_is_reported_and_keeps_the_install() {
    let mut fake = Fake::new();
    fake.point_at("app", "v5");
    fake.publish("app", "v5", b"five", b"cfg");
    fake.put(PID, b"999", false);
    let mut driver = Driver::settled("app", "v4", &mut fake);
    driver.turn(&mut fake);
    driver.run_to_sleep(&mut fake);
    assert_eq!(driver.reports, vec![UpdateError::SignalDeliveryFailed]);
    assert!(fake.performed.contains(&Action::Signal { pid: 999 }));
    assert_eq!(fake.data(MARKER), Some(b"v5".to_vec()));
    assert_eq!(fake.data(BINARY), Some(b"five".to_vec()));
}

#[test]
fn missing_pointer_is_reported_and_polling_goes_on() {
    let mut fake = Fake::new();
    let mut driver = Driver::settled("app", "v4", &mut fake);
    driver.turn(&mut fake);
    driver.run_to_sleep(&mut fake);
    assert_eq!(driver.reports, vec![UpdateError::ObjectMissing]);
    assert_eq!(fake.performed, vec![
        Action::Sleep { seconds: 3 },
        Action::FetchPointer { key: String::from("app/latest.txt") },
    ]);
    fake.point_at("app", "v4");
    driver.turn(&mut fake);
    driver.run_to_sleep(&mut fake);
    assert_eq!(driver.reports, vec![UpdateError::ObjectMissing]);
}

#[test]
fn pointer_that_is_no_text_is_reported_as_missing() {
    let mut fake = Fake::new();
    let mut driver = Driver::settled("app", "v4", &mut fake);
    fake.store.insert(String::from("app/latest.txt"), vec![b'v', 0xff, b'5']);
    driver.turn(&mut fake);
    driver.run_to_sleep(&mut fake);
    assert_eq!(driver.reports, vec![UpdateError::ObjectMissing]);
    assert_eq!(fake.payload_fetches, 0);
    assert_eq!(fake.file_operations, 0);
    assert_eq!(fake.data(MARKER), Some(b"v4".to_vec()));
}

#[test]
fn unreadable_pid_file_is_invalid_and_keeps_the_install() {
    let mut fake = Fake::new();
    fake.point_at("app", "v5");
    fake.publish("app", "v5", b"five", b"cfg");
    fake.put(PID, b"4321", false);
    fake.processes.push(4321);
    fake.pid_file_locked = true;
    let mut driver = Driver::settled("app", "v4", &mut fake);
    driver.turn(&mut fake);
    driver.run_to_sleep(&mut fake);
    assert_eq!(driver.reports, vec![UpdateError::InvalidPid]);
    assert!(fake.signals.is_empty());
    assert_eq!(fake.data(MARKER), Some(b"v5".to_vec()));
    assert_eq!(fake.data(BINARY), Some(b"five".to_vec()));
}

#[test]
fn unreachable_store_is_reported() {
    let mut fake = Fake::new();
    fake.point_at("app", "v5");
    let mut driver = Driver::settled("app", "v4", &mut fake);
    fake.store_down = true;
    driver.turn(&mut fake);
    driver.run_to_sleep(&mut fake);
    assert_eq!(driver.reports, vec![UpdateError::RemoteUnavailable]);
    assert_eq!(fake.file_operations, 0);
}

#[test]
fn missing_config_object_fails_the_whole_fetch() {
    let mut fake = Fake::new();
    fake.point_at("app", "v5");
    fake.store.insert(String::from("app/executables/v5/cmd"), b"five".to_vec());
    let mut driver = Driver::settled("app", "v4", &mut fake);
    driver.turn(&mut fake);
    driver.run_to_sleep(&mut fake);
    assert_eq!(driver.reports, vec![UpdateError::ObjectMissing]);
    assert_eq!(fake.payload_fetches, 2);
    assert_eq!(fake.file_operations, 0);
    assert_eq!(fake.data(BINARY), Some(b"old binary".to_vec()));
    assert_eq!(fake.data(MARKER), Some(b"v4".to_vec()));
    assert!(!fake.files.contains_key(NEW_BINARY));
}

#[test]
fn missing_binary_object_fails_the_whole_fetch() {
    let mut fake = Fake::new();
    fake.point_at("app", "v5");
    fake.store.insert(String::from("app/executables/v5/config.json"), b"{}".to_vec());
    let mut driver = Driver::settled("app", "v4", &mut fake);
    driver.turn(&mut fake);
    driver.run_to_sleep(&mut fake);
    assert_eq!(driver.reports, vec![UpdateError::ObjectMissing]);
    assert_eq!(fake.payload_fetches, 1);
    assert_eq!(fake.file_operations, 0);
}

#[test]
fn failed_bootstrap_is_reported_and_healed_by_the_next_poll() {
    let mut fake = Fake::new();
    fake.point_at("app", "v3");
    fake.publish("app", "v3", b"three", b"{}");
    fake.fail_file_operation = Some(3);
    let mut driver = Driver::start("app");
    driver.run_to_sleep(&mut fake);
    assert_eq!(driver.reports, vec![UpdateError::InstallFailed]);
    assert_eq!(driver.mode(), Mode::Resting);
    assert!(!fake.files.contains_key(MARKER));
    assert!(!fake.files.contains_key(BINARY));
    fake.fail_file_operation = None;
    driver.turn(&mut fake);
    driver.run_to_sleep(&mut fake);
    assert_eq!(fake.data(MARKER), Some(b"v3".to_vec()));
    assert_eq!(fake.data(BINARY), Some(b"three".to_vec()));
    assert!(fake.executable(BINARY));
    assert_eq!(driver.reports, vec![UpdateError::InstallFailed]);
}

#[test]
fn event_that_answers_nothing_is_refused() {
    let mut driver = Driver::start("app");
    assert_eq!(driver.feed(Event::Woke), None);
    assert_eq!(driver.feed(Event::Done { ok: true }), None);
    assert_eq!(driver.feed(Event::Fetched(Ok(b"v1".to_vec()))), None);
    assert_eq!(driver.mode(), Mode::Starting);
    let step = driver.feed(Event::Probed { exists: true }).unwrap();
    assert_eq!(step.action, Action::FetchPointer { key: String::from("app/latest.txt") });
    assert_eq!(driver.feed(Event::Probed { exists: true }), None);
    assert_eq!(driver.feed(Event::Signalled { ok: true }), None);
    assert_eq!(driver.feed(Event::Pid(PidFile::Absent)), None);
    assert_eq!(driver.feed(Event::Marker(None)), None);
    assert_eq!(driver.mode(), Mode::Polling);
    let step = driver.feed(Event::Fetched(Ok(b"v1".to_vec()))).unwrap();
    assert_eq!(step.action, Action::ReadMarker { path: MARKER.to_string() });
    assert_eq!(driver.feed(Event::Fetched(Ok(vec![1]))), None);
    assert_eq!(driver.feed(Event::Woke), None);
    assert_eq!(driver.mode(), Mode::Polling);
}

#[test]
fn sleep_lasts_the_poll_interval() {
    assert_eq!(POLL_INTERVAL_SECONDS, 3);
    let mut driver = Driver::start("app");
    driver.feed(Event::Probed { exists: true });
    let step = driver.feed(Event::Fetched(Err(StoreFailure::Unavailable))).unwrap();
    assert_eq!(
        step,
        Step { action: Action::Sleep { seconds: 3 }, report: Some(UpdateError::RemoteUnavailable) }
    );
}

#[test]
fn mode_follows_the_cycle() {
    let mut driver = Driver::start("app");
    assert_eq!(driver.mode(), Mode::Starting);
    driver.feed(Event::Probed { exists: true });
    assert_eq!(driver.mode(), Mode::Polling);
    driver.feed(Event::Fetched(Ok(b"v2".to_vec())));
    assert_eq!(driver.mode(), Mode::Polling);
    driver.feed(Event::Marker(Some(b"v1".to_vec())));
    assert_eq!(driver.mode(), Mode::Updating);
    driver.feed(Event::Fetched(Ok(vec![1, 2])));
    driver.feed(Event::Fetched(Ok(vec![3])));
    for _ in 0..6 {
        assert_eq!(driver.mode(), Mode::Updating);
        driver.feed(Event::Done { ok: true });
    }
    assert_eq!(driver.pending, Action::ReadPid { path: PID.to_string() });
    assert_eq!(driver.mode(), Mode::Updating);
    driver.feed(Event::Pid(PidFile::Contents(b"31".to_vec())));
    assert_eq!(driver.pending, Action::Signal { pid: 31 });
    assert_eq!(driver.mode(), Mode::Updating);
    driver.feed(Event::Signalled { ok: true });
    assert_eq!(driver.mode(), Mode::Resting);
    driver.feed(Event::Woke);
    assert_eq!(driver.mode(), Mode::Polling);
}
