//! The update state machine.
//!
//! A supervisor starts by looking for the live binary. Where there is none it
//! bootstraps: it resolves the latest version, fetches binary and
//! configuration, and installs them, telling nobody. From then on it polls:
//! it resolves the latest version and compares it with the installed one;
//! where they differ it fetches, installs and notifies the supervised
//! process; then it sleeps and polls again. A failure ends the cycle it
//! occurs in, is reported, and leaves the rest to the next poll.
//!
//! An install writes the binary to its staging path, makes it executable,
//! writes the configuration to its staging path, renames both into place and
//! only then records the version in the marker.
use crate::error::UpdateError;
use crate::install::EXECUTABLE_MODE;
use crate::layout::{InstallationState, Paths};
use crate::notify::{notification, notification_of};
use crate::protocol::{Action, ActionView, Event, EventView, Step, StepView};
use crate::store::{
    binary_key, binary_key_of, config_key, config_key_of, latest_key, latest_key_of,
};
use crate::version::{latest_of, up_to_date, Version};
use vstd::prelude::*;
use vstd::utf8::encode_utf8;

verus! {

/// How long the supervisor sleeps between two polls, in seconds.
pub const POLL_INTERVAL_SECONDS: u64 = 3;

/// What an update is about: which version, and whether it is the first
/// install, after which nobody is notified.
pub struct JobView {
    pub bootstrap: bool,
    pub latest: Seq<char>,
}

/// Where in its cycle a supervisor is: the answer it is waiting for.
pub enum PhaseView {
    /// Waiting to learn whether a live binary exists.
    Probing,
    /// Waiting for the contents of the version pointer.
    Resolving { bootstrap: bool },
    /// Waiting for the contents of the version marker.
    Comparing { latest: Seq<char> },
    /// Waiting for the binary.
    FetchingBinary { job: JobView },
    /// Holding the binary, waiting for the configuration.
    FetchingConfig { job: JobView, binary: Seq<u8> },
    /// Waiting for the binary to be written to its staging path.
    StagingBinary { job: JobView, config: Seq<u8> },
    /// Waiting for the staged binary to be made executable.
    MarkingExecutable { job: JobView, config: Seq<u8> },
    /// Waiting for the configuration to be written to its staging path.
    StagingConfig { job: JobView },
    /// Waiting for the staged binary to be renamed into place.
    PromotingBinary { job: JobView },
    /// Waiting for the staged configuration to be renamed into place.
    PromotingConfig { job: JobView },
    /// Waiting for the marker to be written.
    Recording { job: JobView },
    /// Waiting for the contents of the process-id file.
    ReadingPid,
    /// Waiting for the signal to be delivered.
    Signalling,
    /// Waiting for the poll interval to pass.
    Sleeping,
}

/// The activity that a phase belongs to.
#[derive(Clone, Copy, Debug, PartialEq, Eq, Structural)]
pub enum Mode {
    /// Finding out whether anything is installed.
    Starting,
    /// Installing for the first time.
    Bootstrapping,
    /// Comparing the latest version with the installed one.
    Polling,
    /// Fetching, installing and announcing a new version.
    Updating,
    /// Between two cycles.
    Resting,
}

impl PhaseView {
    /// The update that this phase works on, if it works on one.
    pub open spec fn job(self) -> Option<JobView> {
        match self {
            PhaseView::FetchingBinary { job } => Some(job),
            PhaseView::FetchingConfig { job, .. } => Some(job),
            PhaseView::StagingBinary { job, .. } => Some(job),
            PhaseView::MarkingExecutable { job, .. } => Some(job),
            PhaseView::StagingConfig { job } => Some(job),
            PhaseView::PromotingBinary { job } => Some(job),
            PhaseView::PromotingConfig { job } => Some(job),
            PhaseView::Recording { job } => Some(job),
            _ => None,
        }
    }

    /// The activity that this phase belongs to.
    pub open spec fn mode(self) -> Mode {
        match self {
            PhaseView::Probing => Mode::Starting,
            PhaseView::Resolving { bootstrap } => if bootstrap {
                Mode::Bootstrapping
            } else {
                Mode::Polling
            },
            PhaseView::Comparing { .. } => Mode::Polling,
            PhaseView::ReadingPid => Mode::Updating,
            PhaseView::Signalling => Mode::Updating,
            PhaseView::Sleeping => Mode::Resting,
            _ => if self.job()->0.bootstrap {
                Mode::Bootstrapping
            } else {
                Mode::Updating
            },
        }
    }
}

/// A supervisor as a mathematical value.
pub struct SupervisorView {
    /// The name of the application in the store.
    pub app: Seq<char>,
    /// The paths of the installation.
    pub paths: Paths,
    /// What the supervisor is waiting for.
    pub phase: PhaseView,
}

impl SupervisorView {
    /// This supervisor in another phase.
    pub open spec fn at(self, phase: PhaseView) -> SupervisorView {
        SupervisorView { phase, ..self }
    }

    /// Moves to `phase` and asks for `action`.
    pub open spec fn proceed(self, phase: PhaseView, action: ActionView) -> Option<
        (SupervisorView, StepView),
    > {
        Some((self.at(phase), StepView { action, report: None }))
    }

    /// Ends the cycle: reports `report`, if any, and sleeps.
    pub open spec fn rest(self, report: Option<UpdateError>) -> Option<
        (SupervisorView, StepView),
    > {
        Some(
            (
                self.at(PhaseView::Sleeping),
                StepView { action: ActionView::Sleep { seconds: POLL_INTERVAL_SECONDS }, report },
            ),
        )
    }

    /// Begins resolving the latest version, for a bootstrap or for a poll.
    pub open spec fn resolve(self, bootstrap: bool) -> Option<(SupervisorView, StepView)> {
        self.proceed(
            PhaseView::Resolving { bootstrap },
            ActionView::FetchPointer { key: latest_key_of(self.app) },
        )
    }

    /// Begins fetching what `job` needs, the binary first.
    pub open spec fn fetch(self, job: JobView) -> Option<(SupervisorView, StepView)> {
        self.proceed(
            PhaseView::FetchingBinary { job },
            ActionView::FetchPayload { key: binary_key_of(self.app, job.latest) },
        )
    }

    /// Whether `action` is the request whose answer this supervisor is
    /// waiting for.
    pub open spec fn awaits(self, action: ActionView) -> bool {
        match self.phase {
            PhaseView::Probing => action == (ActionView::ProbeBinary {
                path: self.paths.live_binary,
            }),
            PhaseView::Resolving { .. } => action == (ActionView::FetchPointer {
                key: latest_key_of(self.app),
            }),
            PhaseView::Comparing { .. } => action == (ActionView::ReadMarker {
                path: self.paths.marker,
            }),
            PhaseView::FetchingBinary { job } => action == (ActionView::FetchPayload {
                key: binary_key_of(self.app, job.latest),
            }),
            PhaseView::FetchingConfig { job, .. } => action == (ActionView::FetchPayload {
                key: config_key_of(self.app, job.latest),
            }),
            PhaseView::StagingBinary { .. } => action matches ActionView::WriteFile { path, .. }
                && path == self.paths.staging_binary,
            PhaseView::MarkingExecutable { .. } => action == (ActionView::SetMode {
                path: self.paths.staging_binary,
                mode: EXECUTABLE_MODE,
            }),
            PhaseView::StagingConfig { .. } => action matches ActionView::WriteFile { path, .. }
                && path == self.paths.staging_config,
            PhaseView::PromotingBinary { .. } => action == (ActionView::Rename {
                from: self.paths.staging_binary,
                to: self.paths.live_binary,
            }),
            PhaseView::PromotingConfig { .. } => action == (ActionView::Rename {
                from: self.paths.staging_config,
                to: self.paths.live_config,
            }),
            PhaseView::Recording { job } => action == (ActionView::WriteFile {
                path: self.paths.marker,
                data: encode_utf8(job.latest),
            }),
            PhaseView::ReadingPid => action == (ActionView::ReadPid { path: self.paths.pid_file }),
            PhaseView::Signalling => action is Signal,
            PhaseView::Sleeping => action == (ActionView::Sleep { seconds: POLL_INTERVAL_SECONDS }),
        }
    }

    /// The supervisor's answer to `event`: its next state and what it wants
    /// done next. `None` where `event` does not answer what the supervisor is
    /// waiting for.
    pub open spec fn advance(self, event: EventView) -> Option<(SupervisorView, StepView)> {
        match (self.phase, event) {
            (PhaseView::Probing, EventView::Probed { exists }) => self.resolve(!exists),
            (PhaseView::Resolving { bootstrap }, EventView::Fetched(Ok(pointer))) => {
                match latest_of(pointer) {
                    Some(latest) => if bootstrap {
                        self.fetch(JobView { bootstrap, latest })
                    } else {
                        self.proceed(
                            PhaseView::Comparing { latest },
                            ActionView::ReadMarker { path: self.paths.marker },
                        )
                    },
                    None => self.rest(Some(UpdateError::ObjectMissing)),
                }
            },
            (PhaseView::Resolving { .. }, EventView::Fetched(Err(failure))) => self.rest(
                Some(failure.as_error()),
            ),
            (PhaseView::Comparing { latest }, EventView::Marker(marker)) => {
                if up_to_date(latest, marker) {
                    self.rest(None)
                } else {
                    self.fetch(JobView { bootstrap: false, latest })
                }
            },
            (PhaseView::FetchingBinary { job }, EventView::Fetched(Ok(binary))) => self.proceed(
                PhaseView::FetchingConfig { job, binary },
                ActionView::FetchPayload { key: config_key_of(self.app, job.latest) },
            ),
            (PhaseView::FetchingBinary { .. }, EventView::Fetched(Err(failure))) => self.rest(
                Some(failure.as_error()),
            ),
            (PhaseView::FetchingConfig { job, binary }, EventView::Fetched(Ok(config))) => {
                self.proceed(
                    PhaseView::StagingBinary { job, config },
                    ActionView::WriteFile { path: self.paths.staging_binary, data: binary },
                )
            },
            (PhaseView::FetchingConfig { .. }, EventView::Fetched(Err(failure))) => self.rest(
                Some(failure.as_error()),
            ),
            (PhaseView::StagingBinary { job, config }, EventView::Done { ok }) => if ok {
                self.proceed(
                    PhaseView::MarkingExecutable { job, config },
                    ActionView::SetMode { path: self.paths.staging_binary, mode: EXECUTABLE_MODE },
                )
            } else {
                self.rest(Some(UpdateError::InstallFailed))
            },
            (PhaseView::MarkingExecutable { job, config }, EventView::Done { ok }) => if ok {
                self.proceed(
                    PhaseView::StagingConfig { job },
                    ActionView::WriteFile { path: self.paths.staging_config, data: config },
                )
            } else {
                self.rest(Some(UpdateError::InstallFailed))
            },
            (PhaseView::StagingConfig { job }, EventView::Done { ok }) => if ok {
                self.proceed(
                    PhaseView::PromotingBinary { job },
                    ActionView::Rename {
                        from: self.paths.staging_binary,
                        to: self.paths.live_binary,
                    },
                )
            } else {
                self.rest(Some(UpdateError::InstallFailed))
            },
            (PhaseView::PromotingBinary { job }, EventView::Done { ok }) => if ok {
                self.proceed(
                    PhaseView::PromotingConfig { job },
                    ActionView::Rename {
                        from: self.paths.staging_config,
                        to: self.paths.live_config,
                    },
                )
            } else {
                self.rest(Some(UpdateError::InstallFailed))
            },
            (PhaseView::PromotingConfig { job }, EventView::Done { ok }) => if ok {
                self.proceed(
                    PhaseView::Recording { job },
                    ActionView::WriteFile {
                        path: self.paths.marker,
                        data: encode_utf8(job.latest),
                    },
                )
            } else {
                self.rest(Some(UpdateError::InstallFailed))
            },
            (PhaseView::Recording { job }, EventView::Done { ok }) => if !ok {
                self.rest(Some(UpdateError::InstallFailed))
            } else if job.bootstrap {
                self.resolve(false)
            } else {
                self.proceed(
                    PhaseView::ReadingPid,
                    ActionView::ReadPid { path: self.paths.pid_file },
                )
            },
            (PhaseView::ReadingPid, EventView::Pid(found)) => match notification_of(found) {
                Ok(Some(pid)) => self.proceed(PhaseView::Signalling, ActionView::Signal { pid }),
                Ok(None) => self.rest(None),
                Err(error) => self.rest(Some(error)),
            },
            (PhaseView::Signalling, EventView::Signalled { ok }) => if ok {
                self.rest(None)
            } else {
                self.rest(Some(UpdateError::SignalDeliveryFailed))
            },
            (PhaseView::Sleeping, EventView::Woke) => self.resolve(false),
            _ => None,
        }
    }
}

/// Whatever a supervisor answers, it stays with its application and its
/// installation, and what it asks for is what its next phase waits for.
pub proof fn lemma_advance_awaits(supervisor: SupervisorView, event: EventView)
    ensures
        match supervisor.advance(event) {
            Some((next, step)) => next.app == supervisor.app && next.paths == supervisor.paths
                && next.awaits(step.action),
            None => true,
        },
{
}

struct Job {
    bootstrap: bool,
    latest: Version,
}

impl View for Job {
    type V = JobView;

    closed spec fn view(&self) -> JobView {
        JobView { bootstrap: self.bootstrap, latest: self.latest@ }
    }
}

enum Phase {
    Probing,
    Resolving { bootstrap: bool },
    Comparing { latest: Version },
    FetchingBinary { job: Job },
    FetchingConfig { job: Job, binary: Vec<u8> },
    StagingBinary { job: Job, config: Vec<u8> },
    MarkingExecutable { job: Job, config: Vec<u8> },
    StagingConfig { job: Job },
    PromotingBinary { job: Job },
    PromotingConfig { job: Job },
    Recording { job: Job },
    ReadingPid,
    Signalling,
    Sleeping,
}

impl View for Phase {
    type V = PhaseView;

    closed spec fn view(&self) -> PhaseView {
        match self {
            Phase::Probing => PhaseView::Probing,
            Phase::Resolving { bootstrap } => PhaseView::Resolving { bootstrap: *bootstrap },
            Phase::Comparing { latest } => PhaseView::Comparing { latest: latest@ },
            Phase::FetchingBinary { job } => PhaseView::FetchingBinary { job: job@ },
            Phase::FetchingConfig { job, binary } => PhaseView::FetchingConfig {
                job: job@,
                binary: binary@,
            },
            Phase::StagingBinary { job, config } => PhaseView::StagingBinary {
                job: job@,
                config: config@,
            },
            Phase::MarkingExecutable { job, config } => PhaseView::MarkingExecutable {
                job: job@,
                config: config@,
            },
            Phase::StagingConfig { job } => PhaseView::StagingConfig { job: job@ },
            Phase::PromotingBinary { job } => PhaseView::PromotingBinary { job: job@ },
            Phase::PromotingConfig { job } => PhaseView::PromotingConfig { job: job@ },
            Phase::Recording { job } => PhaseView::Recording { job: job@ },
            Phase::ReadingPid => PhaseView::ReadingPid,
            Phase::Signalling => PhaseView::Signalling,
            Phase::Sleeping => PhaseView::Sleeping,
        }
    }
}

/// The supervisor of one application in one installation directory.
pub struct Supervisor {
    app: String,
    layout: InstallationState,
    phase: Phase,
}

impl View for Supervisor {
    type V = SupervisorView;

    closed spec fn view(&self) -> SupervisorView {
        SupervisorView { app: self.app@, paths: self.layout@, phase: self.phase@ }
    }
}

fn go(action: Action) -> (step: Option<Step>)
    ensures
        step matches Some(s) && s@ == (StepView { action: action@, report: None }),
{
    Some(Step { action, report: None })
}

fn rest(report: Option<UpdateError>) -> (r: (Phase, Option<Step>))
    ensures
        r.0@ == PhaseView::Sleeping,
        r.1 matches Some(s) && s@ == (StepView {
            action: ActionView::Sleep { seconds: POLL_INTERVAL_SECONDS },
            report,
        }),
{
    (Phase::Sleeping, Some(Step { action: Action::Sleep { seconds: POLL_INTERVAL_SECONDS }, report }))
}

fn failed() -> (r: (Phase, Option<Step>))
    ensures
        r.0@ == PhaseView::Sleeping,
        r.1 matches Some(s) && s@ == (StepView {
            action: ActionView::Sleep { seconds: POLL_INTERVAL_SECONDS },
            report: Some(UpdateError::InstallFailed),
        }),
{
    rest(Some(UpdateError::InstallFailed))
}

impl Supervisor {
    /// A supervisor for the application named `app`, in the installation
    /// `layout`, and its first request: to look for the live binary. Without
    /// an application name there is no supervisor.
    pub fn start(app: Option<String>, layout: InstallationState) -> (r: Result<
        (Supervisor, Step),
        UpdateError,
    >)
        ensures
            match app {
                Some(name) => r matches Ok((supervisor, step)) && supervisor@ == (SupervisorView {
                    app: name@,
                    paths: layout@,
                    phase: PhaseView::Probing,
                }) && step@ == (StepView {
                    action: ActionView::ProbeBinary { path: layout@.live_binary },
                    report: None,
                }) && supervisor@.paths.distinct(),
                None => r == Err::<(Supervisor, Step), UpdateError>(UpdateError::ConfigMissing),
            },
    {
        match app {
            Some(name) => {
                proof {
                    use_type_invariant(&layout);
                    crate::layout::lemma_paths_under_distinct(layout.dir());
                }
                let action = Action::ProbeBinary { path: layout.live_binary().to_owned() };
                Ok((Supervisor { app: name, layout, phase: Phase::Probing }, Step { action, report: None }))
            },
            None => Err(UpdateError::ConfigMissing),
        }
    }

    /// The installation that this supervisor keeps up to date.
    pub fn layout(&self) -> (layout: &InstallationState)
        ensures
            layout@ == self@.paths,
            self@.paths.distinct(),
    {
        proof {
            use_type_invariant(&self.layout);
            crate::layout::lemma_paths_under_distinct(self.layout.dir());
        }
        &self.layout
    }

    /// The name of the application in the store.
    pub fn app(&self) -> (name: &str)
        ensures
            name@ == self@.app,
    {
        self.app.as_str()
    }

    /// The activity that the supervisor is in.
    pub fn mode(&self) -> (mode: Mode)
        ensures
            mode == self@.phase.mode(),
    {
        match &self.phase {
            Phase::Probing => Mode::Starting,
            Phase::Resolving { bootstrap } => if *bootstrap {
                Mode::Bootstrapping
            } else {
                Mode::Polling
            },
            Phase::Comparing { .. } => Mode::Polling,
            Phase::FetchingBinary { job } => job_mode(job),
            Phase::FetchingConfig { job, .. } => job_mode(job),
            Phase::StagingBinary { job, .. } => job_mode(job),
            Phase::MarkingExecutable { job, .. } => job_mode(job),
            Phase::StagingConfig { job } => job_mode(job),
            Phase::PromotingBinary { job } => job_mode(job),
            Phase::PromotingConfig { job } => job_mode(job),
            Phase::Recording { job } => job_mode(job),
            Phase::ReadingPid => Mode::Updating,
            Phase::Signalling => Mode::Updating,
            Phase::Sleeping => Mode::Resting,
        }
    }

    /// Takes the answer to the supervisor's last request and gives the
    /// supervisor's next state and request. An event that does not answer
    /// the last request changes nothing and gets no request.
    pub fn step(self, event: Event) -> (r: (Supervisor, Option<Step>))
        ensures
            match self@.advance(event@) {
                Some((next, step)) => r.0@ == next && (r.1 matches Some(s) && s@ == step),
                None => r.0@ == self@ && r.1 is None,
            },
            r.0@.paths.distinct(),
    {
        let Supervisor { app, layout, phase } = self;
        proof {
            use_type_invariant(&layout);
            crate::layout::lemma_paths_under_distinct(layout.dir());
        }
        let (phase, step) = match (phase, event) {
            (Phase::Probing, Event::Probed { exists }) => (
                Phase::Resolving { bootstrap: !exists },
                go(Action::FetchPointer { key: latest_key(app.as_str()) }),
            ),
            (Phase::Resolving { bootstrap }, Event::Fetched(Ok(pointer))) => {
                match Version::latest(pointer) {
                    Some(latest) => if bootstrap {
                        let key = binary_key(app.as_str(), &latest);
                        (
                            Phase::FetchingBinary { job: Job { bootstrap, latest } },
                            go(Action::FetchPayload { key }),
                        )
                    } else {
                        (
                            Phase::Comparing { latest },
                            go(Action::ReadMarker { path: layout.marker().to_owned() }),
                        )
                    },
                    None => rest(Some(UpdateError::ObjectMissing)),
                }
            },
            (Phase::Resolving { .. }, Event::Fetched(Err(failure))) => rest(
                Some(failure.to_error()),
            ),
            (Phase::Comparing { latest }, Event::Marker(marker)) => {
                let installed = Version::installed(marker);
                if latest.is_installed(&installed) {
                    rest(None)
                } else {
                    let key = binary_key(app.as_str(), &latest);
                    (
                        Phase::FetchingBinary { job: Job { bootstrap: false, latest } },
                        go(Action::FetchPayload { key }),
                    )
                }
            },
            (Phase::FetchingBinary { job }, Event::Fetched(Ok(binary))) => {
                let key = config_key(app.as_str(), &job.latest);
                (Phase::FetchingConfig { job, binary }, go(Action::FetchPayload { key }))
            },
            (Phase::FetchingBinary { .. }, Event::Fetched(Err(failure))) => rest(
                Some(failure.to_error()),
            ),
            (Phase::FetchingConfig { job, binary }, Event::Fetched(Ok(config))) => (
                Phase::StagingBinary { job, config },
                go(Action::WriteFile { path: layout.staging_binary().to_owned(), data: binary }),
            ),
            (Phase::FetchingConfig { .. }, Event::Fetched(Err(failure))) => rest(
                Some(failure.to_error()),
            ),
            (Phase::StagingBinary { job, config }, Event::Done { ok }) => if ok {
                (
                    Phase::MarkingExecutable { job, config },
                    go(
                        Action::SetMode {
                            path: layout.staging_binary().to_owned(),
                            mode: EXECUTABLE_MODE,
                        },
                    ),
                )
            } else {
                failed()
            },
            (Phase::MarkingExecutable { job, config }, Event::Done { ok }) => if ok {
                (
                    Phase::StagingConfig { job },
                    go(Action::WriteFile { path: layout.staging_config().to_owned(), data: config }),
                )
            } else {
                failed()
            },
            (Phase::StagingConfig { job }, Event::Done { ok }) => if ok {
                (
                    Phase::PromotingBinary { job },
                    go(
                        Action::Rename {
                            from: layout.staging_binary().to_owned(),
                            to: layout.live_binary().to_owned(),
                        },
                    ),
                )
            } else {
                failed()
            },
            (Phase::PromotingBinary { job }, Event::Done { ok }) => if ok {
                (
                    Phase::PromotingConfig { job },
                    go(
                        Action::Rename {
                            from: layout.staging_config().to_owned(),
                            to: layout.live_config().to_owned(),
                        },
                    ),
                )
            } else {
                failed()
            },
            (Phase::PromotingConfig { job }, Event::Done { ok }) => if ok {
                let data = job.latest.to_bytes();
                (
                    Phase::Recording { job },
                    go(Action::WriteFile { path: layout.marker().to_owned(), data }),
                )
            } else {
                failed()
            },
            (Phase::Recording { job }, Event::Done { ok }) => if !ok {
                failed()
            } else if job.bootstrap {
                (
                    Phase::Resolving { bootstrap: false },
                    go(Action::FetchPointer { key: latest_key(app.as_str()) }),
                )
            } else {
                (Phase::ReadingPid, go(Action::ReadPid { path: layout.pid_file().to_owned() }))
            },
            (Phase::ReadingPid, Event::Pid(found)) => match notification(found) {
                Ok(Some(pid)) => (Phase::Signalling, go(Action::Signal { pid })),
                Ok(None) => rest(None),
                Err(error) => rest(Some(error)),
            },
            (Phase::Signalling, Event::Signalled { ok }) => if ok {
                rest(None)
            } else {
                rest(Some(UpdateError::SignalDeliveryFailed))
            },
            (Phase::Sleeping, Event::Woke) => (
                Phase::Resolving { bootstrap: false },
                go(Action::FetchPointer { key: latest_key(app.as_str()) }),
            ),
            (phase, _) => (phase, None),
        };
        (Supervisor { app, layout, phase }, step)
    }
}

fn job_mode(job: &Job) -> (mode: Mode)
    ensures
        mode == (if job@.bootstrap {
            Mode::Bootstrapping
        } else {
            Mode::Updating
        }),
{
    if job.bootstrap {
        Mode::Bootstrapping
    } else {
        Mode::Updating
    }
}

} // verus!
