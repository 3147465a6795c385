//! What the supervisor asks of its surroundings, and what it is told back.
//!
//! The supervisor itself touches neither the network nor the disk. It issues
//! one [`Action`] at a time; whoever drives it performs the action and hands
//! back the [`Event`] that tells how it went.
use crate::error::{StoreFailure, UpdateError};
use vstd::prelude::*;

verus! {

/// One thing to do outside the supervisor.
#[derive(Clone, Debug, PartialEq, Eq)]
pub enum Action {
    /// Find out whether a file exists at `path`.
    ProbeBinary { path: String },
    /// Get the version pointer, the object at `key`, from the store.
    FetchPointer { key: String },
    /// Get a binary or a configuration, the object at `key`, from the store.
    FetchPayload { key: String },
    /// Read the version marker at `path`.
    ReadMarker { path: String },
    /// Create or overwrite the file at `path` with `data`.
    WriteFile { path: String, data: Vec<u8> },
    /// Set the permission bits of the file at `path` to `mode`.
    SetMode { path: String, mode: u32 },
    /// Move the file at `from` to `to` atomically, replacing what is there.
    Rename { from: String, to: String },
    /// Read the process-id file at `path`.
    ReadPid { path: String },
    /// Send the reload signal to process `pid`.
    Signal { pid: i32 },
    /// Wait for `seconds` seconds.
    Sleep { seconds: u64 },
}

/// An [`Action`] as a mathematical value.
pub enum ActionView {
    ProbeBinary { path: Seq<char> },
    FetchPointer { key: Seq<char> },
    FetchPayload { key: Seq<char> },
    ReadMarker { path: Seq<char> },
    WriteFile { path: Seq<char>, data: Seq<u8> },
    SetMode { path: Seq<char>, mode: u32 },
    Rename { from: Seq<char>, to: Seq<char> },
    ReadPid { path: Seq<char> },
    Signal { pid: i32 },
    Sleep { seconds: u64 },
}

impl View for Action {
    type V = ActionView;

    open spec fn view(&self) -> ActionView {
        match self {
            Action::ProbeBinary { path } => ActionView::ProbeBinary { path: path@ },
            Action::FetchPointer { key } => ActionView::FetchPointer { key: key@ },
            Action::FetchPayload { key } => ActionView::FetchPayload { key: key@ },
            Action::ReadMarker { path } => ActionView::ReadMarker { path: path@ },
            Action::WriteFile { path, data } => ActionView::WriteFile { path: path@, data: data@ },
            Action::SetMode { path, mode } => ActionView::SetMode { path: path@, mode: *mode },
            Action::Rename { from, to } => ActionView::Rename { from: from@, to: to@ },
            Action::ReadPid { path } => ActionView::ReadPid { path: path@ },
            Action::Signal { pid } => ActionView::Signal { pid: *pid },
            Action::Sleep { seconds } => ActionView::Sleep { seconds: *seconds },
        }
    }
}

/// What was found where the process id of the supervised process is kept.
#[derive(Clone, Debug, PartialEq, Eq)]
pub enum PidFile {
    /// There is no such file: nobody is there to be notified.
    Absent,
    /// The file exists but could not be read.
    Unreadable,
    /// The contents of the file.
    Contents(Vec<u8>),
}

/// A [`PidFile`] as a mathematical value.
pub enum PidFileView {
    Absent,
    Unreadable,
    Contents(Seq<u8>),
}

impl View for PidFile {
    type V = PidFileView;

    open spec fn view(&self) -> PidFileView {
        match self {
            PidFile::Absent => PidFileView::Absent,
            PidFile::Unreadable => PidFileView::Unreadable,
            PidFile::Contents(bytes) => PidFileView::Contents(bytes@),
        }
    }
}

/// How an [`Action`] went.
#[derive(Debug, PartialEq, Eq)]
pub enum Event {
    /// Answers `ProbeBinary`.
    Probed { exists: bool },
    /// Answers `FetchPointer` and `FetchPayload`: the contents of the object,
    /// or why there are none.
    Fetched(Result<Vec<u8>, StoreFailure>),
    /// Answers `ReadMarker`: the contents of the marker, or `None` where the
    /// marker is missing or cannot be read.
    Marker(Option<Vec<u8>>),
    /// Answers `WriteFile`, `SetMode` and `Rename`.
    Done { ok: bool },
    /// Answers `ReadPid`.
    Pid(PidFile),
    /// Answers `Signal`.
    Signalled { ok: bool },
    /// Answers `Sleep`.
    Woke,
}

/// An [`Event`] as a mathematical value.
pub enum EventView {
    Probed { exists: bool },
    Fetched(Result<Seq<u8>, StoreFailure>),
    Marker(Option<Seq<u8>>),
    Done { ok: bool },
    Pid(PidFileView),
    Signalled { ok: bool },
    Woke,
}

impl View for Event {
    type V = EventView;

    open spec fn view(&self) -> EventView {
        match self {
            Event::Probed { exists } => EventView::Probed { exists: *exists },
            Event::Fetched(Ok(bytes)) => EventView::Fetched(Ok(bytes@)),
            Event::Fetched(Err(failure)) => EventView::Fetched(Err(*failure)),
            Event::Marker(Some(bytes)) => EventView::Marker(Some(bytes@)),
            Event::Marker(None) => EventView::Marker(None),
            Event::Done { ok } => EventView::Done { ok: *ok },
            Event::Pid(found) => EventView::Pid(found@),
            Event::Signalled { ok } => EventView::Signalled { ok: *ok },
            Event::Woke => EventView::Woke,
        }
    }
}

/// What the supervisor wants next: an action to perform, and the error to
/// report, if the step before it failed.
#[derive(Clone, Debug, PartialEq, Eq)]
pub struct Step {
    pub action: Action,
    pub report: Option<UpdateError>,
}

/// A [`Step`] as a mathematical value.
pub struct StepView {
    pub action: ActionView,
    pub report: Option<UpdateError>,
}

impl View for Step {
    type V = StepView;

    open spec fn view(&self) -> StepView {
        StepView { action: self.action@, report: self.report }
    }
}

} // verus!
