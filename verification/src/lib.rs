//! Decision logic of a self-updating process supervisor.
//!
//! The supervisor watches a remote store for a newer version of an
//! application, fetches binary and configuration, installs both beside the
//! running ones by staging and renaming, records the version, and tells the
//! running process to reload.
//!
//! Nothing here touches the network, the disk or a process. The
//! [`supervisor::Supervisor`] is a state machine: it issues one
//! [`protocol::Action`] at a time and is told with a [`protocol::Event`] how
//! it went. What it decides is fixed by [`supervisor::SupervisorView::advance`];
//! what follows from that for the files of an installation is proved in
//! [`laws`].
pub mod error;
pub mod install;
pub mod laws;
pub mod layout;
pub mod notify;
pub mod protocol;
pub mod store;
pub mod supervisor;
pub mod text;
pub mod version;
pub mod world;
