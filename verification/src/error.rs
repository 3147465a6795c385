//! What can go wrong in an update cycle or at startup.
use vstd::prelude::*;

verus! {

/// How a poll, fetch, install or notification failed.
#[derive(Clone, Copy, Debug, PartialEq, Eq, Structural)]
pub enum UpdateError {
    /// The store could not be reached or refused the request.
    RemoteUnavailable,
    /// The store holds no object under the key that was asked for.
    ObjectMissing,
    /// The process-id file does not hold a decimal process id.
    InvalidPid,
    /// The operating system did not deliver the reload signal.
    SignalDeliveryFailed,
    /// Staging, permission change, rename or marker write failed locally.
    InstallFailed,
    /// The application name was not supplied at startup.
    ConfigMissing,
}

/// Why the store did not hand out an object.
#[derive(Clone, Copy, Debug, PartialEq, Eq, Structural)]
pub enum StoreFailure {
    /// Network or authorization failure while talking to the store.
    Unavailable,
    /// The key does not exist.
    Missing,
}

impl StoreFailure {
    /// The update error that this store failure is reported as.
    pub open spec fn as_error(self) -> UpdateError {
        match self {
            StoreFailure::Unavailable => UpdateError::RemoteUnavailable,
            StoreFailure::Missing => UpdateError::ObjectMissing,
        }
    }

    /// The update error that this store failure is reported as.
    pub fn to_error(self) -> (e: UpdateError)
        ensures
            e == self.as_error(),
    {
        match self {
            StoreFailure::Unavailable => UpdateError::RemoteUnavailable,
            StoreFailure::Missing => UpdateError::ObjectMissing,
        }
    }
}

impl UpdateError {
    /// Whether the error ends the process: only a missing configuration does;
    /// every error of a cycle is reported and the loop goes on.
    pub open spec fn fatal(self) -> bool {
        self is ConfigMissing
    }

    /// Whether the error ends the process.
    pub fn is_fatal(self) -> (r: bool)
        ensures
            r == self.fatal(),
    {
        match self {
            UpdateError::ConfigMissing => true,
            _ => false,
        }
    }
}

} // verus!
