//! Whom to tell that a new version is in place.
use crate::error::UpdateError;
use crate::protocol::{PidFile, PidFileView};
use crate::text::{decimal_i32, parse_i32, text_from_bytes, text_of, trim, trimmed};
use vstd::prelude::*;

verus! {

/// The process id that a file with contents `bytes` holds: the number that
/// its trimmed text denotes, if it is text and denotes one.
pub open spec fn pid_of(bytes: Seq<u8>) -> Option<i32> {
    match text_of(bytes) {
        Some(text) => decimal_i32(trimmed(text)),
        None => None,
    }
}

/// What a process-id file asks for: nothing where there is no file, a signal
/// to the process whose id the trimmed text denotes, or an error where the
/// file does not hold a process id.
pub open spec fn notification_of(found: PidFileView) -> Result<Option<i32>, UpdateError> {
    match found {
        PidFileView::Absent => Ok(None),
        PidFileView::Unreadable => Err(UpdateError::InvalidPid),
        PidFileView::Contents(bytes) => match pid_of(bytes) {
            Some(pid) => Ok(Some(pid)),
            None => Err(UpdateError::InvalidPid),
        },
    }
}

/// Reads a process id out of the contents of a file.
pub fn parse_pid(bytes: Vec<u8>) -> (r: Option<i32>)
    ensures
        r == pid_of(bytes@),
{
    match text_from_bytes(bytes) {
        Some(text) => parse_i32(trim(text.as_str())),
        None => None,
    }
}

/// Decides from the process-id file whom to signal, if anyone.
pub fn notification(found: PidFile) -> (r: Result<Option<i32>, UpdateError>)
    ensures
        r == notification_of(found@),
{
    match found {
        PidFile::Absent => Ok(None),
        PidFile::Unreadable => Err(UpdateError::InvalidPid),
        PidFile::Contents(bytes) => match parse_pid(bytes) {
            Some(pid) => Ok(Some(pid)),
            None => Err(UpdateError::InvalidPid),
        },
    }
}

} // verus!
