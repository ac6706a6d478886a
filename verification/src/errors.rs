//! The error type shared by every stage of a download.

use vstd::prelude::*;

verus! {

/// A download failure, carrying a human-readable message that names the
/// failing stage and its cause.
#[derive(Debug)]
pub struct DownloadError(pub String);

impl DownloadError {
    /// The message carried by this error.
    pub fn message(&self) -> (m: &String)
        ensures
            m@ == self.0@,
    {
        &self.0
    }
}

} // verus!
