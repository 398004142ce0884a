//! The ways a download can fail.

use crate::text::{decimal, decimal_digits};
use vstd::prelude::*;
use vstd::string::StringExecFns;

verus! {

/// Why a job, or one range of it, failed.
#[derive(Clone, Copy, Debug, PartialEq, Eq, Structural)]
pub enum DownloadError {
    /// There is no worker, or there are more workers than bytes.
    InvalidInput,
    /// The server did not report the length of the resource.
    LengthUnknown,
    /// The server answered a ranged request with the whole resource.
    RangeUnsupported,
    /// The server answered with a status that the request does not allow for.
    UnexpectedStatus { code: u16 },
    /// The cancellation flag was seen set.
    Interrupted,
    /// A file or a stream could not be read or written.
    Io,
    /// A worker did not run to its end.
    TaskFailure,
    /// The file is there, and neither overwriting nor resuming was asked for.
    FileExists,
    /// The server has nothing beyond the bytes that are there.
    AlreadyComplete,
    /// The server answered a request to resume with the whole resource.
    ResumeUnsupported,
}

impl DownloadError {
    /// The error in words.
    pub open spec fn text(self) -> Seq<char> {
        match self {
            DownloadError::InvalidInput => "Invalid worker count or size"@,
            DownloadError::LengthUnknown => "Content length not available"@,
            DownloadError::RangeUnsupported =>
                "Server doesn't support the `range` header, cannot download chunks."@,
            DownloadError::UnexpectedStatus { code } => "Unexpected status: "@ + decimal_digits(
                code as nat,
            ),
            DownloadError::Interrupted => "Download interrupted."@,
            DownloadError::Io => "I/O error"@,
            DownloadError::TaskFailure => "Task failed"@,
            DownloadError::FileExists => "File exists"@,
            DownloadError::AlreadyComplete => "File already complete"@,
            DownloadError::ResumeUnsupported => "Cannot resume."@,
        }
    }

    /// Writes the error in words.
    pub fn message(&self) -> (out: String)
        ensures
            out@ == self.text(),
    {
        match self {
            DownloadError::InvalidInput => String::from_str("Invalid worker count or size"),
            DownloadError::LengthUnknown => String::from_str("Content length not available"),
            DownloadError::RangeUnsupported => String::from_str(
                "Server doesn't support the `range` header, cannot download chunks.",
            ),
            DownloadError::UnexpectedStatus { code } => {
                let mut out = String::from_str("Unexpected status: ");
                out.append(decimal(*code as u64).as_str());
                out
            },
            DownloadError::Interrupted => String::from_str("Download interrupted."),
            DownloadError::Io => String::from_str("I/O error"),
            DownloadError::TaskFailure => String::from_str("Task failed"),
            DownloadError::FileExists => String::from_str("File exists"),
            DownloadError::AlreadyComplete => String::from_str("File already complete"),
            DownloadError::ResumeUnsupported => String::from_str("Cannot resume."),
        }
    }
}

} // verus!
