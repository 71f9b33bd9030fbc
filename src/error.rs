//! The ways a transfer fails.
use vstd::prelude::*;

verus! {

/// Why a transfer did not go through.
#[derive(Debug, Clone, Copy, PartialEq, Eq, Structural)]
pub enum TransferError {
    /// The source file could not be opened or its size determined.
    SourceUnavailable,
    /// The chunk stream ended before its first chunk.
    EmptyTransfer,
    /// The destination could not be created or appended to.
    StorageWriteError,
    /// The declared path has no final component that can be stored under
    /// the upload root (none is left, or it is `.` or `..`).
    InvalidFileName,
}

impl TransferError {
    /// A short description of the error.
    pub fn message(&self) -> (r: &'static str)
        ensures
            *self == TransferError::SourceUnavailable ==> r@ == "source file unavailable"@,
            *self == TransferError::EmptyTransfer ==> r@ == "empty transfer"@,
            *self == TransferError::StorageWriteError ==> r@ == "storage write error"@,
            *self == TransferError::InvalidFileName ==> r@ == "invalid file name"@,
    {
        match self {
            TransferError::SourceUnavailable => "source file unavailable",
            TransferError::EmptyTransfer => "empty transfer",
            TransferError::StorageWriteError => "storage write error",
            TransferError::InvalidFileName => "invalid file name",
        }
    }
}

} // verus!
