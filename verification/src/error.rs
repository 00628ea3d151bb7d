//! The failures that a transfer or a job can end in.
use vstd::prelude::*;
use vstd::string::StringExecFns;

verus! {

/// Why an operation on an archive or a job did not succeed.
#[derive(Debug, Clone, Copy, PartialEq, Eq, Structural)]
pub enum ArchiveError {
    /// No permitted part size keeps the archive under the part-count ceiling.
    ArchiveTooLarge,
    /// The archive holds no data, so it has no tree hash.
    EmptyArchive,
    /// The local disk refused a read or a write.
    IOError,
    /// A call to the remote service failed.
    ServiceError,
    /// The service rejected the completion of a multipart upload.
    UploadIncomplete,
    /// The resource path returned by the service does not name a vault.
    MalformedLocation,
    /// The ledger file exists but cannot be parsed.
    LedgerCorrupt,
}

impl ArchiveError {
    /// The text shown to the operator for each failure.
    pub open spec fn text(self) -> Seq<char> {
        match self {
            ArchiveError::ArchiveTooLarge => "Ensure that archive is between 1 MB and 40,000 GB"@,
            ArchiveError::EmptyArchive => "The archive is empty"@,
            ArchiveError::IOError => "Reading or writing a local file failed"@,
            ArchiveError::ServiceError => "The archive service reported a failure"@,
            ArchiveError::UploadIncomplete => "The service rejected the completed upload"@,
            ArchiveError::MalformedLocation => "malformed url, exiting"@,
            ArchiveError::LedgerCorrupt => "The job ledger could not be parsed"@,
        }
    }

    /// Renders the failure for the operator.
    pub fn message(&self) -> (r: String)
        ensures
            r@ == self.text(),
    {
        match self {
            ArchiveError::ArchiveTooLarge => String::from_str(
                "Ensure that archive is between 1 MB and 40,000 GB",
            ),
            ArchiveError::EmptyArchive => String::from_str("The archive is empty"),
            ArchiveError::IOError => String::from_str("Reading or writing a local file failed"),
            ArchiveError::ServiceError => String::from_str(
                "The archive service reported a failure",
            ),
            ArchiveError::UploadIncomplete => String::from_str(
                "The service rejected the completed upload",
            ),
            ArchiveError::MalformedLocation => String::from_str("malformed url, exiting"),
            ArchiveError::LedgerCorrupt => String::from_str("The job ledger could not be parsed"),
        }
    }

    /// Whether the failure is absorbed rather than surfaced: only a corrupt
    /// ledger is, and it then counts as an empty one.
    pub fn is_absorbed(&self) -> (r: bool)
        ensures
            r == (*self == ArchiveError::LedgerCorrupt),
    {
        match self {
            ArchiveError::LedgerCorrupt => true,
            _ => false,
        }
    }
}

} // verus!
