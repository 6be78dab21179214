//! Why an archiving run failed.

use vstd::prelude::*;

verus! {

/// The failures that the archiving logic itself decides.
#[derive(Debug, Clone, Copy, PartialEq, Eq, Structural)]
pub enum ArchiveError {
    /// The folder to archive has no final path component.
    NoFolderName,
    /// The folder to archive has an empty parent path.
    NoParentDir,
    /// The source manifest and the manifest of the unpacked copy differ.
    ChecksumMismatch,
    /// The copy at the destination does not have the artifact's legacy digest.
    CopyMismatch,
    /// Moving to the archive was asked for without a destination directory.
    MissingArchiveDir,
}

impl ArchiveError {
    /// A one-line description of the failure.
    pub fn message(&self) -> (r: String)
        ensures
            *self == ArchiveError::NoFolderName ==> r@ == "The folder to archive has no valid name"@,
            *self == ArchiveError::NoParentDir ==> r@
                == "The folder to archive has no valid parent directory"@,
            *self == ArchiveError::ChecksumMismatch ==> r@ == "Checksum mismatch"@,
            *self == ArchiveError::CopyMismatch ==> r@
                == "MD5 mismatch between artifact and copied file"@,
            *self == ArchiveError::MissingArchiveDir ==> r@ == "Archive directory not specified."@,
    {
        match self {
            ArchiveError::NoFolderName => String::from_str("The folder to archive has no valid name"),
            ArchiveError::NoParentDir => String::from_str(
                "The folder to archive has no valid parent directory",
            ),
            ArchiveError::ChecksumMismatch => String::from_str("Checksum mismatch"),
            ArchiveError::CopyMismatch => String::from_str(
                "MD5 mismatch between artifact and copied file",
            ),
            ArchiveError::MissingArchiveDir => String::from_str("Archive directory not specified."),
        }
    }
}

} // verus!
