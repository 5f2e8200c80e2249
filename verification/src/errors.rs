use vstd::prelude::*;
use vstd::string::StringExecFns;

verus! {

/// Domain errors of the remover.
///
/// Each variant that carries two strings holds the affected path first and
/// the text of the underlying failure second.
#[derive(Debug, Clone, PartialEq, Eq)]
pub enum RemoveError {
    /// Reading a path's metadata failed.
    MetadataFailed(String, String),
    /// Unlinking a file or symlink failed.
    RemoveFailed(String, String),
    /// Opening a directory for iteration failed.
    ReadDirFailed(String, String),
    /// Removing a directory failed.
    RemoveDirFailed(String, String),
    /// Reading one entry of a directory failed; the path is the directory's.
    DirEntryFailed(String, String),
    /// The path is neither a file, a directory, nor a symlink.
    UnsupportedType(String),
    /// Two input roots overlap; the string is the full diagnostic.
    PathOverlap(String),
}

impl RemoveError {
    /// The human-readable description of this error, as a sequence of characters.
    pub open spec fn message_spec(self) -> Seq<char> {
        match self {
            RemoveError::MetadataFailed(path, err) => "Failed to get metadata for "@ + path@
                + ": "@ + err@,
            RemoveError::RemoveFailed(path, err) => "Failed to remove "@ + path@ + ": "@ + err@,
            RemoveError::ReadDirFailed(path, err) => "Failed to read directory "@ + path@ + ": "@
                + err@,
            RemoveError::RemoveDirFailed(path, err) => "Failed to remove directory "@ + path@
                + ": "@ + err@,
            RemoveError::DirEntryFailed(path, err) => "Error accessing directory entry in "@
                + path@ + ": "@ + err@,
            RemoveError::UnsupportedType(path) => "Path "@ + path@
                + " is not a file, directory, or symlink that can be removed"@,
            RemoveError::PathOverlap(msg) => msg@,
        }
    }

    /// The human-readable description of this error.
    pub fn message(&self) -> (m: String)
        ensures
            m@ == self.message_spec(),
    {
        match self {
            RemoveError::MetadataFailed(path, err) => {
                let mut m = "Failed to get metadata for ".to_owned();
                m.append(path.as_str());
                m.append(": ");
                m.append(err.as_str());
                m
            },
            RemoveError::RemoveFailed(path, err) => {
                let mut m = "Failed to remove ".to_owned();
                m.append(path.as_str());
                m.append(": ");
                m.append(err.as_str());
                m
            },
            RemoveError::ReadDirFailed(path, err) => {
                let mut m = "Failed to read directory ".to_owned();
                m.append(path.as_str());
                m.append(": ");
                m.append(err.as_str());
                m
            },
            RemoveError::RemoveDirFailed(path, err) => {
                let mut m = "Failed to remove directory ".to_owned();
                m.append(path.as_str());
                m.append(": ");
                m.append(err.as_str());
                m
            },
            RemoveError::DirEntryFailed(path, err) => {
                let mut m = "Error accessing directory entry in ".to_owned();
                m.append(path.as_str());
                m.append(": ");
                m.append(err.as_str());
                m
            },
            RemoveError::UnsupportedType(path) => {
                let mut m = "Path ".to_owned();
                m.append(path.as_str());
                m.append(" is not a file, directory, or symlink that can be removed");
                m
            },
            RemoveError::PathOverlap(msg) => msg.clone(),
        }
    }
}

} // verus!
