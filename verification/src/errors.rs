use vstd::prelude::*;

verus! {

/// The failure modes of the record store, the inspector and the workflow.
#[derive(Debug, PartialEq)]
pub enum SymlinkerError {
    /// A stored file exists but its contents do not parse as the expected record.
    Decode,
    /// A directory, file or device operation failed; carries the caller's description.
    Io { message: String },
    /// A subdirectory could not be read during recursive enumeration.
    Traversal { path: String },
    /// The recursion ceiling was reached while enumerating files.
    DepthExceeded,
    /// An input violated a structural precondition, such as a symlink path
    /// without any separator.
    InvalidInput,
    /// No mounted volume matches the requested mount point.
    NotFound { mount: String },
    /// The configuration file is corrupt and the operator declined to regenerate it.
    Config,
}

} // verus!
