use vstd::prelude::*;

verus! {

/// What was being done to a file when an operation on it failed.
#[derive(Debug, Clone, Copy, PartialEq, Eq)]
pub enum FileIoAction {
    Read,
    Parse,
}

/// The kind of file-system target an operation failed on.
#[derive(Debug, Clone, Copy, PartialEq, Eq)]
pub enum FileKind {
    File,
}

/// A failure surfaced to the caller. Every failure is terminal for the
/// operation that produced it: nothing is retried and no partial manifest is
/// ever returned.
#[derive(Debug, Clone, PartialEq, Eq)]
pub enum Error {
    /// A file could not be read, or its text did not match the manifest
    /// schema. Carries the action that failed, the kind of target, the
    /// offending path, and an underlying cause where one is known.
    FileIo { action: FileIoAction, kind: FileKind, path: String, err: Option<String> },
    /// The named package is declared in both the runtime and the development
    /// dependency set of one manifest.
    DuplicateDependency(String),
}

} // verus!
