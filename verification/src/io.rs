use vstd::prelude::*;
use crate::error::Error;

verus! {

/// A capability to read a file as text, supplied by the caller of
/// [`crate::config::PackageConfig::read`]. What a read returns depends on
/// the world outside the library, so nothing is promised of it; a failure is
/// handed back to the caller unchanged.
pub trait FileSystemReader {
    fn read(&self, path: &str) -> Result<String, Error>;
}

} // verus!
