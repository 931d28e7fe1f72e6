//! A file that is to be removed when the server is done with it.

use std::path::PathBuf;
use vstd::prelude::*;

verus! {

/// The path of a file to remove in the end.
#[derive(Debug)]
pub struct FileRemover(pub PathBuf);

impl FileRemover {
    /// Notes `path` for removal.
    pub fn new(path: PathBuf) -> (remover: FileRemover)
        ensures
            remover.0 == path,
    {
        FileRemover(path)
    }

    /// The file to remove.
    pub fn path(&self) -> (path: &PathBuf)
        ensures
            *path == self.0,
    {
        &self.0
    }
}

} // verus!
