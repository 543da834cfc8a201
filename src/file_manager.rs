//! The handle through which documents are read from and written to files.
use vstd::prelude::*;

verus! {

/// The handle for file access. The program around the library reads and writes the
/// files; the library holds no file state.
pub struct FileManager {}

impl FileManager {
    /// A file manager.
    pub fn new() -> (r: Self) {
        FileManager {  }
    }
}

} // verus!
