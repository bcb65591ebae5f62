//! The state of the file-transfer pane.
use vstd::prelude::*;

verus! {

/// The file-transfer pane carries no state the client's decisions
/// read.
#[derive(Debug)]
pub struct FileTransfers {
}

impl FileTransfers {
    /// A fresh file-transfer pane.
    pub fn new() -> (r: FileTransfers) {
        FileTransfers {  }
    }
}

} // verus!
