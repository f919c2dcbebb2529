//! What a bounded subprocess run hands back, and how a scan run is judged once
//! its process group has been cleaned up.

use vstd::prelude::*;

verus! {

/// The exit code and bounded output of a finished subprocess.
#[derive(Debug, Clone, PartialEq, Eq)]
pub struct Captured {
    pub code: Option<i32>,
    pub stdout: Vec<u8>,
    pub stderr: Vec<u8>,
    pub process_group_survived: bool,
}

} // verus!
