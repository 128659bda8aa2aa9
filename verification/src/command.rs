//! A command that waits to be launched.
use vstd::prelude::*;

verus! {

/// A command line to launch, and the directory to launch it in.
pub struct PendingCmd {
    pub args: Vec<String>,
    pub dir: Option<String>,
}

impl Default for PendingCmd {
    /// No arguments and no directory.
    fn default() -> (cmd: Self)
        ensures
            cmd.args@.len() == 0,
            cmd.dir is None,
    {
        PendingCmd { args: Vec::new(), dir: None }
    }
}

} // verus!
