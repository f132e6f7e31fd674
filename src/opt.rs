use vstd::prelude::*;

verus! {

/// What the command line asks for.
#[derive(Clone, Debug)]
pub struct Opt {
    /// Check the validity of the configuration file.
    pub check: bool,
    /// Write a default configuration file.
    pub configure: bool,
    /// Edit the configuration file.
    pub edit: bool,
    /// The meeting to open; chosen from the clock when absent.
    pub alias: Option<String>,
}

} // verus!
