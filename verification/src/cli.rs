use vstd::prelude::*;

verus! {

/// What the program is asked to do.
#[derive(Debug, Clone, Copy, PartialEq, Eq, Structural)]
pub enum Commands {
    /// Set the configuration up.
    Config,
    /// Review the journal.
    Review,
    /// Start the monitor.
    Start,
}

/// The command line.
#[derive(Debug, Clone, Copy, PartialEq, Eq, Structural)]
pub struct Nimbus {
    pub command: Commands,
}

} // verus!
