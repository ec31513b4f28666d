use vstd::prelude::*;

verus! {

/// Work handed to the task that performs input and output.
#[derive(Debug, Clone, Copy, PartialEq, Eq, Structural)]
pub enum IoEvent {
    /// Load the catalog and then mark the application initialised.
    Initialise,
    /// Pause for the given number of milliseconds.
    Sleep(u64),
}

} // verus!
