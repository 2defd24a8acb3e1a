//! What a container engine says of a container's state.

use vstd::prelude::*;

verus! {

/// The state of a container, as its engine names it.
#[derive(Debug, PartialEq, Eq)]
pub enum Status {
    Created,
    Running,
    Paused,
    Restarting,
    Removing,
    Exited,
    Dead,
    /// A state that the engine names otherwise.
    Unknown(String),
}

impl Status {
    /// Whether the container counts as running: it runs, or is on its way
    /// back to running.
    pub open spec fn spec_is_running(&self) -> bool {
        self is Running || self is Restarting
    }

    /// Whether the container counts as running.
    #[verifier::when_used_as_spec(spec_is_running)]
    pub fn is_running(&self) -> (running: bool)
        ensures
            running == self.spec_is_running(),
    {
        match self {
            Status::Running | Status::Restarting => true,
            _ => false,
        }
    }
}

} // verus!
