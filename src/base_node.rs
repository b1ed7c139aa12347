//! The starting state of a base node's state machine.
use vstd::prelude::*;

verus! {

/// What a state of the base node hands to the state machine when it ends.
#[derive(Debug, Clone, Copy, PartialEq, Eq, Structural)]
pub enum StateEvent {
    /// The node is configured and ready.
    Initialized,
    /// The node cannot go on.
    FatalError,
}

/// Why the base node cannot start.
#[derive(Debug, Clone, Copy, PartialEq, Eq, Structural)]
pub enum BaseNodeError {
    ConfigurationError,
}

/// The state in which a base node applies its configuration.
#[derive(Debug)]
pub struct Starting;

impl Starting {
    /// Applies the node's configuration settings; there are none to apply.
    fn apply_config(&mut self) -> (r: Result<(), BaseNodeError>)
        ensures
            r is Ok,
    {
        Ok(())
    }

    /// Configures the node and reports the outcome.
    pub fn next_event(&mut self) -> (r: StateEvent)
        ensures
            r == StateEvent::Initialized,
    {
        match self.apply_config() {
            Err(_) => StateEvent::FatalError,
            Ok(()) => StateEvent::Initialized,
        }
    }
}

} // verus!
