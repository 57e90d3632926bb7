use vstd::prelude::*;

verus! {

/// Why an operation on an automaton was refused. A refused operation leaves
/// the automaton exactly as it was.
#[derive(Debug, Clone, Copy, PartialEq, Eq, Structural)]
pub enum AutomataError {
    /// A second state was marked initial.
    DuplicateInitialState,
    /// The name is already registered.
    DuplicateState,
    /// A transition names a source or target that is not registered.
    UnknownState,
    /// A trigger was fired before any initial state exists.
    NoCurrentState,
    /// No transition from the current state carries the trigger.
    NoMatchingTransition,
}

} // verus!
