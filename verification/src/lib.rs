//! A finite-state automaton over named states and triggered transitions, and
//! the steps that the components of a console take on the events of their bus.

pub mod automata;
pub mod console;
pub mod error;
pub mod laws;
pub mod model;
pub mod state;
pub mod transition;

pub use crate::automata::Automata;
pub use crate::error::AutomataError;
pub use crate::state::State;
pub use crate::transition::Transition;
