//! A small, embeddable finite-state-machine engine.
//!
//! A machine is built once from an initial state, a caller-owned "managed
//! state" value, and a table of [`machine::Transition`] entries.  Events are
//! then fed to [`machine::FiniteStateMachine::trigger_event`], which matches
//! the event's kind against the table, moves to the destination state, and
//! runs the transition's optional trigger on the managed state.

pub mod laws;
pub mod machine;
