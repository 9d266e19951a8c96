//! A CHIP-8 interpreter whose instruction semantics, timers and host
//! commands are specified over an abstract machine and proved.
pub mod machine;
pub mod command;
pub mod chipi8;
mod entropy;
pub mod laws;

pub use crate::chipi8::Chipi8;
pub use crate::command::{EmulatorCommand, command_for_key_event};
pub use crate::machine::{Fault, Halt, StepOutcome, TickOutcome};
