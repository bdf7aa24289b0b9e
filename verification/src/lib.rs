//! A counter kept in a four-byte record and driven by binary instructions.
//!
//! An invocation is handed two byte buffers: an instruction and the
//! persisted record. [`decode`] turns the first into an [`Instruction`],
//! [`apply`] computes the next [`CounterAccount`] from the current one,
//! [`execute`] does so on the record buffer, and [`process_instruction`] is
//! the whole invocation, from the two buffers to the record written back.

pub mod engine;
pub mod error;
pub mod instruction;
pub mod state;
pub mod wire;

pub use engine::{apply, execute, process_instruction};
pub use error::CounterError;
pub use instruction::{decode, DecodeError, Instruction};
pub use state::CounterAccount;
