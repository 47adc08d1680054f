//! Host-side driver for a microcontroller that exposes its GPIO pins over a
//! serial link.
//!
//! The crate is a protocol engine without any I/O of its own: the caller moves
//! bytes between the serial channel and the engine, and the engine decides what
//! they mean and what has to be sent next.
use vstd::prelude::*;

pub mod board;
pub mod codec;
pub mod connection;
pub mod decoder;
pub mod discovery;
pub mod error;
pub mod opcodes;
pub mod queue;
pub mod screen;
pub mod shell;

pub use board::Board;
pub use connection::Connection;
pub use error::CircuitDojoError;

verus! {

/// Version of this driver.
pub const DOJOLIB_VERSION: u8 = 1;

} // verus!
