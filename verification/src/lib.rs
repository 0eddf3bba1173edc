//! A verified core for a classic 8-bit virtual machine: a register machine
//! with 4096 bytes of memory, sixteen 8-bit registers, a 16-level call stack,
//! a 64x32 monochrome display and a pair of decrementing timers.
//!
//! The crate holds the fetch-decode-execute engine: decoding a 16-bit
//! instruction word into one of the recognized forms, applying it to the
//! machine state, the collision-aware sprite drawing, and the timer rules.
//! Window, audio and keyboard glue live outside the library and hand it
//! plain values.
use vstd::prelude::*;

pub mod decode;
pub mod display;
pub mod engine;
pub mod input;
pub mod laws;
pub mod machine;
pub mod rng;
pub mod state;
pub mod timer;

verus! {

/// Faults that the engine reports to the driving loop; execution halts on
/// any of them.
#[derive(Clone, Copy, Debug, PartialEq, Eq, Structural)]
pub enum Chip8Error {
    /// An instruction word with no recognized form; carries the raw word.
    IllegalOpcode(u16),
    /// A read or write outside the 4096-byte memory.
    MemoryAddressOutOfRange,
    /// A program image that does not fit in the region starting at 0x200.
    RomTooLarge,
}

} // verus!
