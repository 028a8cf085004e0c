//! A verified emulator core for the LC-3 educational computer: a 16-bit
//! word-addressed machine with eight general-purpose registers, a program
//! counter, a condition-flag register, 65,536 words of memory, and
//! memory-mapped keyboard input.
//!
//! The machine's semantics are stated once, as specification functions over
//! a mathematical machine state ([`semantics::VmState`]), and every
//! executable part of the emulator carries a contract proved against that
//! model. Console input and output are reached only through the [`Console`]
//! capability trait, whose ghost event trace records every call made to the
//! device: the contracts name the bytes the machine hands over and the keys
//! it consumes, while what the device does with them stays outside the
//! model, so everything the emulator itself does is verified for every
//! possible behaviour of the device.

use vstd::prelude::*;

pub mod semantics;
mod utils;
pub mod registers;
pub mod console;
pub mod memory;
pub mod opcodes;
pub mod vm;
mod arithmetic;
mod branch;
mod load_store;
mod trap;
mod instructions;

pub use utils::sign_extend;
pub use utils::FromU16;
pub use registers::{CondFlag, Register, Registers};
pub use console::{Console, ConsoleError, ScriptedConsole};
pub use memory::{Memory, MemoryMappedRegister};
pub use opcodes::{OpCode, TrapCode};
pub use vm::{parse_image, LC3};

verus! {

/// A failure surfaced by the emulator.
///
/// Every failure is fatal for the current run: nothing is retried.
#[derive(Clone, Copy, Debug, PartialEq, Eq, Structural)]
pub enum VmError {
    /// A console read or write failed.
    IoFailure,
    /// An RTI or reserved instruction was executed.
    UnsupportedOpcode,
    /// A TRAP instruction named a vector outside 0x20..=0x25.
    UnknownTrap,
    /// A program image was too short to hold its origin address.
    ImageLoadFailure,
}

} // verus!
