//! Operation codes and trap vectors.

use vstd::prelude::*;

use crate::semantics::valid_trap_vector;
use crate::utils::FromU16;

verus! {

/// An operation code: the high four bits of an instruction word select one
/// of these sixteen operations, in this order.
#[derive(Clone, Copy, Debug, PartialEq, Eq, Structural)]
pub enum OpCode {
    /// Branch.
    BR,
    /// Add.
    ADD,
    /// Load.
    LD,
    /// Store.
    ST,
    /// Jump register.
    JSR,
    /// Bitwise and.
    AND,
    /// Load register.
    LDR,
    /// Store register.
    STR,
    /// Unused; executing it fails.
    RTI,
    /// Bitwise not.
    NOT,
    /// Load indirect.
    LDI,
    /// Store indirect.
    STI,
    /// Jump.
    JMP,
    /// Reserved; executing it fails.
    RES,
    /// Load effective address.
    LEA,
    /// Execute trap.
    TRAP,
}

impl FromU16 for OpCode {
    /// Every four-bit value names an operation.
    open spec fn from_u16_req(value: u16) -> bool {
        value < 16
    }

    open spec fn from_u16_spec(value: u16) -> OpCode {
        if value == 0 {
            OpCode::BR
        } else if value == 1 {
            OpCode::ADD
        } else if value == 2 {
            OpCode::LD
        } else if value == 3 {
            OpCode::ST
        } else if value == 4 {
            OpCode::JSR
        } else if value == 5 {
            OpCode::AND
        } else if value == 6 {
            OpCode::LDR
        } else if value == 7 {
            OpCode::STR
        } else if value == 8 {
            OpCode::RTI
        } else if value == 9 {
            OpCode::NOT
        } else if value == 10 {
            OpCode::LDI
        } else if value == 11 {
            OpCode::STI
        } else if value == 12 {
            OpCode::JMP
        } else if value == 13 {
            OpCode::RES
        } else if value == 14 {
            OpCode::LEA
        } else {
            OpCode::TRAP
        }
    }

    fn from_u16(value: u16) -> (result: OpCode) {
        if value == 0 {
            OpCode::BR
        } else if value == 1 {
            OpCode::ADD
        } else if value == 2 {
            OpCode::LD
        } else if value == 3 {
            OpCode::ST
        } else if value == 4 {
            OpCode::JSR
        } else if value == 5 {
            OpCode::AND
        } else if value == 6 {
            OpCode::LDR
        } else if value == 7 {
            OpCode::STR
        } else if value == 8 {
            OpCode::RTI
        } else if value == 9 {
            OpCode::NOT
        } else if value == 10 {
            OpCode::LDI
        } else if value == 11 {
            OpCode::STI
        } else if value == 12 {
            OpCode::JMP
        } else if value == 13 {
            OpCode::RES
        } else if value == 14 {
            OpCode::LEA
        } else {
            OpCode::TRAP
        }
    }
}

/// A trap vector: the low eight bits of a TRAP instruction name one of
/// these input/output services.
#[derive(Clone, Copy, Debug, PartialEq, Eq, Structural)]
pub enum TrapCode {
    /// 0x20: read one key, not echoed, into R0.
    GETC,
    /// 0x21: write the low byte of R0.
    OUT,
    /// 0x22: write a null-terminated one-character-per-word string at R0.
    PUTS,
    /// 0x23: prompt, read one key, echo it, store it in R0.
    IN,
    /// 0x24: write a null-terminated two-characters-per-word string at R0.
    PUTSP,
    /// 0x25: announce the halt and stop the machine.
    HALT,
}

impl TrapCode {
    /// The vector each service answers to.
    pub open spec fn try_from_u16_spec(value: u16) -> Option<TrapCode> {
        if value == 0x20 {
            Some(TrapCode::GETC)
        } else if value == 0x21 {
            Some(TrapCode::OUT)
        } else if value == 0x22 {
            Some(TrapCode::PUTS)
        } else if value == 0x23 {
            Some(TrapCode::IN)
        } else if value == 0x24 {
            Some(TrapCode::PUTSP)
        } else if value == 0x25 {
            Some(TrapCode::HALT)
        } else {
            None
        }
    }

    /// Decodes a trap vector; `None` for a vector outside 0x20..=0x25.
    pub fn try_from_u16(value: u16) -> (result: Option<TrapCode>)
        ensures
            result == TrapCode::try_from_u16_spec(value),
            result is Some <==> valid_trap_vector(value),
    {
        if value == 0x20 {
            Some(TrapCode::GETC)
        } else if value == 0x21 {
            Some(TrapCode::OUT)
        } else if value == 0x22 {
            Some(TrapCode::PUTS)
        } else if value == 0x23 {
            Some(TrapCode::IN)
        } else if value == 0x24 {
            Some(TrapCode::PUTSP)
        } else if value == 0x25 {
            Some(TrapCode::HALT)
        } else {
            None
        }
    }
}

} // verus!
