//! Bit-field helpers shared by the instruction executors.

use vstd::prelude::*;

use crate::registers::Register;
use crate::semantics::{sign_extend_spec, wrap_add};

verus! {

/// 16-bit wraparound addition, the arithmetic of every address and of ADD.
pub fn add_wrap(a: u16, b: u16) -> (result: u16)
    ensures
        result == wrap_add(a, b),
{
    a.wrapping_add(b)
}

/// Conversion from an instruction bit field to a richer type.
///
/// Each implementation states, as `from_u16_req`, which field values it
/// accepts, and as `from_u16_spec`, which value each of them denotes.
pub trait FromU16: Sized {
    /// Which field values this conversion is defined on.
    spec fn from_u16_req(value: u16) -> bool;

    /// The value a field denotes.
    spec fn from_u16_spec(value: u16) -> Self;

    /// Converts a bit-field value.
    fn from_u16(value: u16) -> (result: Self)
        requires
            Self::from_u16_req(value),
        ensures
            result == Self::from_u16_spec(value),
    ;
}

impl FromU16 for Register {
    /// Only the eight general-purpose registers are named by instruction
    /// fields.
    open spec fn from_u16_req(value: u16) -> bool {
        value < 8
    }

    open spec fn from_u16_spec(value: u16) -> Register {
        if value == 0 {
            Register::R0
        } else if value == 1 {
            Register::R1
        } else if value == 2 {
            Register::R2
        } else if value == 3 {
            Register::R3
        } else if value == 4 {
            Register::R4
        } else if value == 5 {
            Register::R5
        } else if value == 6 {
            Register::R6
        } else {
            Register::R7
        }
    }

    fn from_u16(value: u16) -> (result: Register) {
        if value == 0 {
            Register::R0
        } else if value == 1 {
            Register::R1
        } else if value == 2 {
            Register::R2
        } else if value == 3 {
            Register::R3
        } else if value == 4 {
            Register::R4
        } else if value == 5 {
            Register::R5
        } else if value == 6 {
            Register::R6
        } else {
            Register::R7
        }
    }
}

/// Extends the sign bit of the low `bit_count` bits of `x` to fill the
/// entire 16-bit word.
pub fn sign_extend(x: u16, bit_count: u16) -> (result: u16)
    requires
        1 <= bit_count <= 15,
    ensures
        result == sign_extend_spec(x, bit_count),
{
    if ((x >> (bit_count - 1)) & 1) != 0 {
        x | (0xFFFFu16 << bit_count)
    } else {
        x
    }
}

} // verus!
