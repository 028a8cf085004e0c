//! The register file: R0..R7, the program counter and the condition flags.

use vstd::prelude::*;

use crate::semantics::{flag_for, COND_INDEX, FLAG_NEG, FLAG_POS, FLAG_ZRO, REGISTER_COUNT};

verus! {

/// A register name.
///
/// `COUNT` is not a register: it names the number of slots in the file and
/// is never accepted by `get` or `set`.
#[derive(Clone, Copy, Debug, PartialEq, Eq, Structural)]
pub enum Register {
    R0,
    R1,
    R2,
    R3,
    R4,
    R5,
    R6,
    R7,
    /// Program counter.
    PC,
    /// Condition register.
    COND,
    /// Count of registers.
    COUNT,
}

impl Register {
    /// The slot this register occupies in the register file
    /// (10 for `COUNT`, which occupies none).
    pub open spec fn index_spec(self) -> int {
        match self {
            Register::R0 => 0,
            Register::R1 => 1,
            Register::R2 => 2,
            Register::R3 => 3,
            Register::R4 => 4,
            Register::R5 => 5,
            Register::R6 => 6,
            Register::R7 => 7,
            Register::PC => 8,
            Register::COND => 9,
            Register::COUNT => 10,
        }
    }

    /// The slot this register occupies in the register file.
    pub fn index(self) -> (i: usize)
        ensures
            i == self.index_spec(),
    {
        match self {
            Register::R0 => 0,
            Register::R1 => 1,
            Register::R2 => 2,
            Register::R3 => 3,
            Register::R4 => 4,
            Register::R5 => 5,
            Register::R6 => 6,
            Register::R7 => 7,
            Register::PC => 8,
            Register::COND => 9,
            Register::COUNT => 10,
        }
    }
}

/// A condition flag: exactly one of these is recorded after every
/// flag-updating instruction.
#[derive(Clone, Copy, Debug, PartialEq, Eq, Structural)]
pub enum CondFlag {
    /// Positive result.
    POS,
    /// Zero result.
    ZRO,
    /// Negative result (bit 15 set).
    NEG,
}

impl CondFlag {
    /// The word this flag stores in the condition register.
    pub open spec fn to_u16_spec(self) -> u16 {
        match self {
            CondFlag::POS => FLAG_POS,
            CondFlag::ZRO => FLAG_ZRO,
            CondFlag::NEG => FLAG_NEG,
        }
    }

    /// The word this flag stores in the condition register:
    /// POS is 1, ZRO is 2 and NEG is 4.
    pub fn to_u16(self) -> (value: u16)
        ensures
            value == self.to_u16_spec(),
    {
        match self {
            CondFlag::POS => 1,
            CondFlag::ZRO => 2,
            CondFlag::NEG => 4,
        }
    }
}

/// The register file: ten 16-bit slots, viewed as a sequence indexed by
/// [`Register::index_spec`].
pub struct Registers {
    data: Vec<u16>,
}

impl View for Registers {
    type V = Seq<u16>;

    closed spec fn view(&self) -> Seq<u16> {
        self.data@
    }
}

impl Registers {
    /// The file holds exactly its ten architectural slots.
    pub open spec fn wf(&self) -> bool {
        self@.len() == REGISTER_COUNT
    }

    /// Creates a register file with every slot zeroed.
    pub fn new() -> (registers: Self)
        ensures
            registers.wf(),
            forall|i: int| 0 <= i < REGISTER_COUNT ==> registers@[i] == 0u16,
    {
        Registers { data: vec![0u16; REGISTER_COUNT] }
    }

    /// Reads a register.
    pub fn get(&self, register: Register) -> (value: u16)
        requires
            self.wf(),
            register != Register::COUNT,
        ensures
            value == self@[register.index_spec()],
    {
        self.data[register.index()]
    }

    /// Writes a register.
    pub fn set(&mut self, register: Register, value: u16)
        requires
            old(self).wf(),
            register != Register::COUNT,
        ensures
            final(self).wf(),
            final(self)@ == old(self)@.update(register.index_spec(), value),
    {
        let i = register.index();
        self.data[i] = value;
    }

    /// Recomputes the condition flags from the current value of `register`:
    /// ZRO if it is zero, NEG if its bit 15 is set, POS otherwise.
    pub fn update_flags(&mut self, register: Register)
        requires
            old(self).wf(),
            register != Register::COUNT,
        ensures
            final(self).wf(),
            final(self)@ == old(self)@.update(
                COND_INDEX as int,
                flag_for(old(self)@[register.index_spec()]),
            ),
    {
        let value = self.get(register);
        let flag = if value == 0 {
            CondFlag::ZRO
        } else if (value >> 15) != 0 {
            CondFlag::NEG
        } else {
            CondFlag::POS
        };
        proof {
            assert(value >> 15 != 0 <==> value >= 0x8000) by (bit_vector);
        }
        self.set_condition_flag(flag);
    }

    /// Stores a condition flag.
    pub fn set_condition_flag(&mut self, flag: CondFlag)
        requires
            old(self).wf(),
        ensures
            final(self).wf(),
            final(self)@ == old(self)@.update(COND_INDEX as int, flag.to_u16_spec()),
    {
        let value = flag.to_u16();
        self.data[COND_INDEX] = value;
    }

    /// Reads the condition register.
    pub fn get_condition_flag(&self) -> (value: u16)
        requires
            self.wf(),
        ensures
            value == self@[COND_INDEX as int],
    {
        self.data[COND_INDEX]
    }
}

} // verus!
