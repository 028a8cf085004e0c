//! The arithmetic and logic instructions: ADD, AND and NOT.

use vstd::prelude::*;

use crate::console::Console;
use crate::registers::Register;
use crate::semantics::{do_add, do_and, do_not, lemma_fields_bounded};
use crate::utils::{self, FromU16};
use crate::vm::LC3;

verus! {

impl<C: Console> LC3<C> {
    /// Executes an ADD instruction: DR := SR1 + SR2 or SR1 + imm5, with
    /// 16-bit wraparound, then updates the condition flags from DR.
    pub fn execute_add(&mut self, instr: u16)
        requires
            old(self).wf(),
        ensures
            final(self).wf(),
            final(self)@ == do_add(old(self)@, instr),
            final(self).console == old(self).console,
    {
        proof {
            lemma_fields_bounded(instr);
        }
        let dr = (instr >> 9) & 0x7;
        let sr1 = (instr >> 6) & 0x7;
        if (instr & 0x20) == 0 {
            let sr2 = instr & 0x7;
            let result = utils::add_wrap(
                self.registers.get(Register::from_u16(sr1)),
                self.registers.get(Register::from_u16(sr2)),
            );
            self.registers.set(Register::from_u16(dr), result);
        } else {
            let imm5 = utils::sign_extend(instr & 0x1F, 5);
            let result = utils::add_wrap(self.registers.get(Register::from_u16(sr1)), imm5);
            self.registers.set(Register::from_u16(dr), result);
        }
        self.registers.update_flags(Register::from_u16(dr));
        proof {
            assert(self@ =~= do_add(old(self)@, instr));
        }
    }

    /// Executes an AND instruction: DR := SR1 & SR2 or SR1 & imm5, then
    /// updates the condition flags from DR.
    pub fn execute_and(&mut self, instr: u16)
        requires
            old(self).wf(),
        ensures
            final(self).wf(),
            final(self)@ == do_and(old(self)@, instr),
            final(self).console == old(self).console,
    {
        proof {
            lemma_fields_bounded(instr);
        }
        let dr = (instr >> 9) & 0x7;
        let sr1 = (instr >> 6) & 0x7;
        if (instr & 0x20) == 0 {
            let sr2 = instr & 0x7;
            let result = self.registers.get(Register::from_u16(sr1)) & self.registers.get(
                Register::from_u16(sr2),
            );
            self.registers.set(Register::from_u16(dr), result);
        } else {
            let imm5 = utils::sign_extend(instr & 0x1F, 5);
            let result = self.registers.get(Register::from_u16(sr1)) & imm5;
            self.registers.set(Register::from_u16(dr), result);
        }
        self.registers.update_flags(Register::from_u16(dr));
        proof {
            assert(self@ =~= do_and(old(self)@, instr));
        }
    }

    /// Executes a NOT instruction: DR := bitwise complement of SR, then
    /// updates the condition flags from DR.
    pub fn execute_not(&mut self, instr: u16)
        requires
            old(self).wf(),
        ensures
            final(self).wf(),
            final(self)@ == do_not(old(self)@, instr),
            final(self).console == old(self).console,
    {
        proof {
            lemma_fields_bounded(instr);
        }
        let dr = (instr >> 9) & 0x7;
        let sr = (instr >> 6) & 0x7;
        let result = !self.registers.get(Register::from_u16(sr));
        self.registers.set(Register::from_u16(dr), result);
        self.registers.update_flags(Register::from_u16(dr));
        proof {
            assert(self@ =~= do_not(old(self)@, instr));
        }
    }
}

} // verus!
