//! The control-flow instructions: BR, JMP/RET and JSR/JSRR.

use vstd::prelude::*;

use crate::console::Console;
use crate::registers::Register;
use crate::semantics::{do_br, do_jmp, do_jsr, lemma_fields_bounded};
use crate::utils::{self, FromU16};
use crate::vm::LC3;

verus! {

impl<C: Console> LC3<C> {
    /// Executes a BR instruction: when the instruction's flag mask (bits
    /// 11:9) meets the condition register, PC += off9.
    pub fn execute_br(&mut self, instr: u16)
        requires
            old(self).wf(),
        ensures
            final(self).wf(),
            final(self)@ == do_br(old(self)@, instr),
            final(self).console == old(self).console,
    {
        let pc_offset = utils::sign_extend(instr & 0x1FF, 9);
        let cond_flag = (instr >> 9) & 0x7;
        if (cond_flag & self.registers.get_condition_flag()) != 0 {
            let pc = self.registers.get(Register::PC);
            self.registers.set(Register::PC, utils::add_wrap(pc, pc_offset));
        }
        proof {
            assert(self@ =~= do_br(old(self)@, instr));
        }
    }

    /// Executes a JMP instruction (RET when BaseR is R7): PC := BaseR.
    pub fn execute_jmp(&mut self, instr: u16)
        requires
            old(self).wf(),
        ensures
            final(self).wf(),
            final(self)@ == do_jmp(old(self)@, instr),
            final(self).console == old(self).console,
    {
        proof {
            lemma_fields_bounded(instr);
        }
        let base_r = (instr >> 6) & 0x7;
        let value = self.registers.get(Register::from_u16(base_r));
        self.registers.set(Register::PC, value);
        proof {
            assert(self@ =~= do_jmp(old(self)@, instr));
        }
    }

    /// Executes a JSR or JSRR instruction: R7 := PC (the already-incremented
    /// return address), then PC += off11 (JSR) or PC := BaseR (JSRR), the
    /// base register being read after R7 is saved.
    pub fn execute_jsr(&mut self, instr: u16)
        requires
            old(self).wf(),
        ensures
            final(self).wf(),
            final(self)@ == do_jsr(old(self)@, instr),
            final(self).console == old(self).console,
    {
        proof {
            lemma_fields_bounded(instr);
        }
        let long_flag = (instr >> 11) & 1;
        let pc = self.registers.get(Register::PC);
        self.registers.set(Register::R7, pc);
        if long_flag != 0 {
            let pc_offset = utils::sign_extend(instr & 0x7FF, 11);
            self.registers.set(Register::PC, utils::add_wrap(pc, pc_offset));
        } else {
            let base_r = (instr >> 6) & 0x7;
            let value = self.registers.get(Register::from_u16(base_r));
            self.registers.set(Register::PC, value);
        }
        proof {
            assert(self@ =~= do_jsr(old(self)@, instr));
        }
    }
}

} // verus!
