//! Decode and dispatch: one instruction word in, one instruction executed.

use vstd::prelude::*;

use crate::console::{lemma_prefix_reflexive, Console};
use crate::opcodes::OpCode;
use crate::semantics::{
    kb_only_changes, lemma_fields_bounded, op_of, pure_opcode, step_ok, trap_vector_of,
    valid_trap_vector, R7_INDEX,
};
use crate::utils::FromU16;
use crate::vm::LC3;
use crate::VmError;

verus! {

impl<C: Console> LC3<C> {
    /// Decodes the opcode from the top four bits of `instr` and executes
    /// the instruction.
    ///
    /// On success the machine takes exactly one [`step_ok`] step. RTI and
    /// the reserved opcode fail with [`VmError::UnsupportedOpcode`] and
    /// change nothing; a TRAP with a vector outside 0x20..=0x25 fails with
    /// [`VmError::UnknownTrap`] with only R7 saved; a console failure
    /// surfaces as [`VmError::IoFailure`], the running flag untouched,
    /// memory changed at most at the keyboard words, and the registers
    /// unchanged or with only R7 saved.
    pub fn execute_instruction(&mut self, instr: u16) -> (result: Result<(), VmError>)
        requires
            old(self).wf(),
        ensures
            final(self).wf(),
            match result {
                Ok(_) => step_ok(old(self)@, final(self)@, instr),
                Err(e) => {
                    &&& (e == VmError::UnsupportedOpcode || e == VmError::UnknownTrap || e
                        == VmError::IoFailure)
                    &&& final(self)@.running == old(self)@.running
                    &&& kb_only_changes(old(self)@.mem, final(self)@.mem)
                    &&& (final(self)@.regs == old(self)@.regs || final(self)@.regs == old(
                        self,
                    )@.regs.update(R7_INDEX as int, old(self)@.pc()))
                    &&& (e == VmError::IoFailure ==> op_of(instr) == 2 || op_of(instr) == 6
                        || op_of(instr) == 10 || op_of(instr) == 11 || op_of(instr) == 15)
                },
            },
            (op_of(instr) == 8 || op_of(instr) == 13) <==> result == Err::<(), VmError>(
                VmError::UnsupportedOpcode,
            ),
            result == Err::<(), VmError>(VmError::UnsupportedOpcode) ==> final(self)@ == old(
                self,
            )@,
            (op_of(instr) == 15 && !valid_trap_vector(trap_vector_of(instr))) <==> result == Err::<
                (),
                VmError,
            >(VmError::UnknownTrap),
            pure_opcode(op_of(instr)) ==> (result is Ok),
            final(self).console.io_reliable() == old(self).console.io_reliable(),
            old(self).console.events().is_prefix_of(final(self).console.events()),
            op_of(instr) == 15 && (result is Ok) ==> crate::semantics::trap_trace_rel(
                old(self)@,
                final(self)@,
                instr,
                old(self).console.events(),
                final(self).console.events(),
            ),
            pure_opcode(op_of(instr)) || op_of(instr) == 8 || op_of(instr) == 13
                ==> final(self).console == old(self).console,
    {
        proof {
            lemma_fields_bounded(instr);
        }
        let op = OpCode::from_u16(instr >> 12);
        let result = match op {
            OpCode::ADD => {
                self.execute_add(instr);
                Ok(())
            },
            OpCode::AND => {
                self.execute_and(instr);
                Ok(())
            },
            OpCode::NOT => {
                self.execute_not(instr);
                Ok(())
            },
            OpCode::BR => {
                self.execute_br(instr);
                Ok(())
            },
            OpCode::JMP => {
                self.execute_jmp(instr);
                Ok(())
            },
            OpCode::JSR => {
                self.execute_jsr(instr);
                Ok(())
            },
            OpCode::LD => self.execute_ld(instr),
            OpCode::LDI => self.execute_ldi(instr),
            OpCode::LDR => self.execute_ldr(instr),
            OpCode::LEA => {
                self.execute_lea(instr);
                Ok(())
            },
            OpCode::ST => self.execute_st(instr),
            OpCode::STI => self.execute_sti(instr),
            OpCode::STR => self.execute_str(instr),
            OpCode::TRAP => self.execute_trap(instr),
            OpCode::RTI | OpCode::RES => Err(VmError::UnsupportedOpcode),
        };
        proof {
            lemma_prefix_reflexive(old(self).console.events());
        }
        result
    }
}

} // verus!
