//! The data-movement instructions: LD, LDI, LDR, LEA, ST, STI and STR.
//!
//! Every load goes through [`crate::Memory::read`], so a load whose address
//! is the keyboard status word polls the console; its contract is stated
//! with [`read_rel`] and promises success whenever no keyboard word is
//! involved.

use vstd::prelude::*;

use crate::console::Console;
use crate::registers::Register;
use crate::semantics::{
    do_lea, do_st, do_str, kb_only_changes, ld_rel, ldi_rel, ldr_rel, lemma_fields_bounded,
    lemma_kb_only_changes_transitive, lemma_read_rel_kb_only_changes, off6_of, off9_of,
    read_then_write, sti_rel, two_reads, wrap_add, KBSR_ADDRESS,
};
use crate::utils::{self, FromU16};
use crate::vm::LC3;
use crate::VmError;

verus! {

impl<C: Console> LC3<C> {
    /// Executes an LD instruction: DR := memory[PC + off9], then updates
    /// the condition flags from DR.
    pub fn execute_ld(&mut self, instr: u16) -> (result: Result<(), VmError>)
        requires
            old(self).wf(),
        ensures
            final(self).wf(),
            final(self).console.io_reliable() == old(self).console.io_reliable(),
            old(self).console.events().is_prefix_of(final(self).console.events()),
            match result {
                Ok(_) => ld_rel(old(self)@, final(self)@, instr),
                Err(e) => {
                    &&& e == VmError::IoFailure
                    &&& wrap_add(old(self)@.pc(), off9_of(instr)) == KBSR_ADDRESS
                    &&& final(self)@.regs == old(self)@.regs
                    &&& final(self)@.running == old(self)@.running
                    &&& kb_only_changes(old(self)@.mem, final(self)@.mem)
                },
            },
            wrap_add(old(self)@.pc(), off9_of(instr)) != KBSR_ADDRESS ==> (result is Ok),
    {
        proof {
            lemma_fields_bounded(instr);
        }
        let dr = (instr >> 9) & 0x7;
        let pc_offset = utils::sign_extend(instr & 0x1FF, 9);
        let pc = self.registers.get(Register::PC);
        let address = utils::add_wrap(pc, pc_offset);
        match self.mem_read(address) {
            Err(e) => {
                proof {
                    assert(kb_only_changes(old(self)@.mem, self@.mem));
                }
                Err(e)
            },
            Ok(value) => {
                self.registers.set(Register::from_u16(dr), value);
                self.registers.update_flags(Register::from_u16(dr));
                proof {
                    assert(ld_rel(old(self)@, self@, instr));
                }
                Ok(())
            },
        }
    }

    /// Executes an LDI instruction: DR := memory[memory[PC + off9]], a
    /// two-level dereference, then updates the condition flags from DR.
    pub fn execute_ldi(&mut self, instr: u16) -> (result: Result<(), VmError>)
        requires
            old(self).wf(),
        ensures
            final(self).wf(),
            final(self).console.io_reliable() == old(self).console.io_reliable(),
            old(self).console.events().is_prefix_of(final(self).console.events()),
            match result {
                Ok(_) => ldi_rel(old(self)@, final(self)@, instr),
                Err(e) => {
                    &&& e == VmError::IoFailure
                    &&& final(self)@.regs == old(self)@.regs
                    &&& final(self)@.running == old(self)@.running
                    &&& kb_only_changes(old(self)@.mem, final(self)@.mem)
                },
            },
            wrap_add(old(self)@.pc(), off9_of(instr)) != KBSR_ADDRESS && old(self)@.mem[wrap_add(
                old(self)@.pc(),
                off9_of(instr),
            ) as int] != KBSR_ADDRESS ==> (result is Ok),
    {
        proof {
            lemma_fields_bounded(instr);
        }
        let dr = (instr >> 9) & 0x7;
        let pc_offset = utils::sign_extend(instr & 0x1FF, 9);
        let pc = self.registers.get(Register::PC);
        let address = utils::add_wrap(pc, pc_offset);
        match self.mem_read(address) {
            Err(e) => {
                proof {
                    assert(kb_only_changes(old(self)@.mem, self@.mem));
                }
                Err(e)
            },
            Ok(indirect) => {
                let ghost mem_mid = self@.mem;
                match self.mem_read(indirect) {
                    Err(e) => {
                        proof {
                            lemma_read_rel_kb_only_changes(
                                old(self)@.mem,
                                address,
                                mem_mid,
                                indirect,
                            );
                            assert(kb_only_changes(mem_mid, self@.mem));
                            lemma_kb_only_changes_transitive(old(self)@.mem, mem_mid, self@.mem);
                        }
                        Err(e)
                    },
                    Ok(value) => {
                        self.registers.set(Register::from_u16(dr), value);
                        self.registers.update_flags(Register::from_u16(dr));
                        proof {
                            assert(address == wrap_add(old(self)@.pc(), off9_of(instr)));
                            assert(two_reads(
                                old(self)@.mem,
                                wrap_add(old(self)@.pc(), off9_of(instr)),
                                mem_mid,
                                indirect,
                                self@.mem,
                                self@.regs[crate::semantics::dr_of(instr)],
                            ));
                            assert(exists|mid: Seq<u16>, ind: u16|
                                #[trigger] two_reads(
                                    old(self)@.mem,
                                    wrap_add(old(self)@.pc(), off9_of(instr)),
                                    mid,
                                    ind,
                                    self@.mem,
                                    self@.regs[crate::semantics::dr_of(instr)],
                                ));
                            assert(ldi_rel(old(self)@, self@, instr));
                        }
                        Ok(())
                    },
                }
            },
        }
    }

    /// Executes an LDR instruction: DR := memory[BaseR + off6], then
    /// updates the condition flags from DR.
    pub fn execute_ldr(&mut self, instr: u16) -> (result: Result<(), VmError>)
        requires
            old(self).wf(),
        ensures
            final(self).wf(),
            final(self).console.io_reliable() == old(self).console.io_reliable(),
            old(self).console.events().is_prefix_of(final(self).console.events()),
            match result {
                Ok(_) => ldr_rel(old(self)@, final(self)@, instr),
                Err(e) => {
                    &&& e == VmError::IoFailure
                    &&& wrap_add(
                        old(self)@.regs[crate::semantics::sr1_of(instr)],
                        off6_of(instr),
                    ) == KBSR_ADDRESS
                    &&& final(self)@.regs == old(self)@.regs
                    &&& final(self)@.running == old(self)@.running
                    &&& kb_only_changes(old(self)@.mem, final(self)@.mem)
                },
            },
            wrap_add(old(self)@.regs[crate::semantics::sr1_of(instr)], off6_of(instr))
                != KBSR_ADDRESS ==> (result is Ok),
    {
        proof {
            lemma_fields_bounded(instr);
        }
        let dr = (instr >> 9) & 0x7;
        let base_r = (instr >> 6) & 0x7;
        let offset = utils::sign_extend(instr & 0x3F, 6);
        let base_value = self.registers.get(Register::from_u16(base_r));
        let address = utils::add_wrap(base_value, offset);
        match self.mem_read(address) {
            Err(e) => {
                proof {
                    assert(kb_only_changes(old(self)@.mem, self@.mem));
                }
                Err(e)
            },
            Ok(value) => {
                self.registers.set(Register::from_u16(dr), value);
                self.registers.update_flags(Register::from_u16(dr));
                proof {
                    assert(ldr_rel(old(self)@, self@, instr));
                }
                Ok(())
            },
        }
    }

    /// Executes an LEA instruction: DR := PC + off9 (the address itself,
    /// no memory access), then updates the condition flags from DR.
    pub fn execute_lea(&mut self, instr: u16)
        requires
            old(self).wf(),
        ensures
            final(self).wf(),
            final(self)@ == do_lea(old(self)@, instr),
            final(self).console == old(self).console,
    {
        proof {
            lemma_fields_bounded(instr);
        }
        let dr = (instr >> 9) & 0x7;
        let pc_offset = utils::sign_extend(instr & 0x1FF, 9);
        let pc = self.registers.get(Register::PC);
        let result = utils::add_wrap(pc, pc_offset);
        self.registers.set(Register::from_u16(dr), result);
        self.registers.update_flags(Register::from_u16(dr));
        proof {
            assert(self@ =~= do_lea(old(self)@, instr));
        }
    }

    /// Executes an ST instruction: memory[PC + off9] := SR. Stores never
    /// poll the keyboard, so this cannot fail.
    pub fn execute_st(&mut self, instr: u16) -> (result: Result<(), VmError>)
        requires
            old(self).wf(),
        ensures
            final(self).wf(),
            result == Ok::<(), VmError>(()),
            final(self)@ == do_st(old(self)@, instr),
            final(self).console == old(self).console,
    {
        proof {
            lemma_fields_bounded(instr);
        }
        let sr = (instr >> 9) & 0x7;
        let pc_offset = utils::sign_extend(instr & 0x1FF, 9);
        let pc = self.registers.get(Register::PC);
        let address = utils::add_wrap(pc, pc_offset);
        let value = self.registers.get(Register::from_u16(sr));
        self.mem_write(address, value);
        proof {
            assert(self@ =~= do_st(old(self)@, instr));
        }
        Ok(())
    }

    /// Executes an STI instruction: memory[memory[PC + off9]] := SR, the
    /// indirect address read first.
    pub fn execute_sti(&mut self, instr: u16) -> (result: Result<(), VmError>)
        requires
            old(self).wf(),
        ensures
            final(self).wf(),
            final(self).console.io_reliable() == old(self).console.io_reliable(),
            old(self).console.events().is_prefix_of(final(self).console.events()),
            match result {
                Ok(_) => sti_rel(old(self)@, final(self)@, instr),
                Err(e) => {
                    &&& e == VmError::IoFailure
                    &&& wrap_add(old(self)@.pc(), off9_of(instr)) == KBSR_ADDRESS
                    &&& final(self)@.regs == old(self)@.regs
                    &&& final(self)@.running == old(self)@.running
                    &&& kb_only_changes(old(self)@.mem, final(self)@.mem)
                },
            },
            wrap_add(old(self)@.pc(), off9_of(instr)) != KBSR_ADDRESS ==> (result is Ok),
    {
        proof {
            lemma_fields_bounded(instr);
        }
        let sr = (instr >> 9) & 0x7;
        let pc_offset = utils::sign_extend(instr & 0x1FF, 9);
        let pc = self.registers.get(Register::PC);
        let address = utils::add_wrap(pc, pc_offset);
        let value = self.registers.get(Register::from_u16(sr));
        match self.mem_read(address) {
            Err(e) => {
                proof {
                    assert(kb_only_changes(old(self)@.mem, self@.mem));
                }
                Err(e)
            },
            Ok(indirect) => {
                let ghost mem_mid = self@.mem;
                self.mem_write(indirect, value);
                proof {
                    assert(address == wrap_add(old(self)@.pc(), off9_of(instr)));
                    assert(read_then_write(
                        old(self)@.mem,
                        wrap_add(old(self)@.pc(), off9_of(instr)),
                        mem_mid,
                        indirect,
                        self@.mem,
                        old(self)@.regs[crate::semantics::dr_of(instr)],
                    ));
                    assert(exists|mid: Seq<u16>, ind: u16|
                        #[trigger] read_then_write(
                            old(self)@.mem,
                            wrap_add(old(self)@.pc(), off9_of(instr)),
                            mid,
                            ind,
                            self@.mem,
                            old(self)@.regs[crate::semantics::dr_of(instr)],
                        ));
                    assert(sti_rel(old(self)@, self@, instr));
                }
                Ok(())
            },
        }
    }

    /// Executes an STR instruction: memory[BaseR + off6] := SR. Stores
    /// never poll the keyboard, so this cannot fail.
    pub fn execute_str(&mut self, instr: u16) -> (result: Result<(), VmError>)
        requires
            old(self).wf(),
        ensures
            final(self).wf(),
            result == Ok::<(), VmError>(()),
            final(self)@ == do_str(old(self)@, instr),
            final(self).console == old(self).console,
    {
        proof {
            lemma_fields_bounded(instr);
        }
        let sr = (instr >> 9) & 0x7;
        let base_r = (instr >> 6) & 0x7;
        let offset = utils::sign_extend(instr & 0x3F, 6);
        let base_value = self.registers.get(Register::from_u16(base_r));
        let address = utils::add_wrap(base_value, offset);
        let value = self.registers.get(Register::from_u16(sr));
        self.mem_write(address, value);
        proof {
            assert(self@ =~= do_str(old(self)@, instr));
        }
        Ok(())
    }
}

} // verus!
