//! The TRAP instruction: the machine's input/output services.

use vstd::prelude::*;
use vstd::string::StringSliceAdditionalSpecFns;

use crate::console::{
    lemma_prefix_push, lemma_prefix_reflexive, lemma_prefix_transitive, written_events, Console,
    ConsoleEvent,
};
use crate::opcodes::TrapCode;
use crate::registers::Register;
use crate::semantics::{
    do_read_key, kb_only_changes, lemma_kb_only_changes_transitive, lemma_low_byte,
    lemma_read_rel_kb_only_changes, puts_bytes, putsp_bytes, putsp_word_bytes, trap_rel,
    trap_trace_rel, trap_vector_of, valid_trap_vector, walk_clear, VmState, KBSR_ADDRESS,
    R0_INDEX, R7_INDEX,
};
use crate::vm::LC3;
use crate::VmError;

verus! {

impl<C: Console> LC3<C> {
    /// Executes a TRAP instruction: R7 := PC (the already-incremented
    /// return address), then the service named by the low eight bits runs.
    ///
    /// On success the machine state follows [`trap_rel`] and the console
    /// interaction follows [`trap_trace_rel`]: GETC reads exactly one key
    /// into R0 and echoes nothing, OUT hands over exactly the low byte of
    /// R0, IN prompts, reads and echoes one key, PUTS and PUTSP hand over
    /// the string's bytes, and HALT hands over its announcement. A vector
    /// outside 0x20..=0x25 fails with [`VmError::UnknownTrap`], R7 already
    /// saved and the console untouched; a console failure surfaces as
    /// [`VmError::IoFailure`]. On a device whose writes cannot fail, OUT
    /// and HALT always succeed, and so do PUTS and PUTSP when their string
    /// walk stays clear of the keyboard status word.
    pub fn execute_trap(&mut self, instr: u16) -> (result: Result<(), VmError>)
        requires
            old(self).wf(),
        ensures
            final(self).wf(),
            final(self).console.io_reliable() == old(self).console.io_reliable(),
            old(self).console.events().is_prefix_of(final(self).console.events()),
            match result {
                Ok(_) => trap_rel(old(self)@, final(self)@, instr) && trap_trace_rel(
                    old(self)@,
                    final(self)@,
                    instr,
                    old(self).console.events(),
                    final(self).console.events(),
                ),
                Err(e) => {
                    &&& (e == VmError::UnknownTrap || e == VmError::IoFailure)
                    &&& (e == VmError::UnknownTrap <==> !valid_trap_vector(trap_vector_of(instr)))
                    &&& final(self)@.regs == old(self)@.regs.update(
                        R7_INDEX as int,
                        old(self)@.pc(),
                    )
                    &&& final(self)@.running == old(self)@.running
                    &&& (e == VmError::UnknownTrap ==> final(self)@.mem == old(self)@.mem
                        && final(self).console == old(self).console)
                    &&& kb_only_changes(old(self)@.mem, final(self)@.mem)
                },
            },
            !valid_trap_vector(trap_vector_of(instr)) ==> result == Err::<(), VmError>(
                VmError::UnknownTrap,
            ),
            old(self).console.io_reliable() && (trap_vector_of(instr) == 0x21 || trap_vector_of(
                instr,
            ) == 0x25) ==> (result is Ok),
            old(self).console.io_reliable() && (trap_vector_of(instr) == 0x22 || trap_vector_of(
                instr,
            ) == 0x24) && walk_clear(old(self)@.mem, old(self)@.regs[R0_INDEX as int]) ==> (result
                is Ok),
            (trap_vector_of(instr) == 0x22 || trap_vector_of(instr) == 0x24) && walk_clear(
                old(self)@.mem,
                old(self)@.regs[R0_INDEX as int],
            ) && old(self)@.mem[old(self)@.regs[R0_INDEX as int] as int] == 0 ==> (result is Ok),
            trap_vector_of(instr) == 0x20 && (result is Err) ==> final(self).console.events()
                == old(self).console.events().push(ConsoleEvent::KeyRead(None)),
            trap_vector_of(instr) == 0x21 && (result is Err) ==> final(self).console.events()
                == old(self).console.events().push(
                ConsoleEvent::ByteWritten((old(self)@.regs[R0_INDEX as int] & 0xFF) as u8, false),
            ),
            trap_vector_of(instr) == 0x25 && (result is Err) ==> final(self).console.events()
                == old(self).console.events().push(
                ConsoleEvent::TextWritten("HALT\n".spec_bytes(), false),
            ),
    {
        proof {
            lemma_prefix_reflexive(old(self).console.events());
        }
        let pc = self.registers.get(Register::PC);
        self.registers.set(Register::R7, pc);
        match TrapCode::try_from_u16(instr & 0xFF) {
            None => Err(VmError::UnknownTrap),
            Some(TrapCode::GETC) => {
                match self.console.read_key() {
                    Err(_) => {
                        proof {
                            lemma_prefix_push(
                                old(self).console.events(),
                                ConsoleEvent::KeyRead(None::<u8>),
                            );
                        }
                        Err(VmError::IoFailure)
                    },
                    Ok(key) => {
                        self.registers.set(Register::R0, key as u16);
                        self.registers.update_flags(Register::R0);
                        proof {
                            assert(self@ =~= do_read_key(old(self)@, key));
                            assert(self.console.events() == old(self).console.events().push(
                                ConsoleEvent::KeyRead(Some(key)),
                            ));
                            lemma_prefix_push(
                                old(self).console.events(),
                                ConsoleEvent::KeyRead(Some(key)),
                            );
                        }
                        Ok(())
                    },
                }
            },
            Some(TrapCode::OUT) => {
                let value = self.registers.get(Register::R0);
                proof {
                    lemma_low_byte(value);
                }
                match self.console.write_char((value & 0xFF) as u8) {
                    Err(_) => {
                        proof {
                            lemma_prefix_push(
                                old(self).console.events(),
                                ConsoleEvent::ByteWritten((value & 0xFF) as u8, false),
                            );
                        }
                        Err(VmError::IoFailure)
                    },
                    Ok(_) => {
                        proof {
                            assert(self@ =~= (VmState {
                                mem: old(self)@.mem,
                                regs: old(self)@.regs.update(R7_INDEX as int, old(self)@.pc()),
                                running: old(self)@.running,
                            }));
                            lemma_prefix_push(
                                old(self).console.events(),
                                ConsoleEvent::ByteWritten((value & 0xFF) as u8, true),
                            );
                        }
                        Ok(())
                    },
                }
            },
            Some(TrapCode::PUTS) => self.trap_puts(Ghost(old(self)@)),
            Some(TrapCode::IN) => {
                let ghost trace0 = self.console.events();
                match self.console.write_str("Enter a character: ") {
                    Err(_) => {
                        proof {
                            lemma_prefix_push(
                                trace0,
                                ConsoleEvent::TextWritten(
                                    "Enter a character: ".spec_bytes(),
                                    false,
                                ),
                            );
                        }
                        Err(VmError::IoFailure)
                    },
                    Ok(_) => {
                        let ghost trace1 = self.console.events();
                        match self.console.read_key() {
                            Err(_) => {
                                proof {
                                    lemma_prefix_push(trace1, ConsoleEvent::KeyRead(None::<u8>));
                                    lemma_prefix_transitive(
                                        trace0,
                                        trace1,
                                        self.console.events(),
                                    );
                                }
                                Err(VmError::IoFailure)
                            },
                            Ok(key) => {
                                let ghost trace2 = self.console.events();
                                match self.console.write_char(key) {
                                    Err(_) => {
                                        proof {
                                            lemma_prefix_push(
                                                trace2,
                                                ConsoleEvent::ByteWritten(key, false),
                                            );
                                            lemma_prefix_transitive(
                                                trace0,
                                                trace2,
                                                self.console.events(),
                                            );
                                        }
                                        Err(VmError::IoFailure)
                                    },
                                    Ok(_) => {
                                        self.registers.set(Register::R0, key as u16);
                                        self.registers.update_flags(Register::R0);
                                        proof {
                                            assert(self@ =~= do_read_key(old(self)@, key));
                                            assert(self.console.events() =~= trace0 + seq![
                                                ConsoleEvent::TextWritten(
                                                    "Enter a character: ".spec_bytes(),
                                                    true,
                                                ),
                                                ConsoleEvent::KeyRead(Some(key)),
                                                ConsoleEvent::ByteWritten(key, true),
                                            ]);
                                            crate::console::lemma_prefix_extend(
                                                trace0,
                                                seq![
                                                    ConsoleEvent::TextWritten(
                                                        "Enter a character: ".spec_bytes(),
                                                        true,
                                                    ),
                                                    ConsoleEvent::KeyRead(Some(key)),
                                                    ConsoleEvent::ByteWritten(key, true),
                                                ],
                                            );
                                        }
                                        Ok(())
                                    },
                                }
                            },
                        }
                    },
                }
            },
            Some(TrapCode::PUTSP) => self.trap_putsp(Ghost(old(self)@)),
            Some(TrapCode::HALT) => {
                match self.console.write_str("HALT\n") {
                    Err(_) => {
                        proof {
                            lemma_prefix_push(
                                old(self).console.events(),
                                ConsoleEvent::TextWritten("HALT\n".spec_bytes(), false),
                            );
                        }
                        Err(VmError::IoFailure)
                    },
                    Ok(_) => {
                        self.running = false;
                        proof {
                            assert(self@ =~= (VmState {
                                mem: old(self)@.mem,
                                regs: old(self)@.regs.update(R7_INDEX as int, old(self)@.pc()),
                                running: false,
                            }));
                            lemma_prefix_push(
                                old(self).console.events(),
                                ConsoleEvent::TextWritten("HALT\n".spec_bytes(), true),
                            );
                        }
                        Ok(())
                    },
                }
            },
        }
    }

    /// The PUTS service: writes the low byte of each word from the address
    /// in R0 until a zero word or the end of the address space. Expects R7
    /// to have been saved already; `pre` is the state before that save.
    fn trap_puts(&mut self, Ghost(pre): Ghost<VmState>) -> (result: Result<(), VmError>)
        requires
            old(self).wf(),
            pre.wf(),
            old(self)@.mem == pre.mem,
            old(self)@.running == pre.running,
            old(self)@.regs == pre.regs.update(R7_INDEX as int, pre.pc()),
        ensures
            final(self).wf(),
            final(self)@.regs == old(self)@.regs,
            final(self)@.running == old(self)@.running,
            kb_only_changes(pre.mem, final(self)@.mem),
            result is Ok || result == Err::<(), VmError>(VmError::IoFailure),
            final(self).console.io_reliable() == old(self).console.io_reliable(),
            old(self).console.events().is_prefix_of(final(self).console.events()),
            old(self).console.io_reliable() && walk_clear(pre.mem, pre.regs[R0_INDEX as int])
                ==> (result is Ok),
            walk_clear(pre.mem, pre.regs[R0_INDEX as int])
                && pre.mem[pre.regs[R0_INDEX as int] as int] == 0 ==> (result is Ok),
            result is Ok && walk_clear(pre.mem, pre.regs[R0_INDEX as int]) ==> final(self)@.mem
                == pre.mem && final(self).console.events() == old(self).console.events()
                + written_events(puts_bytes(pre.mem, pre.regs[R0_INDEX as int])),
    {
        let ghost mem0 = pre.mem;
        let ghost r0 = pre.regs[R0_INDEX as int];
        let ghost trace0 = self.console.events();
        let ghost reliable0 = self.console.io_reliable();
        let ghost clear = walk_clear(mem0, r0);
        let mut address = self.registers.get(Register::R0);
        proof {
            lemma_prefix_reflexive(trace0);
        }
        loop
            invariant_except_break
                clear ==> self@.mem == mem0 && walk_clear(mem0, address) && trace0
                    + written_events(puts_bytes(mem0, r0)) == self.console.events()
                    + written_events(puts_bytes(mem0, address)),
            invariant
                self.wf(),
                self.registers@ == old(self)@.regs,
                self.running == old(self)@.running,
                kb_only_changes(pre.mem, self@.mem),
                self.console.io_reliable() == reliable0,
                trace0.is_prefix_of(self.console.events()),
                trace0 == old(self).console.events(),
                reliable0 == old(self).console.io_reliable(),
                clear == walk_clear(mem0, r0),
                mem0 == pre.mem,
                r0 == pre.regs[R0_INDEX as int],
                clear && mem0[r0 as int] == 0 ==> address == r0,
            ensures
                self.wf(),
                self.registers@ == old(self)@.regs,
                self.running == old(self)@.running,
                kb_only_changes(pre.mem, self@.mem),
                self.console.io_reliable() == reliable0,
                trace0.is_prefix_of(self.console.events()),
                clear ==> self@.mem == mem0 && self.console.events() == trace0 + written_events(
                    puts_bytes(mem0, r0),
                ),
            decreases 0xFFFFu16 - address,
        {
            let ghost mem_before = self@.mem;
            let ghost trace_before = self.console.events();
            let value = match self.mem_read(address) {
                Err(_) => {
                    proof {
                        assert(kb_only_changes(mem_before, self@.mem));
                        lemma_kb_only_changes_transitive(pre.mem, mem_before, self@.mem);
                        lemma_prefix_transitive(trace0, trace_before, self.console.events());
                        if clear {
                            assert(walk_clear(mem0, address));
                            assert(false);
                        }
                    }
                    return Err(VmError::IoFailure);
                },
                Ok(value) => value,
            };
            proof {
                lemma_read_rel_kb_only_changes(mem_before, address, self@.mem, value);
                lemma_kb_only_changes_transitive(pre.mem, mem_before, self@.mem);
                lemma_prefix_transitive(trace0, trace_before, self.console.events());
                if clear {
                    assert(walk_clear(mem0, address));
                    assert(address != KBSR_ADDRESS);
                    assert(value == mem0[address as int]);
                }
            }
            if value == 0 {
                proof {
                    if clear {
                        assert(puts_bytes(mem0, address) == Seq::<u8>::empty());
                        assert(written_events(Seq::<u8>::empty()) =~= Seq::<
                            ConsoleEvent,
                        >::empty());
                        assert(self.console.events() + written_events(puts_bytes(mem0, address))
                            =~= self.console.events());
                    }
                }
                break;
            }
            proof {
                lemma_low_byte(value);
            }
            let ghost trace_w = self.console.events();
            let ghost byte = (value & 0xFF) as u8;
            match self.console.write_char((value & 0xFF) as u8) {
                Err(_) => {
                    proof {
                        lemma_prefix_push(trace_w, ConsoleEvent::ByteWritten(byte, false));
                        lemma_prefix_transitive(trace0, trace_w, self.console.events());
                    }
                    return Err(VmError::IoFailure);
                },
                Ok(_) => {},
            }
            proof {
                lemma_prefix_push(trace_w, ConsoleEvent::ByteWritten(byte, true));
                lemma_prefix_transitive(trace0, trace_w, self.console.events());
                if clear {
                    assert(trace_w + seq![ConsoleEvent::ByteWritten(byte, true)]
                        =~= self.console.events());
                    if address == 0xFFFF {
                        assert(puts_bytes(mem0, address) == seq![byte]);
                        assert(written_events(seq![byte]) =~= seq![
                            ConsoleEvent::ByteWritten(byte, true),
                        ]);
                        assert(trace0 + written_events(puts_bytes(mem0, r0))
                            =~= self.console.events());
                    } else {
                        assert(walk_clear(mem0, (address + 1) as u16));
                        assert(puts_bytes(mem0, address) == seq![byte] + puts_bytes(
                            mem0,
                            (address + 1) as u16,
                        ));
                        assert(written_events(seq![byte] + puts_bytes(mem0, (address + 1) as u16))
                            =~= seq![ConsoleEvent::ByteWritten(byte, true)] + written_events(
                            puts_bytes(mem0, (address + 1) as u16),
                        ));
                        assert(trace_w + written_events(puts_bytes(mem0, address))
                            =~= self.console.events() + written_events(
                            puts_bytes(mem0, (address + 1) as u16),
                        ));
                    }
                }
            }
            if address == 0xFFFF {
                break;
            }
            address = address + 1;
        }
        Ok(())
    }

    /// The PUTSP service: writes the low byte, then the high byte if it is
    /// not zero, of each word from the address in R0 until a zero word or
    /// the end of the address space. Expects R7 to have been saved already;
    /// `pre` is the state before that save.
    fn trap_putsp(&mut self, Ghost(pre): Ghost<VmState>) -> (result: Result<(), VmError>)
        requires
            old(self).wf(),
            pre.wf(),
            old(self)@.mem == pre.mem,
            old(self)@.running == pre.running,
            old(self)@.regs == pre.regs.update(R7_INDEX as int, pre.pc()),
        ensures
            final(self).wf(),
            final(self)@.regs == old(self)@.regs,
            final(self)@.running == old(self)@.running,
            kb_only_changes(pre.mem, final(self)@.mem),
            result is Ok || result == Err::<(), VmError>(VmError::IoFailure),
            final(self).console.io_reliable() == old(self).console.io_reliable(),
            old(self).console.events().is_prefix_of(final(self).console.events()),
            old(self).console.io_reliable() && walk_clear(pre.mem, pre.regs[R0_INDEX as int])
                ==> (result is Ok),
            walk_clear(pre.mem, pre.regs[R0_INDEX as int])
                && pre.mem[pre.regs[R0_INDEX as int] as int] == 0 ==> (result is Ok),
            result is Ok && walk_clear(pre.mem, pre.regs[R0_INDEX as int]) ==> final(self)@.mem
                == pre.mem && final(self).console.events() == old(self).console.events()
                + written_events(putsp_bytes(pre.mem, pre.regs[R0_INDEX as int])),
    {
        let ghost mem0 = pre.mem;
        let ghost r0 = pre.regs[R0_INDEX as int];
        let ghost trace0 = self.console.events();
        let ghost reliable0 = self.console.io_reliable();
        let ghost clear = walk_clear(mem0, r0);
        let mut address = self.registers.get(Register::R0);
        proof {
            lemma_prefix_reflexive(trace0);
        }
        loop
            invariant_except_break
                clear ==> self@.mem == mem0 && walk_clear(mem0, address) && trace0
                    + written_events(putsp_bytes(mem0, r0)) == self.console.events()
                    + written_events(putsp_bytes(mem0, address)),
            invariant
                self.wf(),
                self.registers@ == old(self)@.regs,
                self.running == old(self)@.running,
                kb_only_changes(pre.mem, self@.mem),
                self.console.io_reliable() == reliable0,
                trace0.is_prefix_of(self.console.events()),
                trace0 == old(self).console.events(),
                reliable0 == old(self).console.io_reliable(),
                clear == walk_clear(mem0, r0),
                mem0 == pre.mem,
                r0 == pre.regs[R0_INDEX as int],
                clear && mem0[r0 as int] == 0 ==> address == r0,
            ensures
                self.wf(),
                self.registers@ == old(self)@.regs,
                self.running == old(self)@.running,
                kb_only_changes(pre.mem, self@.mem),
                self.console.io_reliable() == reliable0,
                trace0.is_prefix_of(self.console.events()),
                clear ==> self@.mem == mem0 && self.console.events() == trace0 + written_events(
                    putsp_bytes(mem0, r0),
                ),
            decreases 0xFFFFu16 - address,
        {
            let ghost mem_before = self@.mem;
            let ghost trace_before = self.console.events();
            let value = match self.mem_read(address) {
                Err(_) => {
                    proof {
                        assert(kb_only_changes(mem_before, self@.mem));
                        lemma_kb_only_changes_transitive(pre.mem, mem_before, self@.mem);
                        lemma_prefix_transitive(trace0, trace_before, self.console.events());
                        if clear {
                            assert(walk_clear(mem0, address));
                            assert(false);
                        }
                    }
                    return Err(VmError::IoFailure);
                },
                Ok(value) => value,
            };
            proof {
                lemma_read_rel_kb_only_changes(mem_before, address, self@.mem, value);
                lemma_kb_only_changes_transitive(pre.mem, mem_before, self@.mem);
                lemma_prefix_transitive(trace0, trace_before, self.console.events());
                if clear {
                    assert(walk_clear(mem0, address));
                    assert(address != KBSR_ADDRESS);
                    assert(value == mem0[address as int]);
                }
            }
            if value == 0 {
                proof {
                    if clear {
                        assert(putsp_bytes(mem0, address) == Seq::<u8>::empty());
                        assert(written_events(Seq::<u8>::empty()) =~= Seq::<
                            ConsoleEvent,
                        >::empty());
                        assert(self.console.events() + written_events(putsp_bytes(mem0, address))
                            =~= self.console.events());
                    }
                }
                break;
            }
            proof {
                lemma_low_byte(value);
                lemma_low_byte(value >> 8);
            }
            let ghost trace_w = self.console.events();
            let ghost low = (value & 0xFF) as u8;
            let ghost high_byte = ((value >> 8) & 0xFF) as u8;
            match self.console.write_char((value & 0xFF) as u8) {
                Err(_) => {
                    proof {
                        lemma_prefix_push(trace_w, ConsoleEvent::ByteWritten(low, false));
                        lemma_prefix_transitive(trace0, trace_w, self.console.events());
                    }
                    return Err(VmError::IoFailure);
                },
                Ok(_) => {},
            }
            proof {
                lemma_prefix_push(trace_w, ConsoleEvent::ByteWritten(low, true));
                lemma_prefix_transitive(trace0, trace_w, self.console.events());
            }
            let high = ((value >> 8) & 0xFF) as u8;
            if high != 0 {
                let ghost trace_h = self.console.events();
                match self.console.write_char(high) {
                    Err(_) => {
                        proof {
                            lemma_prefix_push(trace_h, ConsoleEvent::ByteWritten(high, false));
                            lemma_prefix_transitive(trace0, trace_h, self.console.events());
                        }
                        return Err(VmError::IoFailure);
                    },
                    Ok(_) => {},
                }
                proof {
                    lemma_prefix_push(trace_h, ConsoleEvent::ByteWritten(high, true));
                    lemma_prefix_transitive(trace0, trace_h, self.console.events());
                }
            }
            proof {
                if clear {
                    let word = mem0[address as int];
                    if high_byte == 0 {
                        assert(putsp_word_bytes(word) == seq![low]);
                        assert(trace_w + written_events(putsp_word_bytes(word))
                            =~= self.console.events());
                    } else {
                        assert(putsp_word_bytes(word) == seq![low, high_byte]);
                        assert(trace_w + written_events(putsp_word_bytes(word))
                            =~= self.console.events());
                    }
                    if address == 0xFFFF {
                        assert(putsp_bytes(mem0, address) == putsp_word_bytes(word));
                        assert(trace0 + written_events(putsp_bytes(mem0, r0))
                            =~= self.console.events());
                    } else {
                        assert(walk_clear(mem0, (address + 1) as u16));
                        assert(putsp_bytes(mem0, address) == putsp_word_bytes(word) + putsp_bytes(
                            mem0,
                            (address + 1) as u16,
                        ));
                        assert(written_events(putsp_word_bytes(word) + putsp_bytes(
                            mem0,
                            (address + 1) as u16,
                        )) =~= written_events(putsp_word_bytes(word)) + written_events(
                            putsp_bytes(mem0, (address + 1) as u16),
                        ));
                        assert(trace_w + written_events(putsp_bytes(mem0, address))
                            =~= self.console.events() + written_events(
                            putsp_bytes(mem0, (address + 1) as u16),
                        ));
                    }
                }
            }
            if address == 0xFFFF {
                break;
            }
            address = address + 1;
        }
        Ok(())
    }
}

} // verus!
