//! The LC-3 virtual machine: registers, memory, the running flag and the
//! console capability, owned together as one context object.

use vstd::prelude::*;

use crate::console::{
    lemma_prefix_push, lemma_prefix_reflexive, lemma_prefix_transitive, Console, ConsoleEvent,
    ScriptedConsole,
};
use crate::memory::Memory;
use crate::registers::{CondFlag, Register, Registers};
use crate::semantics::{
    fetch_execute_rel, flag_for, image_origin, image_words, lemma_kb_only_changes_transitive,
    lemma_read_rel_kb_only_changes, lemma_steps_ok_snoc, machine_step, op_of, pure_opcode,
    reaches, read_rel, read_rel_traced, step_fail, steps_ok, store_words, wrap_add, VmState,
    COND_INDEX, FLAG_ZRO, KBSR_ADDRESS, MEMORY_SIZE, PC_INDEX, PC_START,
};
use crate::utils;
use crate::VmError;

verus! {

/// An LC-3 machine.
///
/// The machine state the model speaks of — memory, registers and the
/// running flag — is the view `self@`; the console is an external device,
/// reached only through the [`Console`] trait, and the contracts speak of
/// it through its ghost event trace alone.
pub struct LC3<C: Console> {
    /// The 65,536-word memory.
    pub memory: Memory,
    /// The register file.
    pub registers: Registers,
    /// True from run-start until a HALT trap clears it.
    pub running: bool,
    /// The console device; its behaviour is outside the verified model.
    pub console: C,
}

impl<C: Console> View for LC3<C> {
    type V = VmState;

    open spec fn view(&self) -> VmState {
        VmState { mem: self.memory@, regs: self.registers@, running: self.running }
    }
}

impl LC3<ScriptedConsole> {
    /// Creates a machine wired to a fresh scripted console: memory zeroed,
    /// general-purpose registers zeroed, PC at the program start address,
    /// the condition register at ZRO, not running.
    pub fn new() -> (vm: Self)
        ensures
            vm.wf(),
            vm@.running == false,
            vm@.regs[PC_INDEX as int] == PC_START,
            vm@.regs[COND_INDEX as int] == FLAG_ZRO,
            forall|i: int| 0 <= i < 8 ==> vm@.regs[i] == 0u16,
            forall|a: int| 0 <= a < MEMORY_SIZE ==> vm@.mem[a] == 0u16,
    {
        Self::with_console(ScriptedConsole::new())
    }
}

impl<C: Console> LC3<C> {
    /// The machine state has its architectural sizes.
    pub open spec fn wf(&self) -> bool {
        self@.wf()
    }

    /// Creates a machine wired to `console`: memory zeroed, general-purpose
    /// registers zeroed, PC at the program start address, the condition
    /// register at ZRO, not running.
    pub fn with_console(console: C) -> (vm: Self)
        ensures
            vm.wf(),
            vm@.running == false,
            vm@.regs[PC_INDEX as int] == PC_START,
            vm@.regs[COND_INDEX as int] == FLAG_ZRO,
            forall|i: int| 0 <= i < 8 ==> vm@.regs[i] == 0u16,
            forall|a: int| 0 <= a < MEMORY_SIZE ==> vm@.mem[a] == 0u16,
    {
        let mut vm = LC3 {
            memory: Memory::new(),
            registers: Registers::new(),
            running: false,
            console,
        };
        vm.registers.set(Register::PC, PC_START);
        vm.registers.set_condition_flag(CondFlag::ZRO);
        vm
    }

    /// Extends the sign bit of the low `bit_count` bits of `x` to fill the
    /// entire 16-bit word.
    pub fn sign_extend(x: u16, bit_count: u16) -> (result: u16)
        requires
            1 <= bit_count <= 15,
        ensures
            result == crate::semantics::sign_extend_spec(x, bit_count),
    {
        utils::sign_extend(x, bit_count)
    }

    /// Recomputes the condition flags from the current value of `register`.
    pub fn update_flags(&mut self, register: Register)
        requires
            old(self).wf(),
            register != Register::COUNT,
        ensures
            final(self).wf(),
            final(self)@ == (VmState {
                regs: old(self)@.regs.update(
                    COND_INDEX as int,
                    flag_for(old(self)@.regs[register.index_spec()]),
                ),
                ..old(self)@
            }),
            final(self).console == old(self).console,
    {
        self.registers.update_flags(register);
    }

    /// Reads a memory word, polling the keyboard when `address` is the
    /// keyboard status address (see [`Memory::read`]).
    pub fn mem_read(&mut self, address: u16) -> (result: Result<u16, VmError>)
        requires
            old(self).wf(),
        ensures
            final(self).wf(),
            final(self)@.regs == old(self)@.regs,
            final(self)@.running == old(self)@.running,
            final(self).console.io_reliable() == old(self).console.io_reliable(),
            old(self).console.events().is_prefix_of(final(self).console.events()),
            address != KBSR_ADDRESS ==> final(self)@.mem == old(self)@.mem && result == Ok::<
                u16,
                VmError,
            >(old(self)@.mem[address as int]) && final(self).console.events() == old(
                self,
            ).console.events(),
            match result {
                Ok(value) => read_rel(old(self)@.mem, address, final(self)@.mem, value)
                    && read_rel_traced(
                    old(self)@.mem,
                    address,
                    final(self)@.mem,
                    value,
                    old(self).console.events(),
                    final(self).console.events(),
                ),
                Err(e) => {
                    &&& e == VmError::IoFailure
                    &&& address == KBSR_ADDRESS
                    &&& ((final(self)@.mem == old(self)@.mem && final(self).console.events()
                        == old(self).console.events().push(
                        ConsoleEvent::KeyPolled(None),
                    )) || (final(self)@.mem == old(self)@.mem.update(
                        KBSR_ADDRESS as int,
                        0x8000u16,
                    ) && final(self).console.events() == old(self).console.events() + seq![
                        ConsoleEvent::KeyPolled(Some(true)),
                        ConsoleEvent::KeyRead(None),
                    ]))
                },
            },
    {
        self.memory.read(address, &mut self.console)
    }

    /// Writes a memory word; every address is plain storage for writes.
    pub fn mem_write(&mut self, address: u16, value: u16)
        requires
            old(self).wf(),
        ensures
            final(self).wf(),
            final(self)@ == (VmState {
                mem: old(self)@.mem.update(address as int, value),
                ..old(self)@
            }),
            final(self).console == old(self).console,
    {
        self.memory.write(address, value);
    }

    /// Copies a parsed program image into memory, one address per word
    /// starting at `origin`. No overlap with the memory-mapped words and no
    /// end-of-memory bound is checked: addresses wrap silently.
    pub fn load_image(&mut self, origin: u16, words: &Vec<u16>)
        requires
            old(self).wf(),
        ensures
            final(self).wf(),
            final(self)@ == (VmState {
                mem: store_words(old(self)@.mem, origin, words@),
                ..old(self)@
            }),
            final(self).console == old(self).console,
    {
        let ghost mem0 = self.memory@;
        let mut address: u16 = origin;
        let mut i: usize = 0;
        let n = words.len();
        proof {
            assert(words@.skip(0) =~= words@);
        }
        while i < n
            invariant
                self.wf(),
                i <= n,
                n == words@.len(),
                self.registers@ == old(self)@.regs,
                self.running == old(self)@.running,
                self.console == old(self).console,
                store_words(mem0, origin, words@) == store_words(
                    self.memory@,
                    address,
                    words@.skip(i as int),
                ),
            decreases n - i,
        {
            let ghost rest = words@.skip(i as int);
            proof {
                assert(rest.first() == words@[i as int]);
                assert(rest.drop_first() =~= words@.skip(i as int + 1));
            }
            self.memory.write(address, words[i]);
            address = utils::add_wrap(address, 1);
            i = i + 1;
        }
        proof {
            assert(words@.skip(n as int) =~= Seq::<u16>::empty());
            assert(self@ =~= VmState { mem: store_words(mem0, origin, words@), ..old(self)@ });
        }
    }

    /// Performs one fetch-decode-execute cycle: fetches the word at PC,
    /// increments PC (wrapping at the end of the address space), then
    /// executes the fetched instruction. The PC is incremented before the
    /// instruction's effects are applied, so PC-relative offsets are taken
    /// from the address after the current instruction.
    pub fn step(&mut self) -> (result: Result<(), VmError>)
        requires
            old(self).wf(),
        ensures
            final(self).wf(),
            match result {
                Ok(_) => fetch_execute_rel(old(self)@, final(self)@),
                Err(e) => e != VmError::ImageLoadFailure && step_fail(old(self)@, final(self)@),
            },
            old(self)@.pc() != KBSR_ADDRESS && pure_opcode(
                op_of(old(self)@.mem[old(self)@.pc() as int]),
            ) ==> (result is Ok),
            final(self).console.io_reliable() == old(self).console.io_reliable(),
            old(self).console.events().is_prefix_of(final(self).console.events()),
    {
        let pc = self.registers.get(Register::PC);
        self.registers.set(Register::PC, utils::add_wrap(pc, 1));
        match self.mem_read(pc) {
            Err(e) => {
                proof {
                    assert(step_fail(old(self)@, self@));
                }
                Err(e)
            },
            Ok(instr) => {
                let ghost mid = self@;
                let ghost trace_mid = self.console.events();
                let result = self.execute_instruction(instr);
                proof {
                    lemma_prefix_transitive(
                        old(self).console.events(),
                        trace_mid,
                        self.console.events(),
                    );
                }
                proof {
                    assert(read_rel(old(self)@.mem, old(self)@.pc(), mid.mem, instr));
                    match result {
                        Ok(_) => {
                            assert(mid == (VmState {
                                mem: mid.mem,
                                regs: old(self)@.regs.update(
                                    PC_INDEX as int,
                                    wrap_add(old(self)@.pc(), 1),
                                ),
                                running: old(self)@.running,
                            }));
                            assert(fetch_execute_rel(old(self)@, self@));
                        },
                        Err(_) => {
                            lemma_read_rel_kb_only_changes(
                                old(self)@.mem,
                                old(self)@.pc(),
                                mid.mem,
                                instr,
                            );
                            lemma_kb_only_changes_transitive(old(self)@.mem, mid.mem, self@.mem);
                            assert(step_fail(old(self)@, self@));
                        },
                    }
                }
                result
            },
        }
    }

    /// Runs the machine: sets the running flag, prepares the console, and
    /// repeats fetch-decode-execute cycles until a HALT trap clears the
    /// flag, a fatal condition stops execution, or a budget of 2^64 - 1
    /// instructions is spent (the flag is then still set, and a fresh call
    /// continues from the same state). On every exit path, the failing ones
    /// included, the console is restored before returning.
    ///
    /// Whatever the console does, the machine only ever moves along
    /// [`machine_step`]: the final state is reachable from the starting one
    /// (the old state with the running flag set), and on failure the damage
    /// of the failing cycle is bounded by [`step_fail`].
    pub fn run(&mut self) -> (result: Result<(), VmError>)
        requires
            old(self).wf(),
        ensures
            final(self).wf(),
            ({
                let start = VmState { mem: old(self)@.mem, regs: old(self)@.regs, running: true };
                match result {
                    Ok(_) => exists|n: nat|
                        #[trigger] steps_ok(start, final(self)@, n) && (final(self)@.running
                            ==> n == u64::MAX as nat),
                    Err(e) => e != VmError::ImageLoadFailure && exists|s: VmState|
                        #[trigger] reaches(start, s) && (final(self)@ == s || step_fail(
                            s,
                            final(self)@,
                        )),
                }
            }),
            final(self).console.io_reliable() == old(self).console.io_reliable(),
            old(self).console.events().is_prefix_of(final(self).console.events()),
            ({
                let appended = final(self).console.events().skip(
                    old(self).console.events().len() as int,
                );
                &&& appended.len() >= 1
                &&& (appended.first() is SetupRequested)
                &&& (appended.first() == ConsoleEvent::SetupRequested(false) ==> appended.len()
                    == 1 && (result is Err))
                &&& (appended.first() == ConsoleEvent::SetupRequested(true) ==> (
                appended.last() is CleanupRequested))
            }),
    {
        let ghost trace0 = self.console.events();
        self.running = true;
        let ghost start = self@;
        proof {
            assert(start =~= (VmState {
                mem: old(self)@.mem,
                regs: old(self)@.regs,
                running: true,
            }));
        }
        match self.console.setup() {
            Err(_) => {
                proof {
                    assert(steps_ok(start, start, 0));
                    assert(reaches(start, start));
                    lemma_prefix_push(trace0, ConsoleEvent::SetupRequested(false));
                    assert(self.console.events().skip(trace0.len() as int) =~= seq![
                        ConsoleEvent::SetupRequested(false),
                    ]);
                }
                return Err(VmError::IoFailure);
            },
            Ok(_) => {},
        }
        let ghost trace1 = self.console.events();
        let mut fuel: u64 = u64::MAX;
        let ghost mut steps: nat = 0;
        proof {
            lemma_prefix_reflexive(trace1);
        }
        while self.running && fuel > 0
            invariant
                self.wf(),
                steps == u64::MAX - fuel,
                steps_ok(start, self@, steps),
                start == (VmState {
                    mem: old(self)@.mem,
                    regs: old(self)@.regs,
                    running: true,
                }),
                trace0 == old(self).console.events(),
                trace1 == trace0.push(ConsoleEvent::SetupRequested(true)),
                trace1.is_prefix_of(self.console.events()),
                self.console.io_reliable() == old(self).console.io_reliable(),
            decreases fuel,
        {
            let ghost prev = self@;
            let ghost trace_prev = self.console.events();
            match self.step() {
                Ok(_) => {
                    proof {
                        assert(machine_step(prev, self@));
                        lemma_steps_ok_snoc(start, prev, self@, steps);
                        steps = steps + 1;
                        lemma_prefix_transitive(trace1, trace_prev, self.console.events());
                    }
                    fuel = fuel - 1;
                },
                Err(e) => {
                    proof {
                        lemma_prefix_transitive(trace1, trace_prev, self.console.events());
                    }
                    let ghost trace_mid = self.console.events();
                    // The step's error is what the caller must see; the
                    // cleanup is still attempted on this exit path.
                    match self.console.cleanup() {
                        Ok(_) => {
                            proof {
                                lemma_run_bracket(trace0, trace_mid, self.console.events(), true);
                            }
                        },
                        Err(_) => {
                            proof {
                                lemma_run_bracket(
                                    trace0,
                                    trace_mid,
                                    self.console.events(),
                                    false,
                                );
                            }
                        },
                    }
                    proof {
                        assert(steps_ok(start, prev, steps));
                        assert(reaches(start, prev));
                    }
                    return Err(e);
                },
            }
        }
        let ghost trace_mid = self.console.events();
        match self.console.cleanup() {
            Err(_) => {
                proof {
                    assert(steps_ok(start, self@, steps));
                    assert(reaches(start, self@));
                    lemma_run_bracket(trace0, trace_mid, self.console.events(), false);
                }
                return Err(VmError::IoFailure);
            },
            Ok(_) => {},
        }
        proof {
            assert(steps_ok(start, self@, steps));
            lemma_run_bracket(trace0, trace_mid, self.console.events(), true);
        }
        Ok(())
    }

    /// Parses and loads a binary program image: a big-endian 16-bit origin
    /// address followed by big-endian 16-bit words, copied verbatim
    /// starting at the origin. Fails, leaving the machine untouched, only
    /// when the image is too short to hold its origin.
    pub fn load_image_bytes(&mut self, bytes: &Vec<u8>) -> (result: Result<(), VmError>)
        requires
            old(self).wf(),
        ensures
            final(self).wf(),
            match result {
                Ok(_) => bytes@.len() >= 2 && final(self)@ == (VmState {
                    mem: store_words(old(self)@.mem, image_origin(bytes@), image_words(bytes@)),
                    ..old(self)@
                }),
                Err(e) => {
                    &&& e == VmError::ImageLoadFailure
                    &&& bytes@.len() < 2
                    &&& final(self)@ == old(self)@
                },
            },
    {
        match parse_image(bytes) {
            Ok((origin, words)) => {
                self.load_image(origin, &words);
                Ok(())
            },
            Err(e) => Err(e),
        }
    }
}

/// After a successful raw-mode setup and a final cleanup call, the events
/// a run appended to the console's trace start with the setup and end with
/// the cleanup, whatever happened in between.
proof fn lemma_run_bracket(
    t0: Seq<ConsoleEvent>,
    t_mid: Seq<ConsoleEvent>,
    t_final: Seq<ConsoleEvent>,
    restored: bool,
)
    requires
        t0.push(ConsoleEvent::SetupRequested(true)).is_prefix_of(t_mid),
        t_final == t_mid.push(ConsoleEvent::CleanupRequested(restored)),
    ensures
        t0.is_prefix_of(t_final),
        ({
            let appended = t_final.skip(t0.len() as int);
            &&& appended.len() >= 1
            &&& appended.first() == ConsoleEvent::SetupRequested(true)
            &&& (appended.last() is CleanupRequested)
        }),
{
    let t1 = t0.push(ConsoleEvent::SetupRequested(true));
    assert(t1[t0.len() as int] == ConsoleEvent::SetupRequested(true));
    assert(t_mid[t0.len() as int] == t1[t0.len() as int]);
    assert(t_final[t0.len() as int] == t_mid[t0.len() as int]);
    assert forall|i: int| 0 <= i < t0.len() implies t0[i] == t_final[i] by {
        assert(t1[i] == t0[i]);
        assert(t1.subrange(0, t1.len() as int) =~= t1);
        assert(t_mid.subrange(0, t1.len() as int)[i] == t_mid[i]);
        assert(t_final[i] == t_mid[i]);
    }
    assert(t0.is_prefix_of(t_final)) by {
        assert(t0 =~= t_final.subrange(0, t0.len() as int));
    }
    let appended = t_final.skip(t0.len() as int);
    assert(appended.first() == t_final[t0.len() as int]);
    assert(appended.last() == t_final[t_final.len() - 1]);
    assert(t_final[t_final.len() - 1] == ConsoleEvent::CleanupRequested(restored));
}

/// Parses a binary program image into its origin address and words: all
/// 16-bit values are big-endian, and a trailing odd byte is ignored, as an
/// end of file. Fails only when the image is too short to hold its origin.
pub fn parse_image(bytes: &Vec<u8>) -> (result: Result<(u16, Vec<u16>), VmError>)
    ensures
        match result {
            Ok(image) => {
                &&& bytes@.len() >= 2
                &&& image.0 == image_origin(bytes@)
                &&& image.1@ == image_words(bytes@)
            },
            Err(e) => e == VmError::ImageLoadFailure && bytes@.len() < 2,
        },
{
    if bytes.len() < 2 {
        return Err(VmError::ImageLoadFailure);
    }
    let origin = (bytes[0] as u16) * 256 + (bytes[1] as u16);
    let n = bytes.len();
    let count = (n - 2) / 2;
    proof {
        assert(2 * ((bytes@.len() - 2) / 2) <= bytes@.len() - 2) by (nonlinear_arith)
            requires
                bytes@.len() >= 2,
        ;
    }
    let mut words: Vec<u16> = Vec::new();
    let mut j: usize = 0;
    while j < count
        invariant
            n == bytes@.len(),
            n >= 2,
            count == (bytes@.len() - 2) / 2,
            2 * count <= n - 2,
            j <= count,
            words@.len() == j,
            forall|k: int| 0 <= k < j ==> words@[k] == image_words(bytes@)[k],
        decreases count - j,
    {
        let word = (bytes[2 + 2 * j] as u16) * 256 + (bytes[3 + 2 * j] as u16);
        words.push(word);
        j = j + 1;
    }
    proof {
        assert(words@ =~= image_words(bytes@));
    }
    Ok((origin, words))
}

} // verus!
