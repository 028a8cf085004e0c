//! The mathematical model of the LC-3 machine.
//!
//! A machine configuration is a [`VmState`]: the memory image, the register
//! file and the running flag, all as pure values. The meaning of every
//! instruction is a function or relation on `VmState`, and the contracts of
//! the executable emulator are stated over these definitions.

use vstd::prelude::*;
use vstd::string::StringSliceAdditionalSpecFns;

use crate::console::{poll_events, written_events, ConsoleEvent};

verus! {

/// Number of memory words: the machine addresses 0x0000..=0xFFFF.
pub const MEMORY_SIZE: usize = 65536;

/// Number of register-file slots: R0..R7, PC and COND.
pub const REGISTER_COUNT: usize = 10;

/// Index of the program counter in the register file.
pub const PC_INDEX: usize = 8;

/// Index of the condition-flag register in the register file.
pub const COND_INDEX: usize = 9;

/// Index of R7, the subroutine/trap return-address register.
pub const R7_INDEX: usize = 7;

/// Index of R0, the register the trap services read and write.
pub const R0_INDEX: usize = 0;

/// Address of the memory-mapped keyboard status word.
pub const KBSR_ADDRESS: u16 = 0xFE00;

/// Address of the memory-mapped keyboard data word.
pub const KBDR_ADDRESS: u16 = 0xFE02;

/// Address at which execution of a loaded program starts.
pub const PC_START: u16 = 0x3000;

/// Condition-flag value for a positive result.
pub const FLAG_POS: u16 = 1;

/// Condition-flag value for a zero result.
pub const FLAG_ZRO: u16 = 2;

/// Condition-flag value for a negative result (bit 15 set).
pub const FLAG_NEG: u16 = 4;

/// A machine configuration: memory, registers and the running flag.
#[verifier::ext_equal]
pub ghost struct VmState {
    /// The 65,536-word memory image.
    pub mem: Seq<u16>,
    /// The ten register slots, indexed by the `*_INDEX` constants.
    pub regs: Seq<u16>,
    /// True while the execution loop may fetch another instruction.
    pub running: bool,
}

impl VmState {
    /// Both components have their architectural sizes.
    pub open spec fn wf(self) -> bool {
        &&& self.mem.len() == MEMORY_SIZE
        &&& self.regs.len() == REGISTER_COUNT
    }

    /// The current program counter.
    pub open spec fn pc(self) -> u16 {
        self.regs[PC_INDEX as int]
    }
}

/// 16-bit wraparound addition, the arithmetic of every address and ADD.
pub open spec fn wrap_add(a: u16, b: u16) -> u16 {
    ((a + b) % 0x10000) as u16
}

/// Sign extension of the low `bit_count` bits of `x` to a 16-bit word:
/// if the top bit of the field is set, all bits from `bit_count` upward
/// are set; otherwise `x` is returned unchanged.
pub open spec fn sign_extend_spec(x: u16, bit_count: u16) -> u16 {
    if (x >> ((bit_count - 1) as u16)) & 1 != 0 {
        x | (0xFFFFu16 << bit_count)
    } else {
        x
    }
}

/// The condition flag an instruction records for a result value:
/// ZRO for zero, NEG when bit 15 is set, POS otherwise.
pub open spec fn flag_for(value: u16) -> u16 {
    if value == 0 {
        FLAG_ZRO
    } else if value >= 0x8000 {
        FLAG_NEG
    } else {
        FLAG_POS
    }
}

/// The memory after one keyboard poll.
///
/// When a key is pending, bit 15 of the status word is set and the key is
/// copied into the data word; when none is, the status word is cleared to
/// zero and the data word keeps whatever it held.
pub open spec fn poll_update(m: Seq<u16>, key: Option<u8>) -> Seq<u16> {
    match key {
        Some(b) => m.update(KBSR_ADDRESS as int, 0x8000u16).update(KBDR_ADDRESS as int, b as u16),
        None => m.update(KBSR_ADDRESS as int, 0u16),
    }
}

/// One memory read, as a relation between the memory before (`m0`) and
/// after (`m1`) and the value read.
///
/// Reading the keyboard status address first performs a poll, for some
/// console-determined key outcome, and returns the updated status word;
/// reading any other address, the data word included, returns the stored
/// word and changes nothing.
pub open spec fn read_rel(m0: Seq<u16>, address: u16, m1: Seq<u16>, value: u16) -> bool {
    if address == KBSR_ADDRESS {
        exists|key: Option<u8>| m1 == poll_update(m0, key) && value == m1[KBSR_ADDRESS as int]
    } else {
        m1 == m0 && value == m0[address as int]
    }
}

/// `m1` differs from `m0` at most at the keyboard-mapped words, and there
/// only in the ways a sequence of polls can produce.
pub open spec fn kb_only_changes(m0: Seq<u16>, m1: Seq<u16>) -> bool {
    &&& m1.len() == m0.len()
    &&& forall|a: int|
        0 <= a < m0.len() && a != KBSR_ADDRESS as int && a != KBDR_ADDRESS as int
            ==> m1[a] == m0[a]
    &&& (m1[KBSR_ADDRESS as int] == m0[KBSR_ADDRESS as int] || m1[KBSR_ADDRESS as int] == 0u16
        || m1[KBSR_ADDRESS as int] == 0x8000u16)
    &&& (m1[KBDR_ADDRESS as int] == m0[KBDR_ADDRESS as int] || m1[KBDR_ADDRESS as int] < 256)
}

/// Poll-only changes compose.
pub proof fn lemma_kb_only_changes_transitive(m0: Seq<u16>, m1: Seq<u16>, m2: Seq<u16>)
    requires
        kb_only_changes(m0, m1),
        kb_only_changes(m1, m2),
    ensures
        kb_only_changes(m0, m2),
{
}

/// A single read changes memory only as a poll can.
pub proof fn lemma_read_rel_kb_only_changes(m0: Seq<u16>, address: u16, m1: Seq<u16>, value: u16)
    requires
        m0.len() == MEMORY_SIZE,
        read_rel(m0, address, m1, value),
    ensures
        kb_only_changes(m0, m1),
{
    if address == KBSR_ADDRESS {
        let key = choose|key: Option<u8>|
            m1 == poll_update(m0, key) && value == m1[KBSR_ADDRESS as int];
        assert(m1 == poll_update(m0, key));
    }
}

/// One memory read together with the console events it causes: a read of
/// the keyboard status address performs exactly one poll and its trace
/// names the outcome (so a failed poll can never pass as a quiet "no key",
/// and a key the console reports pending is really consumed); any other
/// read makes no console call at all.
pub open spec fn read_rel_traced(
    m0: Seq<u16>,
    address: u16,
    m1: Seq<u16>,
    value: u16,
    t0: Seq<ConsoleEvent>,
    t1: Seq<ConsoleEvent>,
) -> bool {
    if address == KBSR_ADDRESS {
        exists|key: Option<u8>|
            m1 == #[trigger] poll_update(m0, key) && value == m1[KBSR_ADDRESS as int] && t1 == t0
                + poll_events(key)
    } else {
        m1 == m0 && value == m0[address as int] && t1 == t0
    }
}

// ---------------------------------------------------------------------
// Instruction fields
// ---------------------------------------------------------------------

/// The opcode: the high four bits of an instruction word.
pub open spec fn op_of(instr: u16) -> u16 {
    instr >> 12
}

/// Bits 11:9: the destination register of most instructions, and the
/// source register of ST and STI.
pub open spec fn dr_of(instr: u16) -> int {
    ((instr >> 9) & 0x7) as int
}

/// Bits 8:6: the first source register of ADD and AND, the sole source of
/// NOT, and the base register of JMP, JSRR, LDR and STR.
pub open spec fn sr1_of(instr: u16) -> int {
    ((instr >> 6) & 0x7) as int
}

/// Bits 2:0: the second source register of ADD and AND in register mode.
pub open spec fn sr2_of(instr: u16) -> int {
    (instr & 0x7) as int
}

/// Bit 5: set when ADD and AND take a sign-extended 5-bit immediate
/// instead of a second source register.
pub open spec fn imm_mode(instr: u16) -> bool {
    instr & 0x20 != 0
}

/// The sign-extended 5-bit immediate of ADD and AND.
pub open spec fn imm5_of(instr: u16) -> u16 {
    sign_extend_spec(instr & 0x1F, 5)
}

/// The sign-extended 6-bit offset of LDR and STR.
pub open spec fn off6_of(instr: u16) -> u16 {
    sign_extend_spec(instr & 0x3F, 6)
}

/// The sign-extended 9-bit PC-relative offset of BR, LD, LDI, LEA, ST and
/// STI.
pub open spec fn off9_of(instr: u16) -> u16 {
    sign_extend_spec(instr & 0x1FF, 9)
}

/// The sign-extended 11-bit PC-relative offset of JSR.
pub open spec fn off11_of(instr: u16) -> u16 {
    sign_extend_spec(instr & 0x7FF, 11)
}

/// Bit 11: distinguishes JSR (PC-relative) from JSRR (register-based).
pub open spec fn jsr_long(instr: u16) -> bool {
    (instr >> 11) & 1 != 0
}

/// The 8-bit trap vector of a TRAP instruction.
pub open spec fn trap_vector_of(instr: u16) -> u16 {
    instr & 0xFF
}

/// The trap vectors the machine services: 0x20 (GETC) through 0x25 (HALT).
pub open spec fn valid_trap_vector(vector: u16) -> bool {
    0x20 <= vector <= 0x25
}

/// The opcodes whose execution touches neither a memory read nor the
/// console: BR, ADD, ST, JSR, AND, STR, NOT, JMP and LEA. Executing one of
/// these never fails.
pub open spec fn pure_opcode(op: u16) -> bool {
    op == 0 || op == 1 || op == 3 || op == 4 || op == 5 || op == 7 || op == 9 || op == 12 || op
        == 14
}

// ---------------------------------------------------------------------
// Instruction meanings
// ---------------------------------------------------------------------

/// The register file after a flag-updating instruction writes `value` to
/// slot `dr`: the slot takes the value and the condition register takes
/// its flag. Every instruction that updates flags goes through this rule.
pub open spec fn regs_with_flags(regs: Seq<u16>, dr: int, value: u16) -> Seq<u16> {
    regs.update(dr, value).update(COND_INDEX as int, flag_for(value))
}

/// Writes `value` to register slot `dr` and records its condition flag.
pub open spec fn with_flags(s: VmState, dr: int, value: u16) -> VmState {
    VmState { regs: regs_with_flags(s.regs, dr, value), ..s }
}

/// ADD: DR := SR1 + SR2 (register mode) or SR1 + imm5, wrapping; flags.
pub open spec fn do_add(s: VmState, instr: u16) -> VmState {
    let rhs = if imm_mode(instr) {
        imm5_of(instr)
    } else {
        s.regs[sr2_of(instr)]
    };
    with_flags(s, dr_of(instr), wrap_add(s.regs[sr1_of(instr)], rhs))
}

/// AND: DR := SR1 & SR2 (register mode) or SR1 & imm5; flags.
pub open spec fn do_and(s: VmState, instr: u16) -> VmState {
    let rhs = if imm_mode(instr) {
        imm5_of(instr)
    } else {
        s.regs[sr2_of(instr)]
    };
    with_flags(s, dr_of(instr), s.regs[sr1_of(instr)] & rhs)
}

/// NOT: DR := bitwise complement of SR; flags.
pub open spec fn do_not(s: VmState, instr: u16) -> VmState {
    with_flags(s, dr_of(instr), !s.regs[sr1_of(instr)])
}

/// BR: if the instruction's flag mask (bits 11:9) meets the condition
/// register, PC += off9.
pub open spec fn do_br(s: VmState, instr: u16) -> VmState {
    if ((instr >> 9) & 0x7) & s.regs[COND_INDEX as int] != 0 {
        VmState {
            regs: s.regs.update(PC_INDEX as int, wrap_add(s.pc(), off9_of(instr))),
            ..s
        }
    } else {
        s
    }
}

/// JMP (and RET, its BaseR = R7 form): PC := BaseR.
pub open spec fn do_jmp(s: VmState, instr: u16) -> VmState {
    VmState { regs: s.regs.update(PC_INDEX as int, s.regs[sr1_of(instr)]), ..s }
}

/// JSR/JSRR: R7 := PC, then PC += off11 (long form) or PC := BaseR, the
/// base register being read after R7 is saved.
pub open spec fn do_jsr(s: VmState, instr: u16) -> VmState {
    let pc = s.pc();
    let saved = s.regs.update(R7_INDEX as int, pc);
    let target = if jsr_long(instr) {
        wrap_add(pc, off11_of(instr))
    } else {
        saved[sr1_of(instr)]
    };
    VmState { regs: saved.update(PC_INDEX as int, target), ..s }
}

/// LEA: DR := PC + off9; flags.
pub open spec fn do_lea(s: VmState, instr: u16) -> VmState {
    with_flags(s, dr_of(instr), wrap_add(s.pc(), off9_of(instr)))
}

/// ST: memory[PC + off9] := SR.
pub open spec fn do_st(s: VmState, instr: u16) -> VmState {
    VmState {
        mem: s.mem.update(wrap_add(s.pc(), off9_of(instr)) as int, s.regs[dr_of(instr)]),
        ..s
    }
}

/// STR: memory[BaseR + off6] := SR.
pub open spec fn do_str(s: VmState, instr: u16) -> VmState {
    VmState {
        mem: s.mem.update(
            wrap_add(s.regs[sr1_of(instr)], off6_of(instr)) as int,
            s.regs[dr_of(instr)],
        ),
        ..s
    }
}

/// LD: DR := memory[PC + off9] through one [`read_rel`] read; flags.
pub open spec fn ld_rel(s0: VmState, s1: VmState, instr: u16) -> bool {
    let address = wrap_add(s0.pc(), off9_of(instr));
    let value = s1.regs[dr_of(instr)];
    &&& read_rel(s0.mem, address, s1.mem, value)
    &&& s1.regs == regs_with_flags(s0.regs, dr_of(instr), value)
    &&& s1.running == s0.running
}

/// LDR: DR := memory[BaseR + off6] through one [`read_rel`] read; flags.
pub open spec fn ldr_rel(s0: VmState, s1: VmState, instr: u16) -> bool {
    let address = wrap_add(s0.regs[sr1_of(instr)], off6_of(instr));
    let value = s1.regs[dr_of(instr)];
    &&& read_rel(s0.mem, address, s1.mem, value)
    &&& s1.regs == regs_with_flags(s0.regs, dr_of(instr), value)
    &&& s1.running == s0.running
}

/// Two chained [`read_rel`] reads: the first, at `a1`, yields the address
/// `a2` and the intermediate memory `mid`; the second, at `a2`, yields
/// `value` and the final memory `m1`.
pub open spec fn two_reads(
    m0: Seq<u16>,
    a1: u16,
    mid: Seq<u16>,
    a2: u16,
    m1: Seq<u16>,
    value: u16,
) -> bool {
    read_rel(m0, a1, mid, a2) && read_rel(mid, a2, m1, value)
}

/// A [`read_rel`] read at `a1` yielding the address `a2`, followed by a
/// plain store of `value` at `a2`.
pub open spec fn read_then_write(
    m0: Seq<u16>,
    a1: u16,
    mid: Seq<u16>,
    a2: u16,
    m1: Seq<u16>,
    value: u16,
) -> bool {
    read_rel(m0, a1, mid, a2) && m1 == mid.update(a2 as int, value)
}

/// LDI: DR := memory[memory[PC + off9]], a two-level dereference through
/// two [`read_rel`] reads; flags.
pub open spec fn ldi_rel(s0: VmState, s1: VmState, instr: u16) -> bool {
    let address = wrap_add(s0.pc(), off9_of(instr));
    let value = s1.regs[dr_of(instr)];
    &&& exists|mid: Seq<u16>, indirect: u16|
        #[trigger] two_reads(s0.mem, address, mid, indirect, s1.mem, value)
    &&& s1.regs == regs_with_flags(s0.regs, dr_of(instr), value)
    &&& s1.running == s0.running
}

/// STI: memory[memory[PC + off9]] := SR, the indirect address coming from
/// one [`read_rel`] read.
pub open spec fn sti_rel(s0: VmState, s1: VmState, instr: u16) -> bool {
    let address = wrap_add(s0.pc(), off9_of(instr));
    &&& exists|mid: Seq<u16>, indirect: u16|
        #[trigger] read_then_write(s0.mem, address, mid, indirect, s1.mem, s0.regs[dr_of(instr)])
    &&& s1.regs == s0.regs
    &&& s1.running == s0.running
}

/// The machine state after GETC or IN reads `key`: R7 saved, the key in
/// R0, flags updated for it.
pub open spec fn do_read_key(s: VmState, key: u8) -> VmState {
    let saved = s.regs.update(R7_INDEX as int, s.pc());
    VmState {
        mem: s.mem,
        regs: regs_with_flags(saved, R0_INDEX as int, key as u16),
        running: s.running,
    }
}

/// TRAP: R7 := PC, then the service named by the vector runs. Keys read
/// from the console are arbitrary bytes; output leaves the machine state
/// alone except that PUTS and PUTSP may poll the keyboard while walking
/// memory.
pub open spec fn trap_rel(s0: VmState, s1: VmState, instr: u16) -> bool {
    let vector = trap_vector_of(instr);
    let saved = s0.regs.update(R7_INDEX as int, s0.pc());
    if vector == 0x20 || vector == 0x23 {
        // GETC and IN: some key ends up in R0, flags updated.
        exists|key: u8| s1 == do_read_key(s0, key)
    } else if vector == 0x21 {
        // OUT writes a byte; the machine state only saves R7.
        s1 == VmState { mem: s0.mem, regs: saved, running: s0.running }
    } else if vector == 0x22 || vector == 0x24 {
        // PUTS and PUTSP walk memory, which may poll the keyboard words.
        &&& s1.regs == saved
        &&& s1.running == s0.running
        &&& kb_only_changes(s0.mem, s1.mem)
    } else if vector == 0x25 {
        // HALT announces itself and clears the running flag.
        s1 == VmState { mem: s0.mem, regs: saved, running: false }
    } else {
        false
    }
}

/// The string walk of PUTS and PUTSP from `start`: it ends at the first
/// zero word, or at the top of memory when no zero word follows. This
/// predicate says the walk never touches the keyboard status address, so
/// the words it reads are exactly the stored ones.
pub open spec fn walk_clear(m: Seq<u16>, start: u16) -> bool
    decreases 0xFFFF - start,
{
    &&& start != KBSR_ADDRESS
    &&& (m[start as int] == 0 || start == 0xFFFF || walk_clear(m, (start + 1) as u16))
}

/// The bytes PUTS writes for the string at `start`: the low byte of each
/// word up to the first zero word, or up to the top of memory when no zero
/// word follows.
pub open spec fn puts_bytes(m: Seq<u16>, start: u16) -> Seq<u8>
    decreases 0xFFFF - start,
{
    if m[start as int] == 0 {
        Seq::<u8>::empty()
    } else if start == 0xFFFF {
        seq![(m[start as int] & 0xFF) as u8]
    } else {
        seq![(m[start as int] & 0xFF) as u8] + puts_bytes(m, (start + 1) as u16)
    }
}

/// The bytes PUTSP writes for one word: the low byte, then the high byte
/// when it is not zero.
pub open spec fn putsp_word_bytes(w: u16) -> Seq<u8> {
    if (w >> 8) & 0xFF == 0 {
        seq![(w & 0xFF) as u8]
    } else {
        seq![(w & 0xFF) as u8, ((w >> 8) & 0xFF) as u8]
    }
}

/// The bytes PUTSP writes for the string at `start`: two characters per
/// word, low byte first, up to the first zero word, or up to the top of
/// memory when no zero word follows.
pub open spec fn putsp_bytes(m: Seq<u16>, start: u16) -> Seq<u8>
    decreases 0xFFFF - start,
{
    if m[start as int] == 0 {
        Seq::<u8>::empty()
    } else if start == 0xFFFF {
        putsp_word_bytes(m[start as int])
    } else {
        putsp_word_bytes(m[start as int]) + putsp_bytes(m, (start + 1) as u16)
    }
}

/// What a successful TRAP hands to and takes from the console, as the
/// events (`t0` before, `t1` after) its service appends to the device's
/// trace.
///
/// GETC reads exactly one key and echoes nothing, and the key it read is
/// the word in R0; OUT hands over exactly the low byte of R0; IN writes
/// the prompt, reads one key, echoes exactly that key and stores it in R0;
/// HALT hands over its announcement; PUTS and PUTSP, when their walk stays
/// clear of the keyboard status word, hand over exactly the string's bytes
/// and leave memory unchanged.
pub open spec fn trap_trace_rel(
    s0: VmState,
    s1: VmState,
    instr: u16,
    t0: Seq<ConsoleEvent>,
    t1: Seq<ConsoleEvent>,
) -> bool {
    let vector = trap_vector_of(instr);
    let r0 = s0.regs[R0_INDEX as int];
    if vector == 0x20 {
        exists|key: u8|
            s1 == #[trigger] do_read_key(s0, key) && t1 == t0.push(
                ConsoleEvent::KeyRead(Some(key)),
            )
    } else if vector == 0x21 {
        t1 == t0.push(ConsoleEvent::ByteWritten((r0 & 0xFF) as u8, true))
    } else if vector == 0x22 {
        walk_clear(s0.mem, r0) ==> s1.mem == s0.mem && t1 == t0 + written_events(
            puts_bytes(s0.mem, r0),
        )
    } else if vector == 0x23 {
        exists|key: u8|
            s1 == #[trigger] do_read_key(s0, key) && t1 == t0 + seq![
                ConsoleEvent::TextWritten("Enter a character: ".spec_bytes(), true),
                ConsoleEvent::KeyRead(Some(key)),
                ConsoleEvent::ByteWritten(key, true),
            ]
    } else if vector == 0x24 {
        walk_clear(s0.mem, r0) ==> s1.mem == s0.mem && t1 == t0 + written_events(
            putsp_bytes(s0.mem, r0),
        )
    } else if vector == 0x25 {
        t1 == t0.push(ConsoleEvent::TextWritten("HALT\n".spec_bytes(), true))
    } else {
        true
    }
}

/// One successfully executed instruction, from the state after the PC
/// increment (`s0`) to the state after its effects (`s1`). RTI and the
/// reserved opcode never execute successfully.
pub open spec fn step_ok(s0: VmState, s1: VmState, instr: u16) -> bool {
    let op = op_of(instr);
    if op == 0 {
        s1 == do_br(s0, instr)
    } else if op == 1 {
        s1 == do_add(s0, instr)
    } else if op == 2 {
        ld_rel(s0, s1, instr)
    } else if op == 3 {
        s1 == do_st(s0, instr)
    } else if op == 4 {
        s1 == do_jsr(s0, instr)
    } else if op == 5 {
        s1 == do_and(s0, instr)
    } else if op == 6 {
        ldr_rel(s0, s1, instr)
    } else if op == 7 {
        s1 == do_str(s0, instr)
    } else if op == 9 {
        s1 == do_not(s0, instr)
    } else if op == 10 {
        ldi_rel(s0, s1, instr)
    } else if op == 11 {
        sti_rel(s0, s1, instr)
    } else if op == 12 {
        s1 == do_jmp(s0, instr)
    } else if op == 14 {
        s1 == do_lea(s0, instr)
    } else if op == 15 {
        trap_rel(s0, s1, instr)
    } else {
        false
    }
}

/// One fetch-decode-execute cycle: fetch the word at PC (a [`read_rel`]
/// read, so a fetch from the keyboard status address polls), increment PC,
/// then execute the fetched instruction. The PC increment comes first, so
/// every PC-relative offset is taken from the address after the current
/// instruction.
pub open spec fn fetch_execute_rel(s0: VmState, s1: VmState) -> bool {
    exists|fetched_mem: Seq<u16>, instr: u16|
        #[trigger] read_rel(s0.mem, s0.pc(), fetched_mem, instr) && step_ok(
            VmState {
                mem: fetched_mem,
                regs: s0.regs.update(PC_INDEX as int, wrap_add(s0.pc(), 1)),
                running: s0.running,
            },
            s1,
            instr,
        )
}

/// One step of the execution loop: the machine is running and performs one
/// fetch-decode-execute cycle.
pub open spec fn machine_step(s0: VmState, s1: VmState) -> bool {
    &&& s0.running
    &&& fetch_execute_rel(s0, s1)
}

/// `n` machine steps in sequence.
pub open spec fn steps_ok(s0: VmState, s1: VmState, n: nat) -> bool
    decreases n,
{
    if n == 0 {
        s1 == s0
    } else {
        exists|mid: VmState| machine_step(s0, mid) && steps_ok(mid, s1, (n - 1) as nat)
    }
}

/// `s1` is reachable from `s0` by machine steps.
pub open spec fn reaches(s0: VmState, s1: VmState) -> bool {
    exists|n: nat| steps_ok(s0, s1, n)
}

/// The state damage a failing step can leave: the running flag untouched,
/// memory changed only by keyboard polls, and the registers with only the
/// PC incremented — plus, for a failing trap, the return address saved to
/// R7.
pub open spec fn step_fail(s0: VmState, s1: VmState) -> bool {
    let pc1 = wrap_add(s0.pc(), 1);
    let fetched = s0.regs.update(PC_INDEX as int, pc1);
    &&& s1.running == s0.running
    &&& kb_only_changes(s0.mem, s1.mem)
    &&& (s1.regs == fetched || s1.regs == fetched.update(R7_INDEX as int, pc1))
}

/// The instruction fields that name registers are three bits wide, and the
/// opcode four: they stay below the register-file and opcode counts.
pub proof fn lemma_fields_bounded(instr: u16)
    ensures
        (instr >> 9) & 0x7 < 8,
        (instr >> 6) & 0x7 < 8,
        instr & 0x7 < 8,
        instr >> 12 < 16,
{
    assert(((instr >> 9) & 0x7) < 8 && ((instr >> 6) & 0x7) < 8 && (instr & 0x7) < 8 && (instr
        >> 12) < 16) by (bit_vector);
}

/// Masking to the low byte leaves a byte value.
pub proof fn lemma_low_byte(x: u16)
    ensures
        x & 0xFF < 256,
{
    assert(x & 0xFF < 256) by (bit_vector);
}

// ---------------------------------------------------------------------
// Program images
// ---------------------------------------------------------------------

/// The memory after copying `words` in, one address per word starting at
/// `origin`, addresses wrapping at the end of the address space.
pub open spec fn store_words(m: Seq<u16>, origin: u16, words: Seq<u16>) -> Seq<u16>
    decreases words.len(),
{
    if words.len() == 0 {
        m
    } else {
        store_words(m.update(origin as int, words.first()), wrap_add(origin, 1), words.drop_first())
    }
}

/// The origin address of a program image: its first two bytes, big-endian.
pub open spec fn image_origin(bytes: Seq<u8>) -> u16 {
    (bytes[0] * 256 + bytes[1]) as u16
}

/// The words of a program image: consecutive big-endian byte pairs after
/// the origin; a trailing odd byte is ignored.
pub open spec fn image_words(bytes: Seq<u8>) -> Seq<u16> {
    Seq::new(((bytes.len() - 2) / 2) as nat, |j: int| (bytes[2 + 2 * j] * 256 + bytes[3 + 2 * j]) as u16)
}

// ---------------------------------------------------------------------
// Laws
// ---------------------------------------------------------------------

/// Sign extension is two's-complement widening: for every field width the
/// instruction set uses and every input that fits the field, the result is
/// the input itself when the field's top bit is clear, and the input minus
/// 2^width, taken modulo 2^16, when it is set.
pub proof fn lemma_sign_extend_twos_complement(x: u16, bit_count: u16)
    requires
        bit_count == 5 || bit_count == 6 || bit_count == 9 || bit_count == 11,
        x < (1u16 << bit_count),
    ensures
        x < (1u16 << ((bit_count - 1) as u16)) ==> sign_extend_spec(x, bit_count) == x,
        x >= (1u16 << ((bit_count - 1) as u16)) ==> sign_extend_spec(x, bit_count) == (x + 0x10000
            - (1u16 << bit_count)) as u16,
{
    assert((bit_count == 5 || bit_count == 6 || bit_count == 9 || bit_count == 11) && x < (1u16
        << bit_count) ==> ((x < (1u16 << ((bit_count - 1) as u16)) ==> sign_extend_spec(
        x,
        bit_count,
    ) == x) && (x >= (1u16 << ((bit_count - 1) as u16)) ==> sign_extend_spec(x, bit_count) == (x
        + 0x10000 - (1u16 << bit_count)) as u16))) by (bit_vector);
}

/// The condition-flag rule records exactly one flag, and each flag holds
/// exactly when its condition does: ZRO iff the value is zero, NEG iff its
/// bit 15 is set, POS otherwise.
pub proof fn lemma_condition_flags(value: u16)
    ensures
        flag_for(value) == FLAG_POS || flag_for(value) == FLAG_ZRO || flag_for(value) == FLAG_NEG,
        flag_for(value) == FLAG_ZRO <==> value == 0,
        flag_for(value) == FLAG_NEG <==> (value >> 15) & 1 == 1,
        flag_for(value) == FLAG_POS <==> (value != 0 && (value >> 15) & 1 == 0),
{
    assert((value >= 0x8000 <==> (value >> 15) & 1 == 1) && (value < 0x8000 <==> (value >> 15) & 1
        == 0)) by (bit_vector);
}

/// Every flag-updating instruction stores its result and the flag for it
/// through [`regs_with_flags`]: afterwards the condition register holds
/// exactly the flag of the destination register's new value — one flag,
/// always, as [`lemma_condition_flags`] spells out.
pub proof fn lemma_flag_update_invariant(regs: Seq<u16>, dr: int, value: u16)
    requires
        regs.len() == REGISTER_COUNT,
        0 <= dr < 8,
    ensures
        regs_with_flags(regs, dr, value)[COND_INDEX as int] == flag_for(
            regs_with_flags(regs, dr, value)[dr],
        ),
        regs_with_flags(regs, dr, value)[dr] == value,
{
}

/// Store/load round trip: after writing `value` at a non-status address,
/// reading that address returns `value` and changes nothing — the keyboard
/// data word included.
pub proof fn lemma_store_load_round_trip(m: Seq<u16>, address: u16, value: u16)
    requires
        m.len() == MEMORY_SIZE,
        address != KBSR_ADDRESS,
    ensures
        read_rel(m.update(address as int, value), address, m.update(address as int, value), value),
{
}

/// The keyboard side effect, both outcomes of one poll: a pending key sets
/// bit 15 of the status word and lands in the data word; no pending key
/// clears the status word and leaves the data word alone (it never
/// auto-clears); no other address changes either way.
pub proof fn lemma_keyboard_poll(m: Seq<u16>, key: u8)
    requires
        m.len() == MEMORY_SIZE,
    ensures
        poll_update(m, Some(key))[KBSR_ADDRESS as int] == 0x8000u16,
        (0x8000u16 >> 15) & 1 == 1,
        poll_update(m, Some(key))[KBDR_ADDRESS as int] == key as u16,
        poll_update(m, None)[KBSR_ADDRESS as int] == 0u16,
        poll_update(m, None)[KBDR_ADDRESS as int] == m[KBDR_ADDRESS as int],
        forall|a: int|
            0 <= a < m.len() && a != KBSR_ADDRESS as int && a != KBDR_ADDRESS as int
                ==> poll_update(m, Some(key))[a] == m[a] && poll_update(m, None)[a] == m[a],
{
    assert((0x8000u16 >> 15) & 1 == 1) by (bit_vector);
}

/// LDI with no keyboard word on either level is the pure two-level
/// dereference: the destination register receives
/// memory[memory[PC + off9]] and memory does not change.
pub proof fn lemma_ldi_two_level(s0: VmState, s1: VmState, instr: u16)
    requires
        s0.wf(),
        ldi_rel(s0, s1, instr),
        wrap_add(s0.pc(), off9_of(instr)) != KBSR_ADDRESS,
        s0.mem[wrap_add(s0.pc(), off9_of(instr)) as int] != KBSR_ADDRESS,
    ensures
        s1.mem == s0.mem,
        s1.regs[dr_of(instr)] == s0.mem[s0.mem[wrap_add(s0.pc(), off9_of(instr)) as int] as int],
{
    let address = wrap_add(s0.pc(), off9_of(instr));
    let value = s1.regs[dr_of(instr)];
    let (mid, indirect) = choose|mid: Seq<u16>, indirect: u16|
        #[trigger] two_reads(s0.mem, address, mid, indirect, s1.mem, value);
    assert(read_rel(s0.mem, address, mid, indirect));
    assert(read_rel(mid, indirect, s1.mem, value));
}

/// STI with a non-status indirection address is the pure two-level store:
/// memory[memory[PC + off9]] receives SR and nothing else changes.
pub proof fn lemma_sti_two_level(s0: VmState, s1: VmState, instr: u16)
    requires
        s0.wf(),
        sti_rel(s0, s1, instr),
        wrap_add(s0.pc(), off9_of(instr)) != KBSR_ADDRESS,
    ensures
        s1.mem == s0.mem.update(
            s0.mem[wrap_add(s0.pc(), off9_of(instr)) as int] as int,
            s0.regs[dr_of(instr)],
        ),
        s1.regs == s0.regs,
{
    let address = wrap_add(s0.pc(), off9_of(instr));
    let (mid, indirect) = choose|mid: Seq<u16>, indirect: u16|
        #[trigger] read_then_write(s0.mem, address, mid, indirect, s1.mem, s0.regs[dr_of(instr)]);
    assert(read_rel(s0.mem, address, mid, indirect));
}

/// The PC is incremented before an instruction's effects are applied: a
/// step that fetches an LEA (from a non-status address) loads the address
/// computed from the PC of the *next* instruction.
pub proof fn lemma_pc_incremented_before_execute(s0: VmState, s1: VmState)
    requires
        s0.wf(),
        machine_step(s0, s1),
        s0.pc() != KBSR_ADDRESS,
        op_of(s0.mem[s0.pc() as int]) == 14,
    ensures
        s1.regs[dr_of(s0.mem[s0.pc() as int])] == wrap_add(
            wrap_add(s0.pc(), 1),
            off9_of(s0.mem[s0.pc() as int]),
        ),
{
    let (fetched_mem, instr) = choose|fetched_mem: Seq<u16>, instr: u16|
        #[trigger] read_rel(s0.mem, s0.pc(), fetched_mem, instr) && step_ok(
            VmState {
                mem: fetched_mem,
                regs: s0.regs.update(PC_INDEX as int, wrap_add(s0.pc(), 1)),
                running: s0.running,
            },
            s1,
            instr,
        );
    lemma_fields_bounded(instr);
}

/// The same, for a taken branch: a step that fetches a BR (from a
/// non-status address) whose flag mask meets the condition register sets
/// the PC to (PC + 1) + off9 — the offset counts from the address after
/// the branch.
pub proof fn lemma_branch_relative_to_incremented_pc(s0: VmState, s1: VmState)
    requires
        s0.wf(),
        machine_step(s0, s1),
        s0.pc() != KBSR_ADDRESS,
        op_of(s0.mem[s0.pc() as int]) == 0,
        ((s0.mem[s0.pc() as int] >> 9) & 0x7) & s0.regs[COND_INDEX as int] != 0,
    ensures
        s1.regs[PC_INDEX as int] == wrap_add(
            wrap_add(s0.pc(), 1),
            off9_of(s0.mem[s0.pc() as int]),
        ),
{
    let (fetched_mem, instr) = choose|fetched_mem: Seq<u16>, instr: u16|
        #[trigger] read_rel(s0.mem, s0.pc(), fetched_mem, instr) && step_ok(
            VmState {
                mem: fetched_mem,
                regs: s0.regs.update(PC_INDEX as int, wrap_add(s0.pc(), 1)),
                running: s0.running,
            },
            s1,
            instr,
        );
}

/// A machine that is not running takes no step: the halted and faulted
/// states are terminal for the execution loop.
pub proof fn lemma_halted_takes_no_step(s0: VmState, s1: VmState)
    requires
        !s0.running,
    ensures
        !machine_step(s0, s1),
{
}

/// Only a HALT trap stops the machine: an executed instruction that
/// changes the running flag is TRAP with vector 0x25, and it clears the
/// flag.
pub proof fn lemma_only_halt_clears_running(s0: VmState, s1: VmState, instr: u16)
    requires
        step_ok(s0, s1, instr),
        s1.running != s0.running,
    ensures
        op_of(instr) == 15,
        trap_vector_of(instr) == 0x25,
        !s1.running,
{
    let vector = trap_vector_of(instr);
    if op_of(instr) == 15 && (vector == 0x20 || vector == 0x23) {
        let key = choose|key: u8| s1 == do_read_key(s0, key);
        assert(s1.running == s0.running);
    }
}

/// A step sequence extends by one step at its end.
pub proof fn lemma_steps_ok_snoc(s0: VmState, s1: VmState, s2: VmState, n: nat)
    requires
        steps_ok(s0, s1, n),
        machine_step(s1, s2),
    ensures
        steps_ok(s0, s2, n + 1),
    decreases n,
{
    if n == 0 {
        assert(steps_ok(s2, s2, 0));
        assert(machine_step(s0, s2) && steps_ok(s2, s2, 0));
    } else {
        let mid = choose|mid: VmState| machine_step(s0, mid) && steps_ok(mid, s1, (n - 1) as nat);
        lemma_steps_ok_snoc(mid, s1, s2, (n - 1) as nat);
        assert(machine_step(s0, mid) && steps_ok(mid, s2, ((n + 1) - 1) as nat));
    }
}

} // verus!
