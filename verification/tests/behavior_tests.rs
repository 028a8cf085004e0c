use lc3_vm::{
    parse_image, sign_extend, CondFlag, FromU16, MemoryMappedRegister, OpCode, Register,
    ScriptedConsole, TrapCode, VmError, LC3,
};

#[test]
fn test_sign_extend_instruction_widths() {
    // Width 5 (ADD/AND immediates)
    assert_eq!(sign_extend(0b10000, 5), 0xFFF0);
    assert_eq!(sign_extend(0b01111, 5), 0x000F);
    // Width 6 (LDR/STR offsets)
    assert_eq!(sign_extend(0x20, 6), 0xFFE0);
    assert_eq!(sign_extend(0x1F, 6), 0x001F);
    // Width 9 (PC-relative offsets)
    assert_eq!(sign_extend(0x100, 9), 0xFF00);
    assert_eq!(sign_extend(0x0FF, 9), 0x00FF);
    // Width 11 (JSR offset)
    assert_eq!(sign_extend(0x400, 11), 0xFC00);
    assert_eq!(sign_extend(0x3FF, 11), 0x03FF);
}

#[test]
fn test_flag_values_are_exclusive() {
    let mut vm = LC3::new();
    // Exactly one flag word per outcome: POS = 1, ZRO = 2, NEG = 4.
    vm.registers.set(Register::R0, 1);
    vm.update_flags(Register::R0);
    assert_eq!(vm.registers.get_condition_flag(), 1);

    vm.registers.set(Register::R0, 0);
    vm.update_flags(Register::R0);
    assert_eq!(vm.registers.get_condition_flag(), 2);

    vm.registers.set(Register::R0, 0xFFFF);
    vm.update_flags(Register::R0);
    assert_eq!(vm.registers.get_condition_flag(), 4);

    // Boundary: 0x7FFF is positive, 0x8000 is negative.
    vm.registers.set(Register::R0, 0x7FFF);
    vm.update_flags(Register::R0);
    assert_eq!(vm.registers.get_condition_flag(), 1);

    vm.registers.set(Register::R0, 0x8000);
    vm.update_flags(Register::R0);
    assert_eq!(vm.registers.get_condition_flag(), 4);
}

#[test]
fn test_store_load_round_trip_addresses() {
    let mut vm = LC3::new();
    // Ordinary addresses, the lowest and highest included.
    for &(address, value) in
        [(0x0000u16, 0x1111u16), (0x2FFF, 0xFFFF), (0x8000, 0x0001), (0xFFFF, 0xABCD)].iter()
    {
        vm.mem_write(address, value);
        assert_eq!(vm.mem_read(address).unwrap(), value);
    }
    // The keyboard data word is plain storage too: it never auto-clears.
    vm.mem_write(MemoryMappedRegister::KBDR.address(), 0x4242);
    assert_eq!(vm.mem_read(MemoryMappedRegister::KBDR.address()).unwrap(), 0x4242);
}

#[test]
fn test_keyboard_status_read_side_effects() {
    // One key is pending.
    let mut vm = LC3::with_console(ScriptedConsole::with_input(vec![b'a']));
    let kbsr = MemoryMappedRegister::KBSR.address();
    let kbdr = MemoryMappedRegister::KBDR.address();

    // Reading the status address consumes the key: bit 15 of the status
    // word is set and the key lands in the data word.
    let status = vm.mem_read(kbsr).unwrap();
    assert_eq!(status, 0x8000);
    assert_eq!(vm.mem_read(kbdr).unwrap(), b'a' as u16);

    // Reading status again with no pending key clears the status word.
    assert_eq!(vm.mem_read(kbsr).unwrap(), 0);

    // The data word itself never auto-clears.
    assert_eq!(vm.mem_read(kbdr).unwrap(), b'a' as u16);
}

#[test]
fn test_pc_increments_before_execution() {
    // LEA R0, #0 at the origin, then HALT: R0 receives the address of the
    // *next* instruction, not of the LEA itself.
    let image = [0x30u8, 0x00, 0xE0, 0x00, 0xF0, 0x25];
    let mut vm = LC3::new();
    vm.load_image_bytes(&image.to_vec()).unwrap();
    vm.run().unwrap();
    assert!(!vm.running);
    assert_eq!(vm.registers.get(Register::R0), 0x3001);
}

#[test]
fn test_step_fetches_at_pc() {
    let mut vm = LC3::new();
    vm.mem_write(0x3000, 0x1042); // ADD R0, R1, R2
    vm.registers.set(Register::R1, 2);
    vm.registers.set(Register::R2, 3);
    vm.step().unwrap();
    assert_eq!(vm.registers.get(Register::R0), 5);
    assert_eq!(vm.registers.get(Register::PC), 0x3001);
}

#[test]
fn test_unsupported_opcodes() {
    let mut vm = LC3::new();
    // RTI
    assert_eq!(vm.execute_instruction(0x8000), Err(VmError::UnsupportedOpcode));
    // The reserved opcode
    assert_eq!(vm.execute_instruction(0xD000), Err(VmError::UnsupportedOpcode));
    // The machine is untouched.
    assert_eq!(vm.registers.get(Register::PC), 0x3000);
}

#[test]
fn test_unknown_trap_vector() {
    let mut vm = LC3::new();
    assert_eq!(vm.execute_instruction(0xF026), Err(VmError::UnknownTrap));
    // R7 was saved before the vector was decoded.
    assert_eq!(vm.registers.get(Register::R7), 0x3000);
}

#[test]
fn test_getc_without_input_is_io_failure() {
    // A scripted console with no input left fails a blocking read.
    let mut vm = LC3::new();
    assert_eq!(vm.execute_instruction(0xF020), Err(VmError::IoFailure));
}

#[test]
fn test_image_too_short() {
    assert_eq!(parse_image(&vec![0x30]), Err(VmError::ImageLoadFailure));
    let mut vm = LC3::new();
    assert_eq!(vm.load_image_bytes(&vec![0x30]), Err(VmError::ImageLoadFailure));
}

#[test]
fn test_parse_image_layout() {
    let bytes = vec![0x30, 0x00, 0xE0, 0x20, 0xF0, 0x25, 0xAB];
    let (origin, words) = parse_image(&bytes).unwrap();
    assert_eq!(origin, 0x3000);
    // Big-endian words after the origin; the trailing odd byte is ignored.
    assert_eq!(words, vec![0xE020, 0xF025]);
}

#[test]
fn test_loader_wraps_at_end_of_memory() {
    let mut vm = LC3::new();
    vm.load_image(0xFFFF, &vec![0x1111, 0x2222]);
    assert_eq!(vm.mem_read(0xFFFF).unwrap(), 0x1111);
    assert_eq!(vm.mem_read(0x0000).unwrap(), 0x2222);
}

#[test]
fn test_trap_getc_reads_key() {
    let mut vm = LC3::with_console(ScriptedConsole::with_input(vec![b'x']));
    vm.execute_instruction(0xF020).unwrap();
    assert_eq!(vm.registers.get(Register::R0), b'x' as u16);
    assert_eq!(vm.registers.get_condition_flag(), CondFlag::POS.to_u16());
    // GETC does not echo.
    assert!(vm.console.output().is_empty());
}

#[test]
fn test_trap_out_writes_low_byte() {
    let mut vm = LC3::new();
    vm.registers.set(Register::R0, 0x0279); // low byte 'y'
    vm.execute_instruction(0xF021).unwrap();
    assert_eq!(vm.console.output(), &vec![b'y']);
}

#[test]
fn test_trap_puts_writes_string() {
    let mut vm = LC3::new();
    vm.mem_write(0x5000, b'H' as u16);
    vm.mem_write(0x5001, b'i' as u16);
    vm.mem_write(0x5002, 0);
    vm.registers.set(Register::R0, 0x5000);
    vm.execute_instruction(0xF022).unwrap();
    assert_eq!(vm.console.output(), &b"Hi".to_vec());
}

#[test]
fn test_trap_in_prompts_and_echoes() {
    let mut vm = LC3::with_console(ScriptedConsole::with_input(vec![b'z']));
    vm.execute_instruction(0xF023).unwrap();
    assert_eq!(vm.registers.get(Register::R0), b'z' as u16);
    assert_eq!(vm.console.output(), &b"Enter a character: z".to_vec());
}

#[test]
fn test_trap_putsp_two_characters_per_word() {
    let mut vm = LC3::new();
    // Low byte first, then the high byte when it is not zero.
    vm.mem_write(0x5000, (b'H' as u16) | ((b'i' as u16) << 8));
    vm.mem_write(0x5001, b'!' as u16); // high byte zero: only one character
    vm.mem_write(0x5002, 0);
    vm.registers.set(Register::R0, 0x5000);
    vm.execute_instruction(0xF024).unwrap();
    assert_eq!(vm.console.output(), &b"Hi!".to_vec());
}

#[test]
fn test_trap_halt_announces_and_stops() {
    let mut vm = LC3::new();
    vm.running = true;
    vm.execute_instruction(0xF025).unwrap();
    assert!(!vm.running);
    assert_eq!(vm.console.output(), &b"HALT\n".to_vec());
}

#[test]
fn test_jsrr_base_r7_uses_saved_return_address() {
    // JSRR R7: R7 is saved first, then read back as the jump base, so the
    // PC receives the return address itself.
    let mut vm = LC3::new();
    vm.registers.set(Register::R7, 0x4000);
    vm.execute_instruction(0x41C0).unwrap();
    assert_eq!(vm.registers.get(Register::R7), 0x3000);
    assert_eq!(vm.registers.get(Register::PC), 0x3000);
}

#[test]
fn test_get_ptr_reaches_end_of_memory() {
    let mut vm = LC3::new();
    vm.mem_write(0xFFFE, 7);
    vm.mem_write(0xFFFF, 9);
    let tail = vm.memory.get_ptr(0xFFFE);
    assert_eq!(tail, &[7, 9]);
}

#[test]
fn test_opcode_decoding() {
    assert_eq!(OpCode::from_u16(0), OpCode::BR);
    assert_eq!(OpCode::from_u16(1), OpCode::ADD);
    assert_eq!(OpCode::from_u16(8), OpCode::RTI);
    assert_eq!(OpCode::from_u16(13), OpCode::RES);
    assert_eq!(OpCode::from_u16(15), OpCode::TRAP);
}

#[test]
fn test_trap_code_decoding() {
    assert_eq!(TrapCode::try_from_u16(0x20), Some(TrapCode::GETC));
    assert_eq!(TrapCode::try_from_u16(0x25), Some(TrapCode::HALT));
    assert_eq!(TrapCode::try_from_u16(0x1F), None);
    assert_eq!(TrapCode::try_from_u16(0x26), None);
}

#[test]
fn test_register_from_u16() {
    assert_eq!(Register::from_u16(0), Register::R0);
    assert_eq!(Register::from_u16(7), Register::R7);
}

#[test]
fn test_memory_mapped_addresses() {
    assert_eq!(MemoryMappedRegister::KBSR.address(), 0xFE00);
    assert_eq!(MemoryMappedRegister::KBDR.address(), 0xFE02);
}

#[test]
fn test_sti_indirection() {
    // STI writes through the address stored at PC + offset.
    let mut vm = LC3::new();
    vm.registers.set(Register::R1, 0x7777);
    vm.mem_write(0x3005, 0x6000); // indirection word
    vm.execute_instruction(0xB205).unwrap(); // STI R1, #5
    assert_eq!(vm.mem_read(0x6000).unwrap(), 0x7777);
    // LDI reads it back through the same chain.
    vm.execute_instruction(0xA405).unwrap(); // LDI R2, #5
    assert_eq!(vm.registers.get(Register::R2), 0x7777);
}

#[test]
fn test_trap_puts_empty_string() {
    // The string's first word is zero: nothing is written, and the service
    // cannot fail (no console write happens).
    let mut vm = LC3::new();
    vm.registers.set(Register::R0, 0x5000); // fresh memory is zeroed
    vm.execute_instruction(0xF022).unwrap();
    assert!(vm.console.output().is_empty());
}

#[test]
fn test_trap_puts_stops_at_top_of_memory() {
    // A string with no zero terminator ends at the top of the address
    // space rather than wrapping around.
    let mut vm = LC3::new();
    vm.mem_write(0xFFFE, b'a' as u16);
    vm.mem_write(0xFFFF, b'b' as u16);
    vm.registers.set(Register::R0, 0xFFFE);
    vm.execute_instruction(0xF022).unwrap();
    assert_eq!(vm.console.output(), &b"ab".to_vec());
}
