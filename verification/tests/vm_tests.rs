use lc3_vm::{CondFlag, FromU16, MemoryMappedRegister, Register, ScriptedConsole, LC3};

// Setup a VM with a simple program given as raw image bytes
fn setup_vm_with_program(program_bytes: &[u8]) -> LC3<ScriptedConsole> {
    let mut vm = LC3::new();
    vm.load_image_bytes(&program_bytes.to_vec())
        .expect("Failed to read test program");
    vm
}

#[test]
fn test_new_vm_initialization() {
    let vm = LC3::new();

    // Check PC is initialized to starting position 0x3000
    assert_eq!(vm.registers.get(Register::PC), 0x3000);

    // Check registers are initialized to 0
    for i in 0..8 {
        assert_eq!(vm.registers.get(Register::from_u16(i)), 0);
    }

    // Check condition flag is initialized
    assert_eq!(vm.registers.get_condition_flag(), CondFlag::ZRO.to_u16());

    // Check that running flag is initialized to false
    assert!(!vm.running);
}

#[test]
fn test_sign_extend() {
    // Test with positive numbers
    assert_eq!(lc3_vm::sign_extend(0x000F, 5), 0x000F); // 5-bit positive number (01111)

    // Test with negative numbers
    assert_eq!(lc3_vm::sign_extend(0x0010, 5), 0xFFF0); // 5-bit negative number (10000)

    // Test with different bit widths
    // 8-bit positive number (01111111)
    assert_eq!(lc3_vm::sign_extend(0x007F, 8), 0x007F);

    // 8-bit negative number (10000000)
    assert_eq!(lc3_vm::sign_extend(0x0080, 8), 0xFF80);

    // 8-bit negative number (11111111)
    assert_eq!(lc3_vm::sign_extend(0x00FF, 8), 0xFFFF);

    // 9-bit positive number (000000000)
    assert_eq!(lc3_vm::sign_extend(0x0000, 9), 0x0000);

    // 9-bit positive number (000000001)
    assert_eq!(lc3_vm::sign_extend(0x0001, 9), 0x0001);

    // 9-bit positive number (011111111) - 0x00FF is positive in 9-bit
    assert_eq!(lc3_vm::sign_extend(0x00FF, 9), 0x00FF);

    // 9-bit negative number (100000000)
    assert_eq!(lc3_vm::sign_extend(0x0100, 9), 0xFF00);
}

#[test]
fn test_update_flags() {
    let mut vm = LC3::new();

    // Test with positive value
    vm.registers.set(Register::R0, 42);
    vm.update_flags(Register::R0);
    assert_eq!(vm.registers.get_condition_flag(), CondFlag::POS.to_u16());

    // Test with zero value
    vm.registers.set(Register::R1, 0);
    vm.update_flags(Register::R1);
    assert_eq!(vm.registers.get_condition_flag(), CondFlag::ZRO.to_u16());

    // Test with negative value (high bit set)
    vm.registers.set(Register::R2, 0x8000); // 1000 0000 0000 0000 in binary
    vm.update_flags(Register::R2);
    assert_eq!(vm.registers.get_condition_flag(), CondFlag::NEG.to_u16());
}

#[test]
fn test_memory_read_write() {
    let mut vm = LC3::new();

    // Test writing to and reading from normal memory location
    let test_address = 0x4000;
    let test_value = 0xABCD;

    vm.mem_write(test_address, test_value);
    assert_eq!(vm.mem_read(test_address).unwrap(), test_value);

    // Test memory-mapped registers (no key is pending on a fresh console)
    // Just check that reading from KBSR doesn't crash
    let _value = vm.mem_read(MemoryMappedRegister::KBSR.address()).unwrap();
}

#[test]
fn test_add_instruction() {
    let mut vm = LC3::new();

    // Test ADD with register mode: ADD R0, R1, R2
    // R0 = R1 + R2
    vm.registers.set(Register::R1, 5);
    vm.registers.set(Register::R2, 10);

    // Instruction format: 0001 (ADD) 000 (R0) 001 (R1) 0 00 010 (R2)
    // Binary: 0001 0000 0100 0010 = 0x1042
    vm.execute_instruction(0x1042).unwrap();

    assert_eq!(vm.registers.get(Register::R0), 15);
    assert_eq!(vm.registers.get_condition_flag(), CondFlag::POS.to_u16());

    // Test ADD with immediate mode: ADD R3, R1, #-2
    // R3 = R1 + (-2)
    // Instruction format: 0001 (ADD) 011 (R3) 001 (R1) 1 11110 (-2 in 5 bits)
    // Binary: 0001 0110 0111 1110 = 0x167E
    vm.execute_instruction(0x167E).unwrap();

    assert_eq!(vm.registers.get(Register::R3), 3);
    assert_eq!(vm.registers.get_condition_flag(), CondFlag::POS.to_u16());

    // Test ADD that sets negative flag
    vm.registers.set(Register::R1, 0x7FFF); // Max positive 16-bit number
    vm.registers.set(Register::R2, 1);
    // ADD R4, R1, R2  (will overflow to negative)
    // Instruction format: 0001 (ADD) 100 (R4) 001 (R1) 0 00 010 (R2)
    // Binary: 0001 1000 0100 0010 = 0x1842
    vm.execute_instruction(0x1842).unwrap();

    assert_eq!(vm.registers.get(Register::R4), 0x8000); // Smallest negative 16-bit number
    assert_eq!(vm.registers.get_condition_flag(), CondFlag::NEG.to_u16());
}

#[test]
fn test_and_instruction() {
    let mut vm = LC3::new();

    // Test AND with register mode: AND R0, R1, R2
    vm.registers.set(Register::R1, 0x00FF); // 0000 0000 1111 1111
    vm.registers.set(Register::R2, 0xFF00); // 1111 1111 0000 0000

    // Instruction format: 0101 (AND) 000 (R0) 001 (R1) 0 00 010 (R2)
    // Binary: 0101 0000 0100 0010 = 0x5042
    vm.execute_instruction(0x5042).unwrap();

    assert_eq!(vm.registers.get(Register::R0), 0x0000); // Result should be all zeros
    assert_eq!(vm.registers.get_condition_flag(), CondFlag::ZRO.to_u16());

    // Test AND with immediate mode: AND R3, R1, #15
    // Instruction format: 0101 (AND) 011 (R3) 001 (R1) 1 01111 (15 in 5 bits)
    // Binary: 0101 0110 0110 1111 = 0x566F
    vm.execute_instruction(0x566F).unwrap();

    assert_eq!(vm.registers.get(Register::R3), 15); // 0x00FF & 0x000F = 0x000F = 15
    assert_eq!(vm.registers.get_condition_flag(), CondFlag::POS.to_u16());
}

#[test]
fn test_not_instruction() {
    let mut vm = LC3::new();

    // Test NOT: NOT R0, R1
    vm.registers.set(Register::R1, 0xAAAA); // 1010 1010 1010 1010

    // Instruction format: 1001 (NOT) 000 (R0) 001 (R1) 1 11111
    // Binary: 1001 0000 0111 1111 = 0x907F
    vm.execute_instruction(0x907F).unwrap();

    assert_eq!(vm.registers.get(Register::R0), 0x5555); // 0101 0101 0101 0101
    assert_eq!(vm.registers.get_condition_flag(), CondFlag::POS.to_u16());

    // Test NOT that results in negative number
    vm.registers.set(Register::R1, 0x0000);
    vm.execute_instruction(0x907F).unwrap(); // Same instruction, different input

    assert_eq!(vm.registers.get(Register::R0), 0xFFFF);
    assert_eq!(vm.registers.get_condition_flag(), CondFlag::NEG.to_u16());
}

#[test]
fn test_branch_instruction() {
    let mut vm = LC3::new();

    // Setup initial PC
    vm.registers.set(Register::PC, 0x3000);

    // Set condition flag to positive
    vm.registers.set_condition_flag(CondFlag::POS);

    // Test BRp (Branch if positive): BRp #10
    // Instruction format: 0000 (BR) 001 (p flag) 0000001010 (offset 10)
    // Binary: 0000 0010 0000 1010 = 0x020A
    vm.execute_instruction(0x020A).unwrap();

    // PC should be updated to 0x3000 + 10 = 0x300A
    assert_eq!(vm.registers.get(Register::PC), 0x300A);

    // Test BRz with positive flag (shouldn't branch)
    // Instruction format: 0000 (BR) 010 (z flag) 0000001010 (offset 10)
    // Binary: 0000 0100 0000 1010 = 0x040A
    vm.execute_instruction(0x040A).unwrap();

    // PC should remain 0x300A since condition flag doesn't match
    assert_eq!(vm.registers.get(Register::PC), 0x300A);

    // Test BRnzp (unconditional branch)
    // Instruction format: 0000 (BR) 111 (all flags) 1111111100 (offset -4)
    // Binary: 0000 1111 1111 1100 = 0x0FFC
    vm.execute_instruction(0x0FFC).unwrap();

    // PC should be 0x300A + (-4) = 0x3006
    assert_eq!(vm.registers.get(Register::PC), 0x3006);
}

#[test]
fn test_jump_instruction() {
    let mut vm = LC3::new();

    // Setup initial PC and registers
    vm.registers.set(Register::PC, 0x3000);
    vm.registers.set(Register::R3, 0x4000);

    // Test JMP: JMP R3
    // Binary: 1100 0000 1100 0000 = 0xC0C0
    vm.execute_instruction(0xC0C0).unwrap();

    // Check that PC equals the value in R3
    assert_eq!(vm.registers.get(Register::PC), 0x4000);

    // Test RET (JMP R7)
    // Reset PC
    vm.registers.set(Register::PC, 0x3000);

    // Set R7
    vm.registers.set(Register::R7, 0x5000);

    // Execute RET (JMP R7)
    vm.execute_instruction(0xC1C0).unwrap();

    // Check that PC equals the value in R7
    assert_eq!(vm.registers.get(Register::PC), 0x5000);
}

#[test]
fn test_jsr_instruction() {
    let mut vm = LC3::new();

    // Setup initial PC and registers
    vm.registers.set(Register::PC, 0x3000);
    vm.registers.set(Register::R3, 0x4000);

    // Test JSR
    // Binary: 0100 1000 0010 0100 = 0x4824
    vm.execute_instruction(0x4824).unwrap();

    // R7 should store the old PC
    assert_eq!(vm.registers.get(Register::R7), 0x3000);

    // PC should be updated with the PC-relative offset
    assert_eq!(vm.registers.get(Register::PC), 0x3024);

    // Reset for JSRR test
    vm.registers.set(Register::PC, 0x3000);
    vm.registers.set(Register::R7, 0);

    // Test JSRR
    vm.execute_instruction(0x40C0).unwrap();

    // R7 should store the old PC
    assert_eq!(vm.registers.get(Register::R7), 0x3000);

    // PC should be loaded with R3
    assert_eq!(vm.registers.get(Register::PC), 0x4000);
}

#[test]
fn test_load_instructions() {
    let mut vm = LC3::new();

    // Setup PC and memory
    vm.registers.set(Register::PC, 0x3000);

    // Setup memory for LD test
    vm.mem_write(0x3000 + 100, 0xABCD); // Value to load directly

    // Setup memory for LDI test
    vm.mem_write(0x3000 + 110, 0x4000); // Address for indirect load
    vm.mem_write(0x4000, 0xBEEF); // Value at indirect address

    // Test LD: LD R0, #100
    // Load from memory at PC + offset
    // Instruction format: 0010 (LD) 000 (R0) 001100100 (offset 100)
    // Binary: 0010 0000 0110 0100 = 0x2064
    vm.execute_instruction(0x2064).unwrap();

    // R0 should contain the value at address PC + 100
    assert_eq!(vm.registers.get(Register::R0), 0xABCD);
    assert_eq!(vm.registers.get_condition_flag(), CondFlag::NEG.to_u16());

    // Test LDI: LDI R1, #110
    // Load from memory at address stored at PC + offset
    // Instruction format: 1010 (LDI) 001 (R1) 001101110 (offset 110)
    // Binary: 1010 0010 0110 1110 = 0xA26E
    vm.execute_instruction(0xA26E).unwrap();

    // R1 should contain the value at address stored at PC + 110
    assert_eq!(vm.registers.get(Register::R1), 0xBEEF);
    assert_eq!(vm.registers.get_condition_flag(), CondFlag::NEG.to_u16());

    // Test LDR: LDR R2, R3, #5
    // Load from memory at BaseR + offset
    vm.registers.set(Register::R3, 0x5000);
    vm.mem_write(0x5005, 0x1234);

    // Instruction format: 0110 (LDR) 010 (R2) 011 (R3) 000101 (offset 5)
    // Binary: 0110 0100 1100 0101 = 0x64C5
    vm.execute_instruction(0x64C5).unwrap();

    // R2 should contain the value at address R3 + 5
    assert_eq!(vm.registers.get(Register::R2), 0x1234);
    assert_eq!(vm.registers.get_condition_flag(), CondFlag::POS.to_u16());

    // Test LEA: LEA R4, #50
    // Load the effective address (PC + offset)
    // Instruction format: 1110 (LEA) 100 (R4) 000110010 (offset 50)
    // Binary: 1110 1000 0011 0010 = 0xE832
    vm.execute_instruction(0xE832).unwrap();

    // R4 should contain the effective address PC + 50
    assert_eq!(vm.registers.get(Register::R4), 0x3000 + 50);
    assert_eq!(vm.registers.get_condition_flag(), CondFlag::POS.to_u16());
}

#[test]
fn test_store_instructions() {
    let mut vm = LC3::new();

    // Setup PC and registers
    vm.registers.set(Register::PC, 0x3000);
    vm.registers.set(Register::R0, 0xAAAA);
    vm.registers.set(Register::R1, 0xBBBB);
    vm.registers.set(Register::R2, 0xCCCC);
    vm.registers.set(Register::R3, 0x5000);

    // Test ST: ST R0, #100
    // Store to memory at PC + offset
    // Instruction format: 0011 (ST) 000 (R0) 001100100 (offset 100)
    // Binary: 0011 0000 0110 0100 = 0x3064
    vm.execute_instruction(0x3064).unwrap();

    // Memory at PC + 100 should contain the value from R0
    assert_eq!(vm.mem_read(0x3000 + 100).unwrap(), 0xAAAA);

    // Test STI: STI R1, #110
    // Store to memory at address stored at PC + offset
    vm.mem_write(0x3000 + 110, 0x4000); // Address for indirect store

    // Instruction format: 1011 (STI) 001 (R1) 001101110 (offset 110)
    // Binary: 1011 0010 0110 1110 = 0xB26E
    vm.execute_instruction(0xB26E).unwrap();

    // Memory at address stored at PC + 110 should contain the value from R1
    assert_eq!(vm.mem_read(0x4000).unwrap(), 0xBBBB);

    // Test STR: STR R2, R3, #5
    // Store to memory at BaseR + offset
    // Instruction format: 0111 (STR) 010 (R2) 011 (R3) 000101 (offset 5)
    // Binary: 0111 0100 1100 0101 = 0x74C5
    vm.execute_instruction(0x74C5).unwrap();

    // Memory at R3 + 5 should contain the value from R2
    assert_eq!(vm.mem_read(0x5000 + 5).unwrap(), 0xCCCC);
}

#[test]
fn test_trap_instructions() {
    let mut vm = LC3::new();

    // Test HALT trap; the other traps need console input/output and are
    // exercised through the scripted console elsewhere.
    vm.running = true;

    // Instruction format: 1111 (TRAP) 0000 00100101 (HALT = 0x25)
    // Binary: 1111 0000 0010 0101 = 0xF025
    vm.execute_instruction(0xF025).unwrap();

    // VM should no longer be running
    assert!(!vm.running);
}

#[test]
fn test_basic_program() {
    let program_bytes = [
        0x30, 0x00, // Origin
        0xE0, 0x20, // LEA R0, #32
        0x10, 0x20, // ADD R0, R0, #0
        0x12, 0x7F, // ADD R1, R0, #-1
        0x14, 0xA0, // ADD R2, R1, R0
        0x34, 0x01, // ST R2, #1
        0xF0, 0x25, // TRAP x25
    ];

    let mut vm = setup_vm_with_program(&program_bytes);
    vm.run().unwrap();

    // Verify the VM has halted
    assert!(!vm.running);

    // Verify register values match the instruction semantics
    assert_eq!(vm.registers.get(Register::R0), 0x3021);
    assert_eq!(vm.registers.get(Register::R1), 0xFFFF);
    assert_eq!(vm.registers.get(Register::R2), 0x0000);

    // Verify the program words were loaded at the origin
    assert_eq!(vm.mem_read(0x3001).unwrap(), 0x1020);
}
