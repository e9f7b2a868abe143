use evovm::compute::{Instruction, VM};
use evovm::model::MEM_SIZE;

fn loaded(program: &[u8]) -> VM {
    let mut vm = VM::new();
    vm.load_program(program);
    vm
}

#[test]
fn new_engine_is_blank() {
    let vm = VM::new();
    assert_eq!(vm.memory, [0u8; MEM_SIZE]);
    assert_eq!(vm.initial_state, [0u8; MEM_SIZE]);
    assert_eq!(vm.pc, 0);
    assert_eq!(vm.acc, 0);
    assert!(!vm.halted);
    assert_eq!(vm.total_steps_count, 0);
    assert!(vm.recent_instructions.is_empty());
    assert!(vm.recent_opcodes.is_empty());
}

#[test]
fn load_program_truncates_pads_and_resets() {
    let mut vm = VM::new();
    vm.load_program(&[0x01, 0x02, 0x03]);
    vm.acc = 9;
    vm.pc = 7;
    vm.halted = true;
    vm.total_steps_count = 55;
    vm.load_program(&[0x07, 0x07, 0x07, 0xFF]);
    assert_eq!(&vm.memory[..4], &[0x07, 0x07, 0x07, 0xFF]);
    assert_eq!(&vm.memory[4..], &[0u8; 252][..]);
    assert_eq!(vm.initial_state, vm.memory);
    assert_eq!(vm.pc, 0);
    assert_eq!(vm.acc, 0);
    assert!(!vm.halted);
    assert_eq!(vm.total_steps_count, 0);
    assert!(vm.recent_instructions.is_empty());

    let long = vec![0x07u8; 300];
    vm.load_program(&long);
    assert_eq!(vm.memory, [0x07u8; MEM_SIZE]);
}

#[test]
fn decode_covers_the_instruction_set() {
    assert_eq!(Instruction::from(0x00), Instruction::NOP);
    assert_eq!(Instruction::from(0x01), Instruction::LDA);
    assert_eq!(Instruction::from(0x02), Instruction::STA);
    assert_eq!(Instruction::from(0x03), Instruction::ADD);
    assert_eq!(Instruction::from(0x04), Instruction::SUB);
    assert_eq!(Instruction::from(0x05), Instruction::JMP);
    assert_eq!(Instruction::from(0x06), Instruction::JZ);
    assert_eq!(Instruction::from(0x07), Instruction::INC);
    assert_eq!(Instruction::from(0x08), Instruction::DEC);
    assert_eq!(Instruction::from(0x09), Instruction::SWP);
    assert_eq!(Instruction::from(0x0A), Instruction::CMP);
    assert_eq!(Instruction::from(0xFF), Instruction::HLT);
    assert_eq!(Instruction::from(0x0B), Instruction::HLT);
    assert_eq!(Instruction::from(0xC3), Instruction::HLT);
}

#[test]
fn canonical_opcodes_and_mnemonics() {
    assert_eq!(Instruction::INC.opcode_byte(), 0x07);
    assert_eq!(Instruction::HLT.opcode_byte(), 0xFF);
    assert_eq!(Instruction::from(0x4D).opcode_byte(), 0xFF);
    assert_eq!(Instruction::NOP.mnemonic(), "NOP");
    assert_eq!(Instruction::JZ.mnemonic(), "JZ");
    assert_eq!(Instruction::HLT.mnemonic(), "HLT");
}

#[test]
fn nop_only_advances_pc() {
    let mut vm = loaded(&[0x00]);
    vm.step();
    assert_eq!(vm.pc, 1);
    assert_eq!(vm.acc, 0);
    assert!(!vm.halted);
    assert_eq!(vm.total_steps_count, 1);
}

#[test]
fn lda_loads_from_the_operand_address() {
    let mut vm = loaded(&[0x01, 0x04, 0x00, 0x00, 0x2A]);
    vm.step();
    assert_eq!(vm.acc, 0x2A);
    assert_eq!(vm.pc, 2);
}

#[test]
fn sta_stores_to_the_operand_address() {
    let mut vm = loaded(&[0x02, 0x10]);
    vm.acc = 0x5C;
    vm.step();
    assert_eq!(vm.memory[0x10], 0x5C);
    assert_eq!(vm.pc, 2);
}

#[test]
fn add_wraps_modulo_256() {
    let mut vm = loaded(&[0x03, 0x03, 0x00, 200]);
    vm.acc = 100;
    vm.step();
    assert_eq!(vm.acc, 44);
    assert_eq!(vm.pc, 2);
}

#[test]
fn sub_wraps_modulo_256() {
    let mut vm = loaded(&[0x04, 0x03, 0x00, 5]);
    vm.acc = 3;
    vm.step();
    assert_eq!(vm.acc, 254);
    assert_eq!(vm.pc, 2);
}

#[test]
fn jmp_sets_pc_to_the_operand() {
    let mut vm = loaded(&[0x05, 0x80]);
    vm.step();
    assert_eq!(vm.pc, 0x80);
    assert!(!vm.halted);
}

#[test]
fn jz_jumps_only_on_zero() {
    let mut vm = loaded(&[0x06, 0x80]);
    vm.step();
    assert_eq!(vm.pc, 0x80);

    let mut vm = loaded(&[0x06, 0x80]);
    vm.acc = 1;
    vm.step();
    assert_eq!(vm.pc, 2);
}

#[test]
fn inc_wraps_at_255() {
    let mut vm = loaded(&[0x07]);
    vm.acc = 255;
    vm.step();
    assert_eq!(vm.acc, 0);
    assert_eq!(vm.pc, 1);
}

#[test]
fn dec_wraps_at_0() {
    let mut vm = loaded(&[0x08]);
    vm.step();
    assert_eq!(vm.acc, 255);
    assert_eq!(vm.pc, 1);
}

#[test]
fn swp_exchanges_acc_and_memory() {
    let mut vm = loaded(&[0x09, 0x03, 0x00, 0x11]);
    vm.acc = 0x22;
    vm.step();
    assert_eq!(vm.acc, 0x11);
    assert_eq!(vm.memory[3], 0x22);
    assert_eq!(vm.pc, 2);
}

#[test]
fn cmp_mutates_nothing_but_pc() {
    let mut vm = loaded(&[0x0A, 0x03, 0x00, 0x11]);
    vm.acc = 0x22;
    let memory_before = vm.memory;
    vm.step();
    assert_eq!(vm.acc, 0x22);
    assert_eq!(vm.memory, memory_before);
    assert_eq!(vm.pc, 2);
}

#[test]
fn hlt_halts_in_place() {
    let mut vm = loaded(&[0xFF]);
    vm.step();
    assert!(vm.halted);
    assert_eq!(vm.pc, 0);
    assert_eq!(vm.total_steps_count, 1);
}

#[test]
fn unknown_opcode_halts_like_hlt() {
    let mut vm = loaded(&[0xC3]);
    vm.step();
    assert!(vm.halted);
    assert_eq!(vm.pc, 0);
    assert_eq!(vm.total_steps_count, 1);
}

#[test]
fn step_on_halted_engine_changes_nothing() {
    let mut vm = loaded(&[0x07, 0xFF]);
    vm.run(100);
    assert!(vm.halted);
    let memory = vm.memory;
    let pc = vm.pc;
    let acc = vm.acc;
    let steps = vm.total_steps_count;
    let trace = vm.recent_instructions.clone();
    vm.step();
    vm.step();
    assert!(vm.halted);
    assert_eq!(vm.memory, memory);
    assert_eq!(vm.pc, pc);
    assert_eq!(vm.acc, acc);
    assert_eq!(vm.total_steps_count, steps);
    assert_eq!(vm.recent_instructions, trace);
}

#[test]
fn pc_past_memory_halts_without_a_step() {
    // JMP to the last cell, execute the NOP there, and walk off the end.
    let mut program = vec![0u8; MEM_SIZE];
    program[0] = 0x05;
    program[1] = 0xFF;
    let mut vm = loaded(&program);
    vm.step();
    assert_eq!(vm.pc, 0xFF);
    vm.step();
    assert_eq!(vm.pc, 0x100);
    assert!(!vm.halted);
    assert_eq!(vm.total_steps_count, 2);
    vm.step();
    assert!(vm.halted);
    assert_eq!(vm.total_steps_count, 2);
    vm.step();
    assert!(vm.halted);
    assert_eq!(vm.total_steps_count, 2);
}

#[test]
fn operand_read_past_memory_yields_zero() {
    // LDA sits in the very last cell, so its operand byte lies past the
    // end of memory and reads as zero: the accumulator gets memory[0].
    let mut program = vec![0u8; MEM_SIZE];
    program[0] = 0x05; // JMP 0xFF
    program[1] = 0xFF;
    program[0xFF] = 0x01; // LDA with no operand byte
    let mut vm = loaded(&program);
    vm.acc = 9;
    vm.step();
    vm.step();
    assert_eq!(vm.acc, 0x05); // memory[0]
    assert_eq!(vm.pc, 0x101);
}

#[test]
fn three_incs_then_halt_runs_four_steps() {
    let mut vm = loaded(&[0x07, 0x07, 0x07, 0xFF]);
    vm.run(1000);
    assert!(vm.halted);
    assert_eq!(vm.acc, 3);
    assert_eq!(vm.total_steps_count, 4);
}

#[test]
fn trace_window_is_capped_at_sixteen() {
    // INC/DEC/NOP keeps three distinct opcodes in every window, so the
    // engine walks the whole memory without stalling.
    let mut program = vec![0u8; MEM_SIZE];
    for i in 0..MEM_SIZE {
        program[i] = match i % 3 {
            0 => 0x07,
            1 => 0x08,
            _ => 0x00,
        };
    }
    let mut vm = loaded(&program);
    for _ in 0..5 {
        vm.step();
    }
    assert_eq!(vm.recent_instructions.len(), 5);
    assert_eq!(vm.recent_opcodes.len(), 5);
    for _ in 5..40 {
        vm.step();
    }
    assert_eq!(vm.recent_instructions.len(), 16);
    assert_eq!(vm.recent_opcodes.len(), 16);
    assert!(!vm.halted);
    assert_eq!(vm.total_steps_count, 40);
    for line in &vm.recent_instructions {
        assert!(!line.is_empty());
    }
}

#[test]
fn run_executes_until_the_halt() {
    let mut vm = loaded(&[0x07, 0x07, 0x07, 0xFF]);
    vm.run(2);
    assert!(!vm.halted);
    assert_eq!(vm.total_steps_count, 2);
    vm.run(1000);
    assert!(vm.halted);
    assert_eq!(vm.total_steps_count, 4);
    assert_eq!(vm.acc, 3);
}
