//! The execution engine: a 256-cell, 8-bit virtual machine.

use crate::model::{
    at_most_two_distinct, canon, covered_by_two, decode, exec_effect, mnemonic_spec,
    mutated_pair, mutation_witness, push_trace, read_at, stall_detected, step_spec, steps_spec,
    write_at, VmAbs, MEM_SIZE, TRACE_CAP,
};
use vstd::prelude::*;

verus! {

/// One decoded instruction. Every opcode byte outside the set decodes to
/// `HLT`, so an evolved program can never fault the machine.
#[allow(non_camel_case_types)]
#[derive(Debug, Clone, Copy, PartialEq, Eq, Structural)]
pub enum Instruction {
    /// No operation.
    NOP,
    /// Load the accumulator from memory.
    LDA,
    /// Store the accumulator to memory.
    STA,
    /// Add a memory cell to the accumulator, modulo 256.
    ADD,
    /// Subtract a memory cell from the accumulator, modulo 256.
    SUB,
    /// Jump to the operand address.
    JMP,
    /// Jump to the operand address when the accumulator is zero.
    JZ,
    /// Increment the accumulator, modulo 256.
    INC,
    /// Decrement the accumulator, modulo 256.
    DEC,
    /// Exchange the accumulator with a memory cell.
    SWP,
    /// Compare the accumulator with a memory cell; affects only the trace.
    CMP,
    /// Halt.
    HLT,
}

impl Instruction {
    /// Decode an opcode byte.
    pub fn from(value: u8) -> (r: Instruction)
        ensures
            r == decode(value),
    {
        match value {
            0x00 => Instruction::NOP,
            0x01 => Instruction::LDA,
            0x02 => Instruction::STA,
            0x03 => Instruction::ADD,
            0x04 => Instruction::SUB,
            0x05 => Instruction::JMP,
            0x06 => Instruction::JZ,
            0x07 => Instruction::INC,
            0x08 => Instruction::DEC,
            0x09 => Instruction::SWP,
            0x0A => Instruction::CMP,
            _ => Instruction::HLT,
        }
    }

    /// The canonical opcode byte of this instruction.
    pub fn opcode_byte(&self) -> (r: u8)
        ensures
            r == canon(*self),
    {
        match self {
            Instruction::NOP => 0x00,
            Instruction::LDA => 0x01,
            Instruction::STA => 0x02,
            Instruction::ADD => 0x03,
            Instruction::SUB => 0x04,
            Instruction::JMP => 0x05,
            Instruction::JZ => 0x06,
            Instruction::INC => 0x07,
            Instruction::DEC => 0x08,
            Instruction::SWP => 0x09,
            Instruction::CMP => 0x0A,
            Instruction::HLT => 0xFF,
        }
    }

    /// The human-readable mnemonic of this instruction.
    pub fn mnemonic(&self) -> (r: &'static str)
        ensures
            r@ == mnemonic_spec(*self),
    {
        match self {
            Instruction::NOP => "NOP",
            Instruction::LDA => "LDA",
            Instruction::STA => "STA",
            Instruction::ADD => "ADD",
            Instruction::SUB => "SUB",
            Instruction::JMP => "JMP",
            Instruction::JZ => "JZ",
            Instruction::INC => "INC",
            Instruction::DEC => "DEC",
            Instruction::SWP => "SWP",
            Instruction::CMP => "CMP",
            Instruction::HLT => "HLT",
        }
    }
}

/// Renders one trace line. Relies on std's `format!`; the line is an
/// observability aid whose exact text no contract depends on.
#[verifier::external_body]
fn format_trace_line(pc: usize, mnemonic: &str, opcode: u8, acc: u8, operand: u8) -> String {
    format!("{:04}: {} (0x{:02X}) acc={} operand={}", pc, mnemonic, opcode, acc, operand)
}

/// One uniformly random byte. Relies on `rand::random`.
#[verifier::external_body]
fn random_byte() -> u8 {
    rand::random::<u8>()
}

/// One uniformly random cell index. Relies on `rand::random_range`: the
/// result of a nonempty integer range lies inside it.
#[verifier::external_body]
fn random_index() -> (r: usize)
    ensures
        r < MEM_SIZE,
{
    rand::random_range(0..MEM_SIZE)
}

/// One uniformly random mutation percentage. Relies on
/// `rand::random_range`: the result of a nonempty integer range lies inside
/// it.
#[verifier::external_body]
fn random_percent() -> (r: u8)
    ensures
        1 <= r <= 10,
{
    rand::random_range(1..=10u8)
}

/// One execution engine: the byte images, the registers, and a bounded
/// window of recently executed instructions.
#[derive(Debug, Clone)]
pub struct VM {
    /// Current, mutable byte image.
    pub memory: [u8; MEM_SIZE],
    /// Immutable snapshot of `memory` taken at load or randomize time; the
    /// genome used for persistence and mutation.
    pub initial_state: [u8; MEM_SIZE],
    /// Program counter.
    pub pc: usize,
    /// Accumulator.
    pub acc: u8,
    /// Once true, `step` is a no-op until the engine is reseeded.
    pub halted: bool,
    /// Instructions executed in the current run.
    pub total_steps_count: usize,
    /// Human-readable trace of the most recent instructions, oldest first.
    pub recent_instructions: Vec<String>,
    /// Canonical opcodes of the same instructions; what the stall heuristic
    /// inspects.
    pub recent_opcodes: Vec<u8>,
}

impl View for VM {
    type V = VmAbs;

    open spec fn view(&self) -> VmAbs {
        VmAbs {
            memory: self.memory@,
            initial: self.initial_state@,
            pc: self.pc as nat,
            acc: self.acc,
            halted: self.halted,
            steps: self.total_steps_count as nat,
            ops: self.recent_opcodes@,
        }
    }
}

impl VM {
    /// The two traces move in lockstep and never outgrow the window.
    pub open spec fn wf(&self) -> bool {
        &&& self.recent_instructions@.len() == self.recent_opcodes@.len()
        &&& self.recent_opcodes@.len() <= TRACE_CAP
    }

    /// A fresh engine: zeroed images, reset registers, empty trace.
    pub fn new() -> (vm: VM)
        ensures
            vm.wf(),
            vm@.wf(),
            vm@.reset_regs(),
            forall|i: int| 0 <= i < MEM_SIZE ==> vm@.memory[i] == 0 && vm@.initial[i] == 0,
    {
        VM {
            memory: [0; MEM_SIZE],
            initial_state: [0; MEM_SIZE],
            pc: 0,
            acc: 0,
            halted: false,
            total_steps_count: 0,
            recent_instructions: Vec::new(),
            recent_opcodes: Vec::new(),
        }
    }

    /// Bounds-checked read: an address past the end of memory yields 0.
    fn read_memory(&self, addr: usize) -> (r: u8)
        ensures
            r == read_at(self.memory@, addr as int),
    {
        if addr < MEM_SIZE {
            self.memory[addr]
        } else {
            0
        }
    }

    /// Bounds-checked write: an address past the end of memory is dropped.
    fn write_memory(&mut self, addr: usize, value: u8)
        ensures
            final(self).memory@ == write_at(old(self).memory@, addr as int, value),
            final(self).initial_state == old(self).initial_state,
            final(self).pc == old(self).pc,
            final(self).acc == old(self).acc,
            final(self).halted == old(self).halted,
            final(self).total_steps_count == old(self).total_steps_count,
            final(self).recent_instructions == old(self).recent_instructions,
            final(self).recent_opcodes == old(self).recent_opcodes,
    {
        if addr < MEM_SIZE {
            self.memory[addr] = value;
        }
    }

    /// Reset the registers, the counters and the trace; the byte images are
    /// left as they are.
    fn reset(&mut self)
        ensures
            final(self).wf(),
            final(self)@.reset_regs(),
            final(self).memory == old(self).memory,
            final(self).initial_state == old(self).initial_state,
    {
        self.pc = 0;
        self.acc = 0;
        self.halted = false;
        self.total_steps_count = 0;
        self.recent_instructions.clear();
        self.recent_opcodes.clear();
    }

    fn execute_nop(&mut self) -> (log: String)
        requires
            old(self).wf(),
            old(self).pc < MEM_SIZE,
        ensures
            final(self).wf(),
            final(self)@ == exec_effect(old(self)@, Instruction::NOP),
            final(self).recent_instructions == old(self).recent_instructions,
    {
        let operand = self.read_memory(self.pc + 1);
        let log = format_trace_line(
            self.pc,
            Instruction::NOP.mnemonic(),
            self.memory[self.pc],
            self.acc,
            operand,
        );
        self.pc = self.pc + 1;
        proof {
            assert(self@ =~= exec_effect(old(self)@, Instruction::NOP));
        }
        log
    }

    fn execute_lda(&mut self) -> (log: String)
        requires
            old(self).wf(),
            old(self).pc < MEM_SIZE,
        ensures
            final(self).wf(),
            final(self)@ == exec_effect(old(self)@, Instruction::LDA),
            final(self).recent_instructions == old(self).recent_instructions,
    {
        let addr = self.read_memory(self.pc + 1) as usize;
        let value = self.read_memory(addr);
        let log = format_trace_line(
            self.pc,
            Instruction::LDA.mnemonic(),
            self.memory[self.pc],
            self.acc,
            addr as u8,
        );
        self.acc = value;
        self.pc = self.pc + 2;
        proof {
            assert(self@ =~= exec_effect(old(self)@, Instruction::LDA));
        }
        log
    }

    fn execute_sta(&mut self) -> (log: String)
        requires
            old(self).wf(),
            old(self).pc < MEM_SIZE,
        ensures
            final(self).wf(),
            final(self)@ == exec_effect(old(self)@, Instruction::STA),
            final(self).recent_instructions == old(self).recent_instructions,
    {
        let addr = self.read_memory(self.pc + 1) as usize;
        let log = format_trace_line(
            self.pc,
            Instruction::STA.mnemonic(),
            self.memory[self.pc],
            self.acc,
            addr as u8,
        );
        let value = self.acc;
        self.write_memory(addr, value);
        self.pc = self.pc + 2;
        proof {
            assert(self@ =~= exec_effect(old(self)@, Instruction::STA));
        }
        log
    }

    fn execute_add(&mut self) -> (log: String)
        requires
            old(self).wf(),
            old(self).pc < MEM_SIZE,
        ensures
            final(self).wf(),
            final(self)@ == exec_effect(old(self)@, Instruction::ADD),
            final(self).recent_instructions == old(self).recent_instructions,
    {
        let addr = self.read_memory(self.pc + 1) as usize;
        let val = self.read_memory(addr);
        let log = format_trace_line(
            self.pc,
            Instruction::ADD.mnemonic(),
            self.memory[self.pc],
            self.acc,
            addr as u8,
        );
        self.acc = self.acc.wrapping_add(val);
        self.pc = self.pc + 2;
        proof {
            assert(self@ =~= exec_effect(old(self)@, Instruction::ADD));
        }
        log
    }

    fn execute_sub(&mut self) -> (log: String)
        requires
            old(self).wf(),
            old(self).pc < MEM_SIZE,
        ensures
            final(self).wf(),
            final(self)@ == exec_effect(old(self)@, Instruction::SUB),
            final(self).recent_instructions == old(self).recent_instructions,
    {
        let addr = self.read_memory(self.pc + 1) as usize;
        let val = self.read_memory(addr);
        let log = format_trace_line(
            self.pc,
            Instruction::SUB.mnemonic(),
            self.memory[self.pc],
            self.acc,
            addr as u8,
        );
        self.acc = self.acc.wrapping_sub(val);
        self.pc = self.pc + 2;
        proof {
            assert(self@ =~= exec_effect(old(self)@, Instruction::SUB));
        }
        log
    }

    fn execute_jmp(&mut self) -> (log: String)
        requires
            old(self).wf(),
            old(self).pc < MEM_SIZE,
        ensures
            final(self).wf(),
            final(self)@ == exec_effect(old(self)@, Instruction::JMP),
            final(self).recent_instructions == old(self).recent_instructions,
    {
        let addr = self.read_memory(self.pc + 1) as usize;
        let log = format_trace_line(
            self.pc,
            Instruction::JMP.mnemonic(),
            self.memory[self.pc],
            self.acc,
            addr as u8,
        );
        self.pc = addr;
        proof {
            assert(self@ =~= exec_effect(old(self)@, Instruction::JMP));
        }
        log
    }

    fn execute_jz(&mut self) -> (log: String)
        requires
            old(self).wf(),
            old(self).pc < MEM_SIZE,
        ensures
            final(self).wf(),
            final(self)@ == exec_effect(old(self)@, Instruction::JZ),
            final(self).recent_instructions == old(self).recent_instructions,
    {
        let addr = self.read_memory(self.pc + 1) as usize;
        let log = format_trace_line(
            self.pc,
            Instruction::JZ.mnemonic(),
            self.memory[self.pc],
            self.acc,
            addr as u8,
        );
        if self.acc == 0 {
            self.pc = addr;
        } else {
            self.pc = self.pc + 2;
        }
        proof {
            assert(self@ =~= exec_effect(old(self)@, Instruction::JZ));
        }
        log
    }

    fn execute_inc(&mut self) -> (log: String)
        requires
            old(self).wf(),
            old(self).pc < MEM_SIZE,
        ensures
            final(self).wf(),
            final(self)@ == exec_effect(old(self)@, Instruction::INC),
            final(self).recent_instructions == old(self).recent_instructions,
    {
        let operand = self.read_memory(self.pc + 1);
        let log = format_trace_line(
            self.pc,
            Instruction::INC.mnemonic(),
            self.memory[self.pc],
            self.acc,
            operand,
        );
        self.acc = self.acc.wrapping_add(1);
        self.pc = self.pc + 1;
        proof {
            assert(self@ =~= exec_effect(old(self)@, Instruction::INC));
        }
        log
    }

    fn execute_dec(&mut self) -> (log: String)
        requires
            old(self).wf(),
            old(self).pc < MEM_SIZE,
        ensures
            final(self).wf(),
            final(self)@ == exec_effect(old(self)@, Instruction::DEC),
            final(self).recent_instructions == old(self).recent_instructions,
    {
        let operand = self.read_memory(self.pc + 1);
        let log = format_trace_line(
            self.pc,
            Instruction::DEC.mnemonic(),
            self.memory[self.pc],
            self.acc,
            operand,
        );
        self.acc = self.acc.wrapping_sub(1);
        self.pc = self.pc + 1;
        proof {
            assert(self@ =~= exec_effect(old(self)@, Instruction::DEC));
        }
        log
    }

    fn execute_swp(&mut self) -> (log: String)
        requires
            old(self).wf(),
            old(self).pc < MEM_SIZE,
        ensures
            final(self).wf(),
            final(self)@ == exec_effect(old(self)@, Instruction::SWP),
            final(self).recent_instructions == old(self).recent_instructions,
    {
        let addr = self.read_memory(self.pc + 1) as usize;
        let log = format_trace_line(
            self.pc,
            Instruction::SWP.mnemonic(),
            self.memory[self.pc],
            self.acc,
            addr as u8,
        );
        let tmp = self.read_memory(addr);
        let value = self.acc;
        self.write_memory(addr, value);
        self.acc = tmp;
        self.pc = self.pc + 2;
        proof {
            assert(self@ =~= exec_effect(old(self)@, Instruction::SWP));
        }
        log
    }

    fn execute_cmp(&mut self) -> (log: String)
        requires
            old(self).wf(),
            old(self).pc < MEM_SIZE,
        ensures
            final(self).wf(),
            final(self)@ == exec_effect(old(self)@, Instruction::CMP),
            final(self).recent_instructions == old(self).recent_instructions,
    {
        let addr = self.read_memory(self.pc + 1) as usize;
        let log = format_trace_line(
            self.pc,
            Instruction::CMP.mnemonic(),
            self.memory[self.pc],
            self.acc,
            addr as u8,
        );
        self.pc = self.pc + 2;
        proof {
            assert(self@ =~= exec_effect(old(self)@, Instruction::CMP));
        }
        log
    }

    fn execute_hlt(&mut self) -> (log: String)
        requires
            old(self).wf(),
            old(self).pc < MEM_SIZE,
        ensures
            final(self).wf(),
            final(self)@ == exec_effect(old(self)@, Instruction::HLT),
            final(self).recent_instructions == old(self).recent_instructions,
    {
        let operand = self.read_memory(self.pc + 1);
        let log = format_trace_line(
            self.pc,
            Instruction::HLT.mnemonic(),
            self.memory[self.pc],
            self.acc,
            operand,
        );
        self.halted = true;
        proof {
            assert(self@ =~= exec_effect(old(self)@, Instruction::HLT));
        }
        log
    }

    /// Dispatch one decoded instruction.
    fn execute_instruction(&mut self, instruction: Instruction) -> (log: String)
        requires
            old(self).wf(),
            old(self).pc < MEM_SIZE,
        ensures
            final(self).wf(),
            final(self)@ == exec_effect(old(self)@, instruction),
            final(self).recent_instructions == old(self).recent_instructions,
    {
        match instruction {
            Instruction::NOP => self.execute_nop(),
            Instruction::LDA => self.execute_lda(),
            Instruction::STA => self.execute_sta(),
            Instruction::ADD => self.execute_add(),
            Instruction::SUB => self.execute_sub(),
            Instruction::JMP => self.execute_jmp(),
            Instruction::JZ => self.execute_jz(),
            Instruction::INC => self.execute_inc(),
            Instruction::DEC => self.execute_dec(),
            Instruction::SWP => self.execute_swp(),
            Instruction::CMP => self.execute_cmp(),
            Instruction::HLT => self.execute_hlt(),
        }
    }

    /// Append one executed instruction to both traces, dropping the oldest
    /// entry once the window is full.
    fn log_instruction(&mut self, log_entry: String, op: u8)
        requires
            old(self).wf(),
        ensures
            final(self).wf(),
            final(self).recent_opcodes@ == push_trace(old(self).recent_opcodes@, op),
            final(self).memory == old(self).memory,
            final(self).initial_state == old(self).initial_state,
            final(self).pc == old(self).pc,
            final(self).acc == old(self).acc,
            final(self).halted == old(self).halted,
            final(self).total_steps_count == old(self).total_steps_count,
    {
        self.recent_instructions.push(log_entry);
        self.recent_opcodes.push(op);
        if self.recent_opcodes.len() > TRACE_CAP {
            self.recent_instructions.remove(0);
            self.recent_opcodes.remove(0);
        }
    }

    /// Does the vector hold at most two distinct values?
    fn holds_at_most_two(v: &Vec<u8>) -> (r: bool)
        requires
            v@.len() >= 1,
        ensures
            r == at_most_two_distinct(v@),
    {
        let a = v[0];
        let mut b: u8 = a;
        let mut seen_b: bool = false;
        let ghost mut bj: int = 0;
        let mut k: usize = 1;
        while k < v.len()
            invariant
                1 <= k <= v@.len(),
                a == v@[0],
                seen_b ==> 0 <= bj < k && v@[bj] == b && b != a,
                forall|j: int| 0 <= j < k ==> v@[j] == a || (seen_b && v@[j] == b),
            decreases v@.len() - k,
        {
            let x = v[k];
            if x != a {
                if !seen_b {
                    b = x;
                    seen_b = true;
                    proof {
                        bj = k as int;
                    }
                } else if x != b {
                    proof {
                        let xk = k as int;
                        assert forall|p: u8, q: u8| !covered_by_two(v@, p, q) by {
                            if covered_by_two(v@, p, q) {
                                assert(v@[0] == p || v@[0] == q);
                                assert(v@[bj] == p || v@[bj] == q);
                                assert(v@[xk] == p || v@[xk] == q);
                            }
                        }
                    }
                    return false;
                }
            }
            k += 1;
        }
        proof {
            if seen_b {
                assert(covered_by_two(v@, a, b));
            } else {
                assert(covered_by_two(v@, a, a));
            }
        }
        true
    }

    /// The stall heuristic: once the trace window is full, a run showing at
    /// most two distinct opcodes in it is judged degenerate — the engine
    /// forcibly halts and the run's step count is reset to zero.
    fn check_for_infinite_loop(&mut self)
        requires
            old(self).wf(),
        ensures
            final(self).wf(),
            final(self).memory == old(self).memory,
            final(self).initial_state == old(self).initial_state,
            final(self).pc == old(self).pc,
            final(self).acc == old(self).acc,
            final(self).recent_instructions == old(self).recent_instructions,
            final(self).recent_opcodes == old(self).recent_opcodes,
            stall_detected(old(self)@.ops) ==> final(self).halted
                && final(self).total_steps_count == 0,
            !stall_detected(old(self)@.ops) ==> final(self).halted == old(self).halted
                && final(self).total_steps_count == old(self).total_steps_count,
    {
        if self.recent_opcodes.len() == TRACE_CAP {
            if Self::holds_at_most_two(&self.recent_opcodes) {
                self.halted = true;
                self.total_steps_count = 0;
            }
        }
    }

    /// Advance the engine by exactly one instruction cycle; on a halted
    /// engine, or one whose program counter has left memory, only latch the
    /// halt flag.
    pub fn step(&mut self)
        requires
            old(self).wf(),
        ensures
            final(self).wf(),
            final(self)@ == step_spec(old(self)@),
    {
        if self.halted || self.pc >= MEM_SIZE {
            self.halted = true;
            proof {
                assert(self@ =~= step_spec(old(self)@));
            }
            return;
        }
        if self.total_steps_count < usize::MAX {
            self.total_steps_count = self.total_steps_count + 1;
        }
        let opcode = self.memory[self.pc];
        let instruction = Instruction::from(opcode);
        let log_entry = self.execute_instruction(instruction);
        self.log_instruction(log_entry, instruction.opcode_byte());
        self.check_for_infinite_loop();
        proof {
            assert(self@ =~= step_spec(old(self)@));
        }
    }

    /// Copy a caller-supplied program into both byte images — truncated or
    /// zero-padded to the memory size — and reset the engine for a fresh run.
    pub fn load_program(&mut self, program: &[u8])
        ensures
            final(self).wf(),
            final(self)@.wf(),
            final(self)@.reset_regs(),
            forall|i: int|
                0 <= i < MEM_SIZE ==> final(self).memory@[i] == (if i < program@.len() {
                    program@[i]
                } else {
                    0
                }),
            final(self).initial_state@ == final(self).memory@,
    {
        let n = program.len();
        let mut i: usize = 0;
        while i < MEM_SIZE
            invariant
                i <= MEM_SIZE,
                n == program@.len(),
                forall|j: int|
                    0 <= j < i ==> self.memory@[j] == (if j < program@.len() {
                        program@[j]
                    } else {
                        0
                    }),
                forall|j: int| 0 <= j < i ==> self.initial_state@[j] == self.memory@[j],
                self.recent_instructions == old(self).recent_instructions,
                self.recent_opcodes == old(self).recent_opcodes,
            decreases MEM_SIZE - i,
        {
            let value = if i < n {
                program[i]
            } else {
                0
            };
            self.memory[i] = value;
            self.initial_state[i] = value;
            i += 1;
        }
        self.reset();
        proof {
            assert(final(self).initial_state@ =~= final(self).memory@);
        }
    }

    /// Fill every cell of both byte images with one fresh random byte and
    /// reset the engine for a fresh run.
    pub fn randomize(&mut self)
        ensures
            final(self).wf(),
            final(self)@.wf(),
            final(self)@.reset_regs(),
            final(self).initial_state@ == final(self).memory@,
    {
        let mut i: usize = 0;
        while i < MEM_SIZE
            invariant
                i <= MEM_SIZE,
                forall|j: int| 0 <= j < i ==> self.initial_state@[j] == self.memory@[j],
                self.recent_instructions == old(self).recent_instructions,
                self.recent_opcodes == old(self).recent_opcodes,
            decreases MEM_SIZE - i,
        {
            let value = random_byte();
            self.memory[i] = value;
            self.initial_state[i] = value;
            i += 1;
        }
        self.reset();
        proof {
            assert(final(self).initial_state@ =~= final(self).memory@);
        }
    }

    /// Mutate a random 1–10% of the cells — count and positions rolled
    /// independently, the same fresh byte going to both images at each
    /// picked cell — and reset the engine for a fresh run.
    pub fn partial_randomize(&mut self)
        ensures
            final(self).wf(),
            final(self)@.wf(),
            final(self)@.reset_regs(),
            mutated_pair(
                old(self).memory@,
                old(self).initial_state@,
                final(self).memory@,
                final(self).initial_state@,
            ),
    {
        let percent = random_percent();
        let count = MEM_SIZE * percent as usize / 100;
        let ghost pre_mem = self.memory@;
        let ghost pre_init = self.initial_state@;
        let ghost mut picks: Seq<int> = Seq::empty();
        let mut k: usize = 0;
        while k < count
            invariant
                k <= count,
                2 <= count <= 25,
                picks.len() == k,
                forall|j: int| 0 <= j < picks.len() ==> 0 <= #[trigger] picks[j] < MEM_SIZE,
                self.memory@.len() == MEM_SIZE,
                self.initial_state@.len() == MEM_SIZE,
                forall|i: int|
                    0 <= i < MEM_SIZE && !picks.contains(i) ==> self.memory@[i] == pre_mem[i]
                        && self.initial_state@[i] == pre_init[i],
                forall|i: int|
                    0 <= i < MEM_SIZE && #[trigger] picks.contains(i) ==> self.memory@[i]
                        == self.initial_state@[i],
                self.recent_instructions == old(self).recent_instructions,
                self.recent_opcodes == old(self).recent_opcodes,
            decreases count - k,
        {
            let idx = random_index();
            let value = random_byte();
            self.memory[idx] = value;
            self.initial_state[idx] = value;
            proof {
                let prev = picks;
                picks = picks.push(idx as int);
                assert forall|i: int| picks.contains(i) implies prev.contains(i) || i == idx
                    as int by {
                    let w = choose|w: int| 0 <= w < picks.len() && picks[w] == i;
                    if w < prev.len() {
                        assert(prev[w] == i);
                    }
                }
                assert forall|i: int| prev.contains(i) implies picks.contains(i) by {
                    let w = choose|w: int| 0 <= w < prev.len() && prev[w] == i;
                    assert(picks[w] == i);
                }
                assert(picks.contains(idx as int)) by {
                    assert(picks[picks.len() - 1] == idx as int);
                }
            }
            k += 1;
        }
        self.reset();
        proof {
            assert(MEM_SIZE * 1 / 100 <= picks.len() <= MEM_SIZE * 10 / 100);
            assert(mutation_witness(
                pre_mem,
                pre_init,
                final(self).memory@,
                final(self).initial_state@,
                picks,
            ));
        }
    }

    /// Copy a champion genome into both byte images; the registers and the
    /// trace are left as they are (a reseed mutates and resets afterwards).
    pub fn install_genome(&mut self, genome: &[u8; MEM_SIZE])
        ensures
            final(self).wf() == old(self).wf(),
            final(self).memory@ == genome@,
            final(self).initial_state@ == genome@,
            final(self).pc == old(self).pc,
            final(self).acc == old(self).acc,
            final(self).halted == old(self).halted,
            final(self).total_steps_count == old(self).total_steps_count,
            final(self).recent_instructions == old(self).recent_instructions,
            final(self).recent_opcodes == old(self).recent_opcodes,
    {
        let mut i: usize = 0;
        while i < MEM_SIZE
            invariant
                i <= MEM_SIZE,
                forall|j: int|
                    0 <= j < i ==> self.memory@[j] == genome@[j] && self.initial_state@[j]
                        == genome@[j],
                self.pc == old(self).pc,
                self.acc == old(self).acc,
                self.halted == old(self).halted,
                self.total_steps_count == old(self).total_steps_count,
                self.recent_instructions == old(self).recent_instructions,
                self.recent_opcodes == old(self).recent_opcodes,
            decreases MEM_SIZE - i,
        {
            self.memory[i] = genome[i];
            self.initial_state[i] = genome[i];
            i += 1;
        }
        proof {
            assert(final(self).memory@ =~= genome@);
            assert(final(self).initial_state@ =~= genome@);
        }
    }

    /// The exact bytes that a saved program file holds: the current memory
    /// image, in address order.
    pub fn program_image(&self) -> (r: Vec<u8>)
        ensures
            r@ == self.memory@,
    {
        let mut r: Vec<u8> = Vec::new();
        let mut i: usize = 0;
        while i < MEM_SIZE
            invariant
                i <= MEM_SIZE,
                r@ =~= self.memory@.take(i as int),
            decreases MEM_SIZE - i,
        {
            r.push(self.memory[i]);
            i += 1;
        }
        proof {
            assert(r@ =~= self.memory@);
        }
        r
    }

    /// Install a full byte image, as read back from a saved program file,
    /// into the current memory; everything else — the genome snapshot, the
    /// registers, the trace — is left as it is.
    pub fn install_image(&mut self, bytes: &[u8])
        requires
            bytes@.len() == MEM_SIZE,
        ensures
            final(self).wf() == old(self).wf(),
            final(self).memory@ == bytes@,
            final(self).initial_state == old(self).initial_state,
            final(self).pc == old(self).pc,
            final(self).acc == old(self).acc,
            final(self).halted == old(self).halted,
            final(self).total_steps_count == old(self).total_steps_count,
            final(self).recent_instructions == old(self).recent_instructions,
            final(self).recent_opcodes == old(self).recent_opcodes,
    {
        let mut i: usize = 0;
        while i < MEM_SIZE
            invariant
                i <= MEM_SIZE,
                bytes@.len() == MEM_SIZE,
                forall|j: int| 0 <= j < i ==> self.memory@[j] == bytes@[j],
                self.initial_state == old(self).initial_state,
                self.pc == old(self).pc,
                self.acc == old(self).acc,
                self.halted == old(self).halted,
                self.total_steps_count == old(self).total_steps_count,
                self.recent_instructions == old(self).recent_instructions,
                self.recent_opcodes == old(self).recent_opcodes,
            decreases MEM_SIZE - i,
        {
            self.memory[i] = bytes[i];
            i += 1;
        }
        proof {
            assert(final(self).memory@ =~= bytes@);
        }
    }

    /// Step the engine until it halts, but at most `max_steps` times.
    pub fn run(&mut self, max_steps: usize)
        requires
            old(self).wf(),
        ensures
            final(self).wf(),
            exists|n: nat|
                n <= max_steps && final(self)@ == steps_spec(old(self)@, n) && (final(self).halted
                    || n == max_steps),
    {
        let ghost pre = self@;
        let mut k: usize = 0;
        while k < max_steps && !self.halted
            invariant
                k <= max_steps,
                self.wf(),
                self@ == steps_spec(pre, k as nat),
            decreases max_steps - k,
        {
            self.step();
            k += 1;
        }
        proof {
            assert(final(self)@ == steps_spec(pre, k as nat) && (final(self).halted || k
                == max_steps));
        }
    }
}

} // verus!
