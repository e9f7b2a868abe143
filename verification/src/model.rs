//! Mathematical model of the execution engine.
//!
//! `VmAbs` abstracts one engine: the byte images, the registers, and the
//! canonical opcodes of the most recently executed instructions (the trace
//! window the stall heuristic looks at). `step_spec` is the full meaning of
//! one `step` call; the executable code in `compute` is proved against it.

use crate::compute::Instruction;
use vstd::prelude::*;

verus! {

/// Number of byte cells in an engine's memory.
pub const MEM_SIZE: usize = 256;

/// Capacity of the window of recently executed instructions.
pub const TRACE_CAP: usize = 16;

/// A run whose last `TRACE_CAP` instructions show at most this many distinct
/// opcodes is judged degenerate and forcibly halted with zero fitness.
pub const STALL_DISTINCT_MAX: usize = 2;

/// Abstract state of one execution engine.
#[verifier::ext_equal]
pub ghost struct VmAbs {
    /// Current byte image, `MEM_SIZE` cells.
    pub memory: Seq<u8>,
    /// Snapshot taken at load or randomize time; the genome of the run.
    pub initial: Seq<u8>,
    /// Program counter; any value at or past `MEM_SIZE` halts the machine.
    pub pc: nat,
    /// Accumulator.
    pub acc: u8,
    /// Once set, `step` is a no-op until the engine is reseeded.
    pub halted: bool,
    /// Instructions executed in the current run.
    pub steps: nat,
    /// Canonical opcodes of the most recent instructions, oldest first.
    pub ops: Seq<u8>,
}

impl VmAbs {
    /// Both byte images have exactly `MEM_SIZE` cells and the trace window
    /// holds at most `TRACE_CAP` entries.
    pub open spec fn wf(self) -> bool {
        &&& self.memory.len() == MEM_SIZE
        &&& self.initial.len() == MEM_SIZE
        &&& self.ops.len() <= TRACE_CAP
    }

    /// The registers, counters and trace are in their post-reset state.
    pub open spec fn reset_regs(self) -> bool {
        &&& self.pc == 0
        &&& self.acc == 0
        &&& !self.halted
        &&& self.steps == 0
        &&& self.ops.len() == 0
    }
}

/// Decoding of an opcode byte; every byte outside the instruction set halts
/// the machine rather than faulting.
pub open spec fn decode(op: u8) -> Instruction {
    if op == 0x00 {
        Instruction::NOP
    } else if op == 0x01 {
        Instruction::LDA
    } else if op == 0x02 {
        Instruction::STA
    } else if op == 0x03 {
        Instruction::ADD
    } else if op == 0x04 {
        Instruction::SUB
    } else if op == 0x05 {
        Instruction::JMP
    } else if op == 0x06 {
        Instruction::JZ
    } else if op == 0x07 {
        Instruction::INC
    } else if op == 0x08 {
        Instruction::DEC
    } else if op == 0x09 {
        Instruction::SWP
    } else if op == 0x0A {
        Instruction::CMP
    } else {
        Instruction::HLT
    }
}

/// The canonical opcode of an instruction: the byte that `decode` maps to it,
/// with `0xFF` standing for every halting byte.
pub open spec fn canon(i: Instruction) -> u8 {
    match i {
        Instruction::NOP => 0x00,
        Instruction::LDA => 0x01,
        Instruction::STA => 0x02,
        Instruction::ADD => 0x03,
        Instruction::SUB => 0x04,
        Instruction::JMP => 0x05,
        Instruction::JZ => 0x06,
        Instruction::INC => 0x07,
        Instruction::DEC => 0x08,
        Instruction::SWP => 0x09,
        Instruction::CMP => 0x0A,
        Instruction::HLT => 0xFF,
    }
}

/// The human-readable mnemonic of an instruction, as it appears in trace
/// lines.
pub open spec fn mnemonic_spec(i: Instruction) -> Seq<char> {
    match i {
        Instruction::NOP => "NOP"@,
        Instruction::LDA => "LDA"@,
        Instruction::STA => "STA"@,
        Instruction::ADD => "ADD"@,
        Instruction::SUB => "SUB"@,
        Instruction::JMP => "JMP"@,
        Instruction::JZ => "JZ"@,
        Instruction::INC => "INC"@,
        Instruction::DEC => "DEC"@,
        Instruction::SWP => "SWP"@,
        Instruction::CMP => "CMP"@,
        Instruction::HLT => "HLT"@,
    }
}

/// Bounds-checked read: an address past the end of memory yields 0.
pub open spec fn read_at(mem: Seq<u8>, addr: int) -> u8 {
    if 0 <= addr < mem.len() {
        mem[addr]
    } else {
        0
    }
}

/// Bounds-checked write: an address past the end of memory is dropped.
pub open spec fn write_at(mem: Seq<u8>, addr: int, value: u8) -> Seq<u8> {
    if 0 <= addr < mem.len() {
        mem.update(addr, value)
    } else {
        mem
    }
}

/// Accumulator addition, wrapping modulo 256.
pub open spec fn wrap8_add(a: u8, b: u8) -> u8 {
    (((a + b) % 256) as u8)
}

/// Accumulator subtraction, wrapping modulo 256.
pub open spec fn wrap8_sub(a: u8, b: u8) -> u8 {
    (((a - b) % 256) as u8)
}

/// Effect of one decoded instruction on the byte image and the registers.
/// The operand byte, read just past the opcode, is itself the target address
/// (direct addressing); being a byte it always lies inside memory.
pub open spec fn exec_effect(pre: VmAbs, i: Instruction) -> VmAbs {
    let opd = read_at(pre.memory, pre.pc + 1int) as int;
    match i {
        Instruction::NOP => VmAbs { pc: (pre.pc + 1) as nat, ..pre },
        Instruction::LDA => VmAbs {
            acc: read_at(pre.memory, opd),
            pc: (pre.pc + 2) as nat,
            ..pre
        },
        Instruction::STA => VmAbs {
            memory: write_at(pre.memory, opd, pre.acc),
            pc: (pre.pc + 2) as nat,
            ..pre
        },
        Instruction::ADD => VmAbs {
            acc: wrap8_add(pre.acc, read_at(pre.memory, opd)),
            pc: (pre.pc + 2) as nat,
            ..pre
        },
        Instruction::SUB => VmAbs {
            acc: wrap8_sub(pre.acc, read_at(pre.memory, opd)),
            pc: (pre.pc + 2) as nat,
            ..pre
        },
        Instruction::JMP => VmAbs { pc: opd as nat, ..pre },
        Instruction::JZ => if pre.acc == 0 {
            VmAbs { pc: opd as nat, ..pre }
        } else {
            VmAbs { pc: (pre.pc + 2) as nat, ..pre }
        },
        Instruction::INC => VmAbs {
            acc: wrap8_add(pre.acc, 1),
            pc: (pre.pc + 1) as nat,
            ..pre
        },
        Instruction::DEC => VmAbs {
            acc: wrap8_sub(pre.acc, 1),
            pc: (pre.pc + 1) as nat,
            ..pre
        },
        Instruction::SWP => VmAbs {
            acc: read_at(pre.memory, opd),
            memory: write_at(pre.memory, opd, pre.acc),
            pc: (pre.pc + 2) as nat,
            ..pre
        },
        Instruction::CMP => VmAbs { pc: (pre.pc + 2) as nat, ..pre },
        Instruction::HLT => VmAbs { halted: true, ..pre },
    }
}

/// Appending to the trace window: push the newest entry, then drop the
/// oldest one if the window has grown past its capacity.
pub open spec fn push_trace(ops: Seq<u8>, op: u8) -> Seq<u8> {
    let t = ops.push(op);
    if t.len() > TRACE_CAP {
        t.remove(0)
    } else {
        t
    }
}

/// Every entry of `s` is `a` or `b`.
pub open spec fn covered_by_two(s: Seq<u8>, a: u8, b: u8) -> bool {
    forall|k: int| 0 <= k < s.len() ==> s[k] == a || s[k] == b
}

/// `s` holds at most two distinct values.
pub open spec fn at_most_two_distinct(s: Seq<u8>) -> bool {
    exists|a: u8, b: u8| covered_by_two(s, a, b)
}

/// The stall heuristic: a full trace window showing at most
/// `STALL_DISTINCT_MAX` distinct opcodes marks the run as degenerate.
pub open spec fn stall_detected(ops: Seq<u8>) -> bool {
    ops.len() == TRACE_CAP && at_most_two_distinct(ops)
}

/// The full meaning of one `step` call: a halted engine, or one whose
/// program counter has left memory, only latches the halt flag; otherwise
/// the step counter rises (saturating at the machine limit), the instruction
/// under the program counter executes, its canonical opcode enters the trace
/// window, and the stall heuristic may forcibly halt the run with its step
/// count reset to zero.
pub open spec fn step_spec(pre: VmAbs) -> VmAbs {
    if pre.halted || pre.pc >= MEM_SIZE {
        VmAbs { halted: true, ..pre }
    } else {
        let i = decode(pre.memory[pre.pc as int]);
        let counted = VmAbs {
            steps: if pre.steps < usize::MAX { (pre.steps + 1) as nat } else { pre.steps },
            ..pre
        };
        let executed = exec_effect(counted, i);
        let logged = VmAbs { ops: push_trace(executed.ops, canon(i)), ..executed };
        if stall_detected(logged.ops) {
            VmAbs { halted: true, steps: 0, ..logged }
        } else {
            logged
        }
    }
}

/// `n` consecutive `step` calls.
pub open spec fn steps_spec(pre: VmAbs, n: nat) -> VmAbs
    decreases n,
{
    if n == 0 {
        pre
    } else {
        step_spec(steps_spec(pre, (n - 1) as nat))
    }
}

/// A particular sequence of cell indices accounts for every difference
/// between the old images and the new ones: cells off the list kept their
/// old bytes, cells on the list got one fresh byte written to both images.
pub open spec fn mutation_witness(
    old_mem: Seq<u8>,
    old_init: Seq<u8>,
    mem: Seq<u8>,
    init: Seq<u8>,
    picks: Seq<int>,
) -> bool {
    &&& MEM_SIZE * 1 / 100 <= picks.len() <= MEM_SIZE * 10 / 100
    &&& forall|j: int| 0 <= j < picks.len() ==> 0 <= #[trigger] picks[j] < MEM_SIZE
    &&& mem.len() == MEM_SIZE
    &&& init.len() == MEM_SIZE
    &&& forall|i: int|
        0 <= i < MEM_SIZE && !picks.contains(i) ==> mem[i] == old_mem[i] && init[i] == old_init[i]
    &&& forall|i: int| 0 <= i < MEM_SIZE && #[trigger] picks.contains(i) ==> mem[i] == init[i]
}

/// The new images arise from the old ones by mutating between 1% and 10% of
/// the cells, the same fresh byte going to both images at each mutated cell.
pub open spec fn mutated_pair(
    old_mem: Seq<u8>,
    old_init: Seq<u8>,
    mem: Seq<u8>,
    init: Seq<u8>,
) -> bool {
    exists|picks: Seq<int>| mutation_witness(old_mem, old_init, mem, init, picks)
}

} // verus!
