//! Proved laws of the instruction cycle, stated over the abstract model
//! that every engine contract speaks of.

use crate::compute::Instruction;
use crate::model::{
    canon, decode, push_trace, read_at, stall_detected, step_spec, VmAbs, MEM_SIZE,
};
use vstd::prelude::*;

verus! {

/// How one step moves the program counter: every instruction that carries
/// an address operand advances it by exactly two — except the jumps, which
/// set it to the operand address (`JZ` only when the accumulator is zero) —
/// while the one-byte instructions advance it by one and `HLT` leaves it in
/// place. The stall heuristic never moves the program counter.
pub proof fn lemma_pc_advance(pre: VmAbs)
    requires
        !pre.halted,
        pre.pc < MEM_SIZE,
    ensures
        ({
            let i = decode(pre.memory[pre.pc as int]);
            let opd = read_at(pre.memory, pre.pc + 1int) as int;
            let post = step_spec(pre);
            match i {
                Instruction::LDA | Instruction::STA | Instruction::ADD | Instruction::SUB
                    | Instruction::SWP | Instruction::CMP => post.pc == pre.pc + 2,
                Instruction::JMP => post.pc == opd,
                Instruction::JZ => post.pc == if pre.acc == 0 {
                    opd
                } else {
                    pre.pc + 2int
                },
                Instruction::NOP | Instruction::INC | Instruction::DEC => post.pc == pre.pc + 1,
                Instruction::HLT => post.pc == pre.pc,
            }
        }),
{
}

/// The accumulator arithmetic is exact modulo 256, so it can never leave
/// the byte range: `ADD` and `SUB` combine the accumulator with the
/// addressed cell, `INC` and `DEC` move it by one, all modulo 256.
pub proof fn lemma_acc_wraps(pre: VmAbs)
    requires
        !pre.halted,
        pre.pc < MEM_SIZE,
    ensures
        ({
            let i = decode(pre.memory[pre.pc as int]);
            let m = read_at(pre.memory, read_at(pre.memory, pre.pc + 1int) as int);
            let post = step_spec(pre);
            &&& 0 <= post.acc < 256
            &&& i == Instruction::ADD ==> post.acc == (pre.acc + m) % 256
            &&& i == Instruction::SUB ==> post.acc == (pre.acc - m) % 256
            &&& i == Instruction::INC ==> post.acc == (pre.acc + 1) % 256
            &&& i == Instruction::DEC ==> post.acc == (pre.acc - 1) % 256
        }),
{
}

/// A step of a halted engine, or of one whose program counter has left
/// memory, only latches the halt flag: nothing else changes, and stepping
/// again changes nothing at all.
pub proof fn lemma_step_halted_idempotent(pre: VmAbs)
    requires
        pre.halted || pre.pc >= MEM_SIZE,
    ensures
        step_spec(pre) == (VmAbs { halted: true, ..pre }),
        step_spec(step_spec(pre)) == step_spec(pre),
{
    assert(step_spec(pre) =~= (VmAbs { halted: true, ..pre }));
    assert(step_spec(step_spec(pre)) =~= step_spec(pre));
}

/// The stall heuristic zeroes the fitness of a degenerate run: when the
/// executed instruction fills the trace window to capacity with at most two
/// distinct opcodes in it, the engine halts with its step count reset to
/// zero — whether or not the instruction itself was a halt.
pub proof fn lemma_stall_zeroes_fitness(pre: VmAbs)
    requires
        !pre.halted,
        pre.pc < MEM_SIZE,
        stall_detected(push_trace(pre.ops, canon(decode(pre.memory[pre.pc as int])))),
    ensures
        step_spec(pre).halted,
        step_spec(pre).steps == 0,
{
}

} // verus!
