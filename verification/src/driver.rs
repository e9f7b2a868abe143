//! The evolutionary driver: a fixed population of engines searched by
//! mutate-from-champion hill climbing, fitness being the number of
//! instruction cycles a run survives before halting or stalling.

use crate::compute::VM;
use crate::model::{mutated_pair, step_spec, VmAbs, MEM_SIZE};
use vstd::prelude::*;

verus! {

/// The champion record: the best fitness seen so far, and the genome that
/// earned it.
#[verifier::ext_equal]
pub ghost struct ChampAbs {
    /// Step count of the best finished run.
    pub fitness: nat,
    /// Genome of that run; absent until some run finishes with a positive
    /// step count.
    pub genome: Option<Seq<u8>>,
}

/// One halt observation: a finished run replaces the champion exactly when
/// its step count strictly exceeds the best fitness; ties keep the
/// incumbent.
pub open spec fn observe(c: ChampAbs, v: VmAbs) -> ChampAbs {
    if v.halted && v.steps > c.fitness {
        ChampAbs { fitness: v.steps, genome: Some(v.initial) }
    } else {
        c
    }
}

/// Halt observations folded over a population, first engine first.
pub open spec fn observe_all(c: ChampAbs, vs: Seq<VmAbs>) -> ChampAbs
    decreases vs.len(),
{
    if vs.len() == 0 {
        c
    } else {
        observe(observe_all(c, vs.drop_last()), vs.last())
    }
}

/// The state of a just-reseeded engine: registers, counters and trace
/// reset, and the byte images either mutated from the champion genome or —
/// when no champion exists yet — freshly randomized in both images alike.
pub open spec fn reseeded_from(g: Option<Seq<u8>>, v: VmAbs) -> bool {
    &&& v.reset_regs()
    &&& match g {
        Some(base) => mutated_pair(base, base, v.memory, v.initial),
        None => v.memory == v.initial,
    }
}

/// The abstract states of a population.
pub open spec fn vms_abs(vs: Seq<VM>) -> Seq<VmAbs> {
    vs.map_values(|v: VM| v@)
}

/// A population after one instruction cycle each.
pub open spec fn stepped_abs(vs: Seq<VmAbs>) -> Seq<VmAbs> {
    vs.map_values(|v: VmAbs| step_spec(v))
}

/// The evolutionary driver: a population of engines and the champion
/// record, which only ever improves.
pub struct Driver {
    /// The population; every engine runs independently.
    pub vms: Vec<VM>,
    /// Step count of the best finished run seen so far.
    pub best_fitness: usize,
    /// Genome of that run, if any run has beaten fitness zero yet.
    pub best_genome: Option<[u8; MEM_SIZE]>,
}

impl Driver {
    /// Every engine in the population is well formed.
    pub open spec fn wf(&self) -> bool {
        forall|i: int| 0 <= i < self.vms@.len() ==> (#[trigger] self.vms@[i]).wf()
    }

    /// The champion record, abstractly.
    pub open spec fn champ(&self) -> ChampAbs {
        ChampAbs {
            fitness: self.best_fitness as nat,
            genome: match self.best_genome {
                Some(g) => Some(g@),
                None => None,
            },
        }
    }

    /// A driver owning `count` freshly randomized engines and no champion.
    pub fn new(count: usize) -> (d: Driver)
        ensures
            d.wf(),
            d.vms@.len() == count,
            d.best_fitness == 0,
            d.best_genome is None,
            forall|i: int| 0 <= i < count ==> (#[trigger] d.vms@[i])@.reset_regs(),
    {
        let mut vms: Vec<VM> = Vec::new();
        let mut k: usize = 0;
        while k < count
            invariant
                k <= count,
                vms@.len() == k,
                forall|i: int|
                    0 <= i < k ==> (#[trigger] vms@[i]).wf() && vms@[i]@.reset_regs(),
            decreases count - k,
        {
            let mut vm = VM::new();
            vm.randomize();
            vms.push(vm);
            k += 1;
        }
        Driver { vms, best_fitness: 0, best_genome: None }
    }

    /// Advance every engine in the population by one instruction cycle; the
    /// champion record is untouched.
    pub fn step_all(&mut self)
        requires
            old(self).wf(),
        ensures
            final(self).wf(),
            final(self).vms@.len() == old(self).vms@.len(),
            forall|i: int|
                0 <= i < old(self).vms@.len() ==> (#[trigger] final(self).vms@[i])@ == step_spec(
                    old(self).vms@[i]@,
                ),
            final(self).best_fitness == old(self).best_fitness,
            final(self).best_genome == old(self).best_genome,
    {
        let ghost orig = self.vms@;
        let n = self.vms.len();
        let mut k: usize = 0;
        while k < n
            invariant
                k <= n,
                self.vms@.len() == n,
                orig.len() == n,
                forall|i: int| 0 <= i < n ==> (#[trigger] orig[i]).wf(),
                forall|i: int|
                    0 <= i < k ==> (#[trigger] self.vms@[i]).wf() && self.vms@[i]@ == step_spec(
                        orig[i]@,
                    ),
                forall|i: int| k <= i < n ==> #[trigger] self.vms@[i] == orig[i],
                self.best_fitness == old(self).best_fitness,
                self.best_genome == old(self).best_genome,
            decreases n - k,
        {
            let ghost before = self.vms@;
            let mut vm = self.vms.remove(k);
            vm.step();
            self.vms.insert(k, vm);
            proof {
                assert(self.vms@ =~= before.update(k as int, vm));
            }
            k += 1;
        }
    }

    /// Observe every halted engine — possibly replacing the champion — and
    /// reseed it in place for its next run. Returns whether the champion
    /// improved; the caller is expected to persist the genome when it did.
    pub fn handle_halted(&mut self) -> (improved: bool)
        requires
            old(self).wf(),
        ensures
            final(self).wf(),
            final(self).vms@.len() == old(self).vms@.len(),
            final(self).champ() == observe_all(old(self).champ(), vms_abs(old(self).vms@)),
            forall|i: int|
                0 <= i < old(self).vms@.len() && vms_abs(old(self).vms@)[i].halted
                    ==> reseeded_from(
                    observe_all(old(self).champ(), vms_abs(old(self).vms@).take(i + 1)).genome,
                    (#[trigger] final(self).vms@[i])@,
                ),
            forall|i: int|
                0 <= i < old(self).vms@.len() && !vms_abs(old(self).vms@)[i].halted
                    ==> #[trigger] final(self).vms@[i] == old(self).vms@[i],
            improved == (final(self).best_fitness > old(self).best_fitness),
    {
        let ghost c0 = self.champ();
        let ghost orig = self.vms@;
        let ghost vs = vms_abs(orig);
        let orig_best = self.best_fitness;
        let n = self.vms.len();
        let mut k: usize = 0;
        while k < n
            invariant
                k <= n,
                self.vms@.len() == n,
                orig.len() == n,
                vs == vms_abs(orig),
                forall|i: int| 0 <= i < n ==> (#[trigger] orig[i]).wf(),
                self.champ() == observe_all(c0, vs.take(k as int)),
                self.best_fitness >= orig_best,
                forall|i: int|
                    0 <= i < k && vs[i].halted ==> reseeded_from(
                        observe_all(c0, vs.take(i + 1)).genome,
                        (#[trigger] self.vms@[i])@,
                    ),
                forall|i: int|
                    0 <= i < k && vs[i].halted ==> (#[trigger] self.vms@[i]).wf(),
                forall|i: int|
                    0 <= i < k && !vs[i].halted ==> #[trigger] self.vms@[i] == orig[i],
                forall|i: int| k <= i < n ==> #[trigger] self.vms@[i] == orig[i],
            decreases n - k,
        {
            let ghost before = self.vms@;
            let mut vm = self.vms.remove(k);
            if vm.halted {
                if vm.total_steps_count > self.best_fitness {
                    self.best_fitness = vm.total_steps_count;
                    self.best_genome = Some(vm.initial_state);
                }
                match &self.best_genome {
                    Some(best) => {
                        vm.install_genome(best);
                        vm.partial_randomize();
                    },
                    None => {
                        vm.randomize();
                    },
                }
            }
            self.vms.insert(k, vm);
            proof {
                assert(self.vms@ =~= before.update(k as int, vm));
                assert(vs.take(k + 1).drop_last() =~= vs.take(k as int));
                assert(vs.take(k + 1).last() == vs[k as int]);
                assert(observe_all(c0, vs.take(k + 1)) == observe(
                    observe_all(c0, vs.take(k as int)),
                    vs[k as int],
                ));
            }
            k += 1;
        }
        proof {
            assert(vs.take(n as int) =~= vs);
        }
        self.best_fitness > orig_best
    }

    /// One scheduler tick: step every engine once, then observe and reseed
    /// the halted ones. Returns whether the champion improved; the caller
    /// is expected to persist `best_genome` when it did.
    pub fn tick(&mut self) -> (improved: bool)
        requires
            old(self).wf(),
        ensures
            final(self).wf(),
            final(self).vms@.len() == old(self).vms@.len(),
            final(self).champ() == observe_all(
                old(self).champ(),
                stepped_abs(vms_abs(old(self).vms@)),
            ),
            forall|i: int|
                0 <= i < old(self).vms@.len() && stepped_abs(vms_abs(old(self).vms@))[i].halted
                    ==> reseeded_from(
                    observe_all(
                        old(self).champ(),
                        stepped_abs(vms_abs(old(self).vms@)).take(i + 1),
                    ).genome,
                    (#[trigger] final(self).vms@[i])@,
                ),
            forall|i: int|
                0 <= i < old(self).vms@.len() && !stepped_abs(vms_abs(old(self).vms@))[i].halted
                    ==> (#[trigger] final(self).vms@[i])@ == stepped_abs(
                    vms_abs(old(self).vms@),
                )[i],
            improved == (final(self).best_fitness > old(self).best_fitness),
    {
        self.step_all();
        let ghost mid = self.vms@;
        let improved = self.handle_halted();
        proof {
            assert(vms_abs(mid) =~= stepped_abs(vms_abs(old(self).vms@)));
        }
        improved
    }
}

} // verus!
