use evovm::compute::VM;
use evovm::driver::Driver;
use evovm::model::MEM_SIZE;

/// A program of `n - 1` INCs followed by HLT: its run lasts exactly `n`
/// steps (kept well under the 16-entry stall window).
fn program_with_fitness(n: usize) -> Vec<u8> {
    assert!(n >= 1 && n <= 15);
    let mut program = vec![0x07u8; n];
    program[n - 1] = 0xFF;
    program
}

fn halted_vm_with_fitness(n: usize) -> VM {
    let mut vm = VM::new();
    vm.load_program(&program_with_fitness(n));
    vm.run(1000);
    assert!(vm.halted);
    assert_eq!(vm.total_steps_count, n);
    vm
}

#[test]
fn new_driver_has_no_champion() {
    let driver = Driver::new(4);
    assert_eq!(driver.vms.len(), 4);
    assert_eq!(driver.best_fitness, 0);
    assert!(driver.best_genome.is_none());
}

#[test]
fn a_weaker_second_halt_keeps_the_champion() {
    let mut driver = Driver::new(0);
    driver.vms.push(halted_vm_with_fitness(10));
    let genome_ten = driver.vms[0].initial_state;

    let improved = driver.handle_halted();
    assert!(improved);
    assert_eq!(driver.best_fitness, 10);
    assert_eq!(driver.best_genome, Some(genome_ten));

    driver.vms[0] = halted_vm_with_fitness(7);
    let improved = driver.handle_halted();
    assert!(!improved);
    assert_eq!(driver.best_fitness, 10);
    assert_eq!(driver.best_genome, Some(genome_ten));
}

#[test]
fn a_stronger_second_halt_replaces_the_champion() {
    let mut driver = Driver::new(0);
    driver.vms.push(halted_vm_with_fitness(10));
    let improved = driver.handle_halted();
    assert!(improved);
    assert_eq!(driver.best_fitness, 10);

    driver.vms[0] = halted_vm_with_fitness(15);
    let genome_fifteen = driver.vms[0].initial_state;
    let improved = driver.handle_halted();
    assert!(improved);
    assert_eq!(driver.best_fitness, 15);
    assert_eq!(driver.best_genome, Some(genome_fifteen));
}

#[test]
fn a_stalled_run_never_becomes_the_champion() {
    let mut driver = Driver::new(0);
    let mut vm = VM::new();
    vm.load_program(&[0x05, 0x00]); // JMP 0 forever: stalls with fitness 0
    vm.run(1000);
    assert!(vm.halted);
    assert_eq!(vm.total_steps_count, 0);
    driver.vms.push(vm);

    let improved = driver.handle_halted();
    assert!(!improved);
    assert_eq!(driver.best_fitness, 0);
    assert!(driver.best_genome.is_none());
}

#[test]
fn handle_halted_reseeds_the_halted_engine() {
    let mut driver = Driver::new(0);
    driver.vms.push(halted_vm_with_fitness(10));
    let genome_ten = driver.vms[0].initial_state;
    driver.handle_halted();

    let vm = &driver.vms[0];
    assert!(!vm.halted);
    assert_eq!(vm.pc, 0);
    assert_eq!(vm.acc, 0);
    assert_eq!(vm.total_steps_count, 0);
    assert!(vm.recent_instructions.is_empty());
    // Reseeded from the champion: at most a tenth of the cells differ.
    let changed = (0..MEM_SIZE).filter(|&i| vm.memory[i] != genome_ten[i]).count();
    assert!(changed <= MEM_SIZE * 10 / 100);
}

#[test]
fn an_unhalted_engine_is_left_alone() {
    let mut driver = Driver::new(0);
    let mut vm = VM::new();
    vm.load_program(&program_with_fitness(10));
    vm.run(3); // still running
    assert!(!vm.halted);
    driver.vms.push(vm);

    let improved = driver.handle_halted();
    assert!(!improved);
    assert_eq!(driver.best_fitness, 0);
    assert_eq!(driver.vms[0].total_steps_count, 3);
    assert!(!driver.vms[0].halted);
}

#[test]
fn ticks_only_improve_the_champion() {
    let mut driver = Driver::new(8);
    let mut best = driver.best_fitness;
    for _ in 0..500 {
        let improved = driver.tick();
        if improved {
            assert!(driver.best_fitness > best);
            assert!(driver.best_genome.is_some());
        } else {
            assert_eq!(driver.best_fitness, best);
        }
        best = driver.best_fitness;
    }
}
