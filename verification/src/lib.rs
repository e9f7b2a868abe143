//! A fixed-size byte-addressable virtual machine for evolved programs.
//!
//! The crate provides an execution engine for a 256-cell, 8-bit machine
//! (`compute::VM`), a mathematical model of its instruction cycle
//! (`model::step_spec`), proved laws about that cycle (`laws`), and an
//! evolutionary driver that searches for long-running programs by mutating
//! the best genome found so far (`driver::Driver`).

pub mod compute;
pub mod driver;
pub mod laws;
pub mod model;
