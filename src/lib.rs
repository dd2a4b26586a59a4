//! A cycle-level simulator for a 16-bit-datapath instruction set with 32-bit
//! instruction words, with an in-order interpreter and an out-of-order engine
//! (Tomasulo's algorithm with a reorder buffer).
pub mod alu;
pub mod control_unit;
pub mod cpu;
pub mod execute;
pub mod isa;
pub mod memory;
pub mod peripherals;
pub mod pipeline;
pub mod program_order;
pub mod register_file;
pub mod tomasulo;
pub mod utils;
