pub mod alu;
pub mod cli;
pub mod flags;
pub mod io;
pub mod laws;
pub mod memory;
pub mod cpu;
pub mod operand;
pub mod instruction;
