//! A shared instruction memory in which self-replicating processors run
//! under a round-robin scheduler.
//!
//! The memory is a fixed number of cells, each holding an opcode or
//! nothing. A processor owns a pointer and a circular window of addresses;
//! it executes the cell under its pointer and moves on, wrapping inside the
//! window. When it executes the replicating opcode, the machine copies the
//! window to the cells that start at the lowest empty cell and binds a new
//! processor to the copy.
//!
//! Allocation looks at that one cell only. The cells after it are not
//! required to be empty, so a copy may overwrite opcodes, and the replication
//! is dropped only when no cell is empty or the window would reach past the
//! end of the memory. A copy always holds what the source window held before
//! it, also where the two overlap.

pub mod cpu;
pub mod instruction;
pub mod laws;
pub mod soup;
pub mod universe;

pub use crate::cpu::Cpu;
pub use crate::instruction::Instruction;
pub use crate::universe::Universe;
