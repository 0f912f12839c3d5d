//! Architecture-agnostic substrate for binary emulation and disassembly:
//! a simulated virtual address space made of permissioned memory maps, a
//! register file with bit-packed sub-register aliasing, and a registry that
//! dispatches opcode decoding to pluggable architecture modules.

pub mod arch;
pub mod constants;
pub mod emulator;
pub mod error;
pub mod memory;
pub mod operands;
pub mod registers;
pub mod utils;
