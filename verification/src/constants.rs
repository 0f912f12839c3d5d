//! Architecture identifiers, memory permission bits, and the control-flow
//! flag bits carried by decoded opcodes.

use vstd::prelude::*;

verus! {

/// Canonical architecture identifiers. The high 16 bits are a namespace tag
/// (the index into the architecture registry); the low 16 bits are zero.
pub const ARCH_DEFAULT: i32 = 0;

pub const ARCH_I386: i32 = 0x10000;

pub const ARCH_AMD64: i32 = 0x20000;

pub const ARCH_ARMV7: i32 = 0x30000;

pub const ARCH_THUMB16: i32 = 0x40000;

pub const ARCH_THUMB: i32 = 0x50000;

pub const ARCH_MSP430: i32 = 0x60000;

pub const ARCH_H8: i32 = 0x70000;

/// Mask selecting the namespace tag of an architecture identifier.
pub const ARCH_MASK: i64 = 0xffff0000;

/// Memory map permission bits.
pub const MM_EXEC: i32 = 0x1;

pub const MM_WRITE: i32 = 0x2;

pub const MM_READ: i32 = 0x4;

pub const MM_SHARED: i32 = 0x8;

/// Instruction flag: execution never falls through to the next instruction.
pub const IF_NOFALL: i32 = 0x01;

/// Instruction flag: the instruction is privileged.
pub const IF_PRIV: i32 = 0x02;

/// Instruction flag: the instruction is a procedure call.
pub const IF_CALL: i32 = 0x04;

/// Instruction flag: the instruction is a branch.
pub const IF_BRANCH: i32 = 0x08;

/// Instruction flag: the instruction returns from a procedure.
pub const IF_RET: i32 = 0x10;

/// Instruction flag: the instruction is conditional.
pub const IF_COND: i32 = 0x20;

/// Instruction flag: the instruction repeats (including 0 times).
pub const IF_REPEAT: i32 = 0x40;

/// A conditional branch: both `IF_COND` and `IF_BRANCH`.
pub const IF_BRANCH_COND: i32 = 0x28;

/// Branch flag: the branch is a procedure call.
pub const BR_PROC: i32 = 0x01;

/// Branch flag: the branch is conditional.
pub const BR_COND: i32 = 0x02;

/// Branch flag: the branch target is dereferenced into the program counter.
pub const BR_DEREF: i32 = 0x04;

/// Branch flag: the branch is the base of a pointer array of jump slots.
pub const BR_TABLE: i32 = 0x08;

/// Branch flag: the branch is a fall-through edge.
pub const BR_FALL: i32 = 0x10;

/// Branch flag: the branch switches opcode formats.
pub const BR_ARCH: i32 = 0x20;

/// Byte order of multi-byte values held in a simulated address space.
#[derive(Clone, Copy, PartialEq, Eq, Structural, Debug)]
pub enum Endianess {
    Little,
    Big,
}

} // verus!
