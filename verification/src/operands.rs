//! The structured result of decoding one instruction.

use vstd::prelude::*;
use crate::constants::{IF_BRANCH, IF_CALL, IF_COND, IF_NOFALL, IF_RET};

verus! {

/// A decoded opcode: the architecture that produced it, its byte length, and
/// the orthogonal control-flow flag bitsets every architecture module must
/// preserve bit-for-bit for downstream flow analysis.
#[derive(Clone, Debug, PartialEq, Eq)]
pub struct OpCode {
    /// The architecture identifier the bytes were decoded under.
    pub arch: i32,
    /// The byte length of the instruction.
    pub size: i32,
    /// Instruction flags: a bitset over the `IF_` constants.
    pub iflags: i32,
    /// Branch flags: a bitset over the `BR_` constants, meaningful when the
    /// instruction is a branch.
    pub bflags: i32,
}

impl OpCode {
    /// True iff the instruction flags mark a branch.
    pub fn is_branch(&self) -> (r: bool)
        ensures
            r == (self.iflags & IF_BRANCH != 0),
    {
        self.iflags & IF_BRANCH != 0
    }

    /// True iff the instruction flags mark a procedure call.
    pub fn is_call(&self) -> (r: bool)
        ensures
            r == (self.iflags & IF_CALL != 0),
    {
        self.iflags & IF_CALL != 0
    }

    /// True iff the instruction flags mark a return.
    pub fn is_return(&self) -> (r: bool)
        ensures
            r == (self.iflags & IF_RET != 0),
    {
        self.iflags & IF_RET != 0
    }

    /// True iff the instruction is conditional.
    pub fn is_conditional(&self) -> (r: bool)
        ensures
            r == (self.iflags & IF_COND != 0),
    {
        self.iflags & IF_COND != 0
    }

    /// True iff execution can fall through to the next instruction.
    pub fn falls_through(&self) -> (r: bool)
        ensures
            r == (self.iflags & IF_NOFALL == 0),
    {
        self.iflags & IF_NOFALL == 0
    }
}

} // verus!
