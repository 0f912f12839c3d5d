//! The emulator interface: a thin extension combining the register file
//! and the memory object, plus architecture-specific option strings.
//!
//! A concrete emulator composes a `RegisterContextData` and an
//! `AddressSpace` (or its own backing stores) behind one type; instruction
//! semantics belong to the architecture modules, never to this substrate.

use vstd::prelude::*;
use crate::memory::MemoryObject;
use crate::registers::RegisterContext;

verus! {

/// A light-weight user-space emulation session: everything of
/// `RegisterContext` and `MemoryObject` (which also supplies the byte-order
/// accessors), plus named option strings. Architecture-specific option keys
/// begin with `<arch>:`, platform options with `<platform>:`.
pub trait Emulator: RegisterContext + MemoryObject {
    /// Declares an option with its default value and documentation.
    fn init_emu_opts(&mut self, opt: &str, defval: &str, doc: &str);

    /// Sets a declared option.
    fn set_emu_opt(&mut self, key: &str, val: &str);

    /// The current value of an option, or nothing for an unknown key.
    fn get_emu_opt(&self, key: &str) -> Option<String>;
}

} // verus!
