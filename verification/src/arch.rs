//! Pluggable architecture modules and the registry that dispatches an
//! architecture identifier to the module registered under its namespace.

use vstd::prelude::*;
use crate::constants::ARCH_DEFAULT;
use crate::error::Error;
use crate::operands::OpCode;

verus! {

/// The capability a concrete instruction set plugs into the substrate:
/// decode one instruction from `bytes`, starting at `offset`, as if it were
/// loaded at virtual address `va`. The substrate treats the result as
/// opaque; a module may be handed more trailing bytes than it needs and
/// must simply ignore them.
pub trait ArchitectureModule {
    fn arch_parse_opcode(&self, bytes: &Vec<u8>, offset: usize, va: i32) -> Result<OpCode, Error>;
}

/// The namespace tag of an architecture identifier: the index into the
/// registry. The default identifier resolves to namespace 0.
pub open spec fn arch_namespace(id: i32) -> int {
    if id == ARCH_DEFAULT {
        0
    } else {
        (id >> 16) as int
    }
}

/// True iff `id` is a canonical architecture identifier: non-negative with
/// its low 16 bits zero.
pub open spec fn arch_id_canonical(id: i32) -> bool {
    id >= 0 && id & 0xffff == 0
}

/// Maps a namespace tag to the module responsible for decoding bytes under
/// that architecture. Built once at session setup and read-only thereafter.
pub struct ArchRegistry<A> {
    pub entries: Vec<Option<A>>,
}

/// True iff the registry holds a module for the namespace of `id`.
pub open spec fn arch_registered<A>(reg: ArchRegistry<A>, id: i32) -> bool {
    let ns = arch_namespace(id);
    0 <= ns < reg.entries@.len() && reg.entries@[ns] is Some
}

/// The module the registry holds for the namespace of `id`.
pub open spec fn arch_module_of<A>(reg: ArchRegistry<A>, id: i32) -> A
    recommends
        arch_registered(reg, id),
{
    reg.entries@[arch_namespace(id)]->Some_0
}

impl<A: ArchitectureModule> ArchRegistry<A> {
    /// An empty registry: no namespace resolves.
    pub fn new() -> (r: Self)
        ensures
            r.entries@.len() == 0,
    {
        ArchRegistry { entries: Vec::new() }
    }

    /// Associates a canonical identifier with the module that decodes bytes
    /// under its namespace, replacing any module registered there before.
    /// Rejects a non-canonical identifier and changes nothing.
    pub fn register(&mut self, id: i32, module: A) -> (r: Result<(), Error>)
        ensures
            r is Ok <==> arch_id_canonical(id),
            r is Ok ==> {
                let ns = arch_namespace(id);
                &&& final(self).entries@.len() >= old(self).entries@.len()
                &&& final(self).entries@.len() > ns
                &&& final(self).entries@[ns] == Some(module)
                &&& forall|j: int|
                    0 <= j < final(self).entries@.len() && j != ns
                        ==> final(self).entries@[j] == if j < old(self).entries@.len() {
                        old(self).entries@[j]
                    } else {
                        None::<A>
                    }
            },
            r is Err ==> *final(self) == *old(self) && r->Err_0 is InvalidState,
    {
        if id < 0 || (id & 0xffff) != 0 {
            return Err(Error::InvalidState("architecture identifier is not canonical".to_owned()));
        }
        assert(id >> 16 >= 0 && id >> 16 <= 0x7fff) by (bit_vector)
            requires
                id >= 0,
        ;
        assert(arch_namespace(id) == id >> 16) by {
            if id == ARCH_DEFAULT {
                assert(0 >> 16 == 0) by (bit_vector);
            }
        }
        let ns = (id >> 16) as usize;
        while self.entries.len() <= ns
            invariant
                self.entries@.len() >= old(self).entries@.len(),
                forall|j: int|
                    0 <= j < self.entries@.len() ==> self.entries@[j] == if j < old(
                        self,
                    ).entries@.len() {
                        old(self).entries@[j]
                    } else {
                        None::<A>
                    },
            decreases ns + 1 - self.entries@.len(),
        {
            self.entries.push(None);
        }
        self.entries[ns] = Some(module);
        Ok(())
    }

    /// Returns the module whose registered namespace matches `id >> 16`,
    /// with the default identifier resolving to namespace 0. Resolving an
    /// unregistered namespace fails with `ArchNotImplemented`.
    pub fn resolve(&self, id: i32) -> (r: Result<&A, Error>)
        ensures
            r is Ok <==> arch_registered(*self, id),
            r is Ok ==> *r->Ok_0 == arch_module_of(*self, id),
            r is Err ==> r->Err_0 is ArchNotImplemented,
    {
        let ns: i32 = if id == ARCH_DEFAULT {
            0
        } else {
            id >> 16
        };
        if ns < 0 || ns as usize >= self.entries.len() {
            return Err(
                Error::ArchNotImplemented("no module registered for the architecture".to_owned()),
            );
        }
        match &self.entries[ns as usize] {
            Some(module) => Ok(module),
            None => Err(
                Error::ArchNotImplemented("no module registered for the architecture".to_owned()),
            ),
        }
    }
}

} // verus!
