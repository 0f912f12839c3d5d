//! The failure taxonomy shared by every operation of the substrate. All
//! failures are returned as typed values; the verified functions of this
//! crate never panic.

use vstd::prelude::*;

verus! {

/// A typed failure, propagated to the caller and never silently swallowed.
#[derive(Clone, Debug, PartialEq, Eq)]
pub enum Error {
    /// The selected architecture module is not registered.
    ArchNotImplemented(String),
    /// The selected architecture module does not provide the capability.
    FuncNotImplemented(String),
    /// Allocation cannot satisfy the requested size.
    NoValidFreeMemoryFound(i32),
    /// An operation referenced an address or region with no matching map.
    MapNotFound(i32),
    /// A read or write touched memory outside its permission bounds; carries
    /// the offending address.
    SegmentationViolation(i32, String),
    /// A programmer or configuration error in the use of the substrate.
    InvalidState(String),
    /// A register reference whose base index or encoding is invalid.
    InvalidRegisterName(String),
    /// A calling convention name that the session does not know.
    UnknownCallingConvention(String),
    /// A collaborator-reported failure this substrate does not interpret.
    Generic(String),
}

impl Error {
    /// What `message` returns for each failure kind.
    pub open spec fn message_spec(&self) -> Seq<char> {
        match self {
            Error::ArchNotImplemented(s) => s@,
            Error::FuncNotImplemented(s) => s@,
            Error::NoValidFreeMemoryFound(_) => "no valid free memory was found"@,
            Error::MapNotFound(_) => "no map found at the given address"@,
            Error::SegmentationViolation(_, s) => s@,
            Error::InvalidState(s) => s@,
            Error::InvalidRegisterName(s) => s@,
            Error::UnknownCallingConvention(s) => s@,
            Error::Generic(s) => s@,
        }
    }

    /// A short human-readable description of the failure.
    pub fn message(&self) -> (r: String)
        ensures
            r@ == self.message_spec(),
    {
        match self {
            Error::ArchNotImplemented(s) => s.clone(),
            Error::FuncNotImplemented(s) => s.clone(),
            Error::NoValidFreeMemoryFound(_) => "no valid free memory was found".to_owned(),
            Error::MapNotFound(_) => "no map found at the given address".to_owned(),
            Error::SegmentationViolation(_, s) => s.clone(),
            Error::InvalidState(s) => s.clone(),
            Error::InvalidRegisterName(s) => s.clone(),
            Error::UnknownCallingConvention(s) => s.clone(),
            Error::Generic(s) => s.clone(),
        }
    }
}

} // verus!
