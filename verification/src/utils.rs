//! The architecture name table: a total bijection between the enumerated
//! architecture identifiers and their human-readable names. Lookups on an
//! unknown name or identifier yield nothing, never a default guess.

use vstd::prelude::*;
use crate::arch::ArchitectureModule;
use crate::constants::{
    ARCH_AMD64, ARCH_ARMV7, ARCH_DEFAULT, ARCH_H8, ARCH_I386, ARCH_MSP430, ARCH_THUMB,
    ARCH_THUMB16,
};

verus! {

/// The name of an enumerated architecture identifier.
pub open spec fn arch_name_of_id(id: i32) -> Option<Seq<char>> {
    if id == ARCH_DEFAULT {
        Some("default"@)
    } else if id == ARCH_I386 {
        Some("i386"@)
    } else if id == ARCH_AMD64 {
        Some("amd64"@)
    } else if id == ARCH_ARMV7 {
        Some("armv7"@)
    } else if id == ARCH_THUMB16 {
        Some("thumb16"@)
    } else if id == ARCH_THUMB {
        Some("thumb"@)
    } else if id == ARCH_MSP430 {
        Some("msp430"@)
    } else if id == ARCH_H8 {
        Some("h8"@)
    } else {
        None
    }
}

/// The identifier of an enumerated architecture name.
pub open spec fn arch_id_of_name(name: Seq<char>) -> Option<i32> {
    if name == "default"@ {
        Some(ARCH_DEFAULT)
    } else if name == "i386"@ {
        Some(ARCH_I386)
    } else if name == "amd64"@ {
        Some(ARCH_AMD64)
    } else if name == "armv7"@ {
        Some(ARCH_ARMV7)
    } else if name == "thumb16"@ {
        Some(ARCH_THUMB16)
    } else if name == "thumb"@ {
        Some(ARCH_THUMB)
    } else if name == "msp430"@ {
        Some(ARCH_MSP430)
    } else if name == "h8"@ {
        Some(ARCH_H8)
    } else {
        None
    }
}

/// Relies on `<str as PartialEq>::eq`: two string slices compare equal
/// exactly when their character sequences are equal.
#[verifier::external_body]
fn str_eq(a: &str, b: &str) -> (r: bool)
    ensures
        r == (a@ == b@),
{
    a == b
}

/// The architecture identifier for a human name, or nothing for an unknown
/// name.
pub fn get_arch_by_name(arch_name: &str) -> (r: Option<i32>)
    ensures
        r == arch_id_of_name(arch_name@),
{
    if str_eq(arch_name, "default") {
        Some(ARCH_DEFAULT)
    } else if str_eq(arch_name, "i386") {
        Some(ARCH_I386)
    } else if str_eq(arch_name, "amd64") {
        Some(ARCH_AMD64)
    } else if str_eq(arch_name, "armv7") {
        Some(ARCH_ARMV7)
    } else if str_eq(arch_name, "thumb16") {
        Some(ARCH_THUMB16)
    } else if str_eq(arch_name, "thumb") {
        Some(ARCH_THUMB)
    } else if str_eq(arch_name, "msp430") {
        Some(ARCH_MSP430)
    } else if str_eq(arch_name, "h8") {
        Some(ARCH_H8)
    } else {
        None
    }
}

/// The human name for an architecture identifier, or nothing for an
/// unknown identifier.
pub fn get_arch_by_id(arch_id: i32) -> (r: Option<&'static str>)
    ensures
        match r {
            Some(n) => arch_name_of_id(arch_id) == Some(n@),
            None => arch_name_of_id(arch_id) is None,
        },
{
    if arch_id == ARCH_DEFAULT {
        Some("default")
    } else if arch_id == ARCH_I386 {
        Some("i386")
    } else if arch_id == ARCH_AMD64 {
        Some("amd64")
    } else if arch_id == ARCH_ARMV7 {
        Some("armv7")
    } else if arch_id == ARCH_THUMB16 {
        Some("thumb16")
    } else if arch_id == ARCH_THUMB {
        Some("thumb")
    } else if arch_id == ARCH_MSP430 {
        Some("msp430")
    } else if arch_id == ARCH_H8 {
        Some("h8")
    } else {
        None
    }
}

/// The name of the machine this process runs on, were it one of the
/// enumerated architectures. This substrate targets none in particular, so
/// there is nothing to report.
pub fn get_current_arch() -> (r: Option<&'static str>)
    ensures
        r is None,
{
    None
}

/// The architecture modules this substrate ships for `arch`: none at all.
/// Concrete modules are supplied by the embedding session, which registers
/// them in an `ArchRegistry`.
pub fn get_arch_modules<A: ArchitectureModule>(_arch: Option<i32>) -> (r: Vec<A>)
    ensures
        r@.len() == 0,
{
    Vec::new()
}

/// Architecture id round-trip: for every enumerated identifier, looking up
/// its name and then that name's identifier returns the same identifier.
pub proof fn lemma_arch_id_round_trip(id: i32)
    requires
        arch_name_of_id(id) is Some,
    ensures
        arch_id_of_name(arch_name_of_id(id)->Some_0) == Some(id),
{
    reveal_strlit("default");
    reveal_strlit("i386");
    reveal_strlit("amd64");
    reveal_strlit("armv7");
    reveal_strlit("thumb16");
    reveal_strlit("thumb");
    reveal_strlit("msp430");
    reveal_strlit("h8");
    assert("default"@.len() == 7 && "i386"@.len() == 4 && "amd64"@.len() == 5 && "armv7"@.len()
        == 5 && "thumb16"@.len() == 7 && "thumb"@.len() == 5 && "msp430"@.len() == 6
        && "h8"@.len() == 2);
    if id == ARCH_ARMV7 {
        assert("armv7"@[1] != "amd64"@[1]);
    } else if id == ARCH_THUMB16 {
        assert("thumb16"@[0] != "default"@[0]);
    } else if id == ARCH_THUMB {
        assert("thumb"@[0] != "amd64"@[0]);
        assert("thumb"@[0] != "armv7"@[0]);
    }
}

} // verus!
