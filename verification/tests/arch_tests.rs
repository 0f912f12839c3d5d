use envi::arch::{ArchRegistry, ArchitectureModule};
use envi::constants::{
    ARCH_AMD64, ARCH_ARMV7, ARCH_DEFAULT, ARCH_H8, ARCH_I386, ARCH_MSP430, ARCH_THUMB,
    ARCH_THUMB16, IF_BRANCH, IF_CALL, IF_COND, IF_NOFALL,
};
use envi::error::Error;
use envi::operands::OpCode;
use envi::utils::{get_arch_by_id, get_arch_by_name, get_arch_modules, get_current_arch};

struct TagModule(i32);

impl ArchitectureModule for TagModule {
    fn arch_parse_opcode(&self, _bytes: &Vec<u8>, _offset: usize, _va: i32) -> Result<OpCode, Error> {
        Ok(OpCode { arch: self.0, size: 2, iflags: 0, bflags: 0 })
    }
}

#[test]
fn arch_ids_round_trip_through_their_names() {
    let ids = [
        ARCH_DEFAULT,
        ARCH_I386,
        ARCH_AMD64,
        ARCH_ARMV7,
        ARCH_THUMB16,
        ARCH_THUMB,
        ARCH_MSP430,
        ARCH_H8,
    ];
    for id in ids {
        let name = get_arch_by_id(id).unwrap();
        assert_eq!(get_arch_by_name(name), Some(id));
    }
}

#[test]
fn arch_names_round_trip_through_their_ids() {
    for name in ["default", "i386", "amd64", "armv7", "thumb16", "thumb", "msp430", "h8"] {
        let id = get_arch_by_name(name).unwrap();
        assert_eq!(get_arch_by_id(id), Some(name));
    }
}

#[test]
fn unknown_names_and_ids_are_not_found() {
    assert_eq!(get_arch_by_name("z80"), None);
    assert_eq!(get_arch_by_name(""), None);
    assert_eq!(get_arch_by_id(0x80000), None);
    assert_eq!(get_arch_by_id(1), None);
    assert_eq!(get_arch_by_id(-1), None);
}

#[test]
fn the_substrate_itself_knows_no_host_or_bundled_architectures() {
    assert_eq!(get_current_arch(), None);
    let modules: Vec<TagModule> = get_arch_modules(None);
    assert!(modules.is_empty());
    let more: Vec<TagModule> = get_arch_modules(Some(ARCH_I386));
    assert!(more.is_empty());
}

#[test]
fn the_registry_resolves_by_namespace_with_a_default() {
    let mut reg = ArchRegistry::new();
    reg.register(ARCH_DEFAULT, TagModule(0)).unwrap();
    reg.register(ARCH_AMD64, TagModule(2)).unwrap();
    let m = reg.resolve(ARCH_DEFAULT).unwrap();
    assert_eq!(m.0, 0);
    let m2 = reg.resolve(ARCH_AMD64).unwrap();
    assert_eq!(m2.0, 2);
    assert!(matches!(reg.resolve(ARCH_H8), Err(Error::ArchNotImplemented(_))));
    assert!(matches!(reg.resolve(-5), Err(Error::ArchNotImplemented(_))));
    // re-registering a namespace replaces the module
    reg.register(ARCH_AMD64, TagModule(22)).unwrap();
    assert_eq!(reg.resolve(ARCH_AMD64).unwrap().0, 22);
}

#[test]
fn the_registry_rejects_non_canonical_identifiers() {
    let mut reg = ArchRegistry::new();
    assert!(matches!(reg.register(0x10001, TagModule(1)), Err(Error::InvalidState(_))));
    assert!(matches!(reg.register(-1, TagModule(1)), Err(Error::InvalidState(_))));
    assert!(matches!(reg.resolve(ARCH_I386), Err(Error::ArchNotImplemented(_))));
}

#[test]
fn opcode_flag_queries_read_the_instruction_flags() {
    let op = OpCode { arch: ARCH_I386, size: 2, iflags: IF_BRANCH | IF_COND, bflags: 0 };
    assert!(op.is_branch());
    assert!(op.is_conditional());
    assert!(!op.is_call());
    assert!(!op.is_return());
    assert!(op.falls_through());
    let ret = OpCode { arch: ARCH_I386, size: 1, iflags: IF_NOFALL | IF_CALL, bflags: 0 };
    assert!(!ret.falls_through());
    assert!(ret.is_call());
}

#[test]
fn error_messages_describe_the_failure() {
    assert_eq!(Error::MapNotFound(5).message(), "no map found at the given address");
    assert_eq!(Error::NoValidFreeMemoryFound(9).message(), "no valid free memory was found");
    assert_eq!(Error::Generic("decode broke".to_string()).message(), "decode broke");
    assert_eq!(
        Error::SegmentationViolation(1, "bad write".to_string()).message(),
        "bad write"
    );
}
