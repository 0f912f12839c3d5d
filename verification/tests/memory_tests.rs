use envi::arch::{ArchRegistry, ArchitectureModule};
use envi::constants::{Endianess, ARCH_DEFAULT, MM_EXEC, MM_READ, MM_SHARED, MM_WRITE};
use envi::error::Error;
use envi::memory::{AddressSpace, Memory};
use envi::operands::OpCode;

struct NopModule;

impl ArchitectureModule for NopModule {
    fn arch_parse_opcode(&self, _bytes: &Vec<u8>, _offset: usize, va: i32) -> Result<OpCode, Error> {
        Ok(OpCode { arch: ARCH_DEFAULT, size: 1, iflags: 0, bflags: 0 })
    }
}

struct FailModule;

impl ArchitectureModule for FailModule {
    fn arch_parse_opcode(
        &self,
        _bytes: &Vec<u8>,
        _offset: usize,
        _va: i32,
    ) -> Result<OpCode, Error> {
        Err(Error::Generic("decode failed".to_string()))
    }
}

fn space() -> AddressSpace<NopModule> {
    AddressSpace::new(Endianess::Little, 4, ArchRegistry::new())
}

#[test]
fn get_memory_map_returns_the_containing_map() {
    let mut s = space();
    s.add_memory_map(0x1000, MM_READ, "a", Some(&[1u8; 16]), None).unwrap();
    s.add_memory_map(0x2000, MM_READ | MM_WRITE, "b", Some(&[2u8; 32]), None).unwrap();
    let (va, size, perms, name) = s.get_memory_map(0x1008).unwrap();
    assert_eq!(va, 0x1000);
    assert_eq!(size, 16);
    assert_eq!(perms, MM_READ);
    assert_eq!(name, Some("a".to_string()));
    let (va2, size2, perms2, _) = s.get_memory_map(0x2000).unwrap();
    assert_eq!((va2, size2, perms2), (0x2000, 32, MM_READ | MM_WRITE));
    assert!(s.get_memory_map(0x1010).is_none());
    assert!(s.get_memory_map(0xfff).is_none());
    assert!(s.get_memory_map(0x3000).is_none());
}

#[test]
fn overlapping_add_fails_without_partial_mutation() {
    let mut s = space();
    s.add_memory_map(0x1000, MM_READ, "a", Some(&[0u8; 0x100]), None).unwrap();
    let before = s.get_memory_maps();
    let r = s.add_memory_map(0x10ff, MM_READ, "b", Some(&[0u8; 0x10]), None);
    assert!(matches!(r, Err(Error::InvalidState(_))));
    assert_eq!(s.get_memory_maps(), before);
    // fully inside an existing map fails too
    let r2 = s.add_memory_map(0x1004, MM_READ, "c", Some(&[0u8; 4]), None);
    assert!(r2.is_err());
    assert_eq!(s.get_memory_maps(), before);
    // exactly abutting is fine
    s.add_memory_map(0x1100, MM_READ, "d", Some(&[0u8; 4]), None).unwrap();
    assert_eq!(s.get_memory_maps().len(), 2);
}

#[test]
fn probe_memory_needs_one_map_covering_the_whole_range() {
    let mut s = space();
    s.add_memory_map(0x1000, MM_READ | MM_WRITE, "a", Some(&[0u8; 16]), None).unwrap();
    s.add_memory_map(0x1010, MM_READ | MM_WRITE, "b", Some(&[0u8; 16]), None).unwrap();
    assert!(s.probe_memory(0x1000, 16, MM_READ));
    assert!(s.probe_memory(0x1004, 8, MM_READ | MM_WRITE));
    // spanning two adjacent maps is false even though both grant the bits
    assert!(!s.probe_memory(0x1008, 16, MM_READ));
    // permissions must be a superset
    assert!(!s.probe_memory(0x1000, 4, MM_EXEC));
    // no map at all
    assert!(!s.probe_memory(0x4000, 4, MM_READ));
}

#[test]
fn max_read_size_walks_adjacent_maps_and_stops_at_gaps() {
    let mut s = space();
    s.add_memory_map(0x1000, MM_READ, "a", Some(&[0u8; 4]), None).unwrap();
    s.add_memory_map(0x1004, MM_READ, "b", Some(&[0u8; 4]), None).unwrap();
    s.add_memory_map(0x1008, MM_READ, "c", Some(&[0u8; 4]), None).unwrap();
    assert_eq!(s.get_max_read_size(0x1000), 12);

    let mut gapped = space();
    gapped.add_memory_map(0x1000, MM_READ, "a", Some(&[0u8; 4]), None).unwrap();
    gapped.add_memory_map(0x1005, MM_READ, "b", Some(&[0u8; 4]), None).unwrap();
    gapped.add_memory_map(0x1009, MM_READ, "c", Some(&[0u8; 4]), None).unwrap();
    assert_eq!(gapped.get_max_read_size(0x1000), 4);
}

#[test]
fn max_read_size_stops_at_non_readable_maps() {
    let mut s = space();
    s.add_memory_map(0x1000, MM_READ, "a", Some(&[0u8; 4]), None).unwrap();
    s.add_memory_map(0x1004, MM_WRITE, "b", Some(&[0u8; 4]), None).unwrap();
    assert_eq!(s.get_max_read_size(0x1000), 4);
    assert_eq!(s.get_max_read_size(0x1002), 2);
    assert_eq!(s.get_max_read_size(0x1004), 0);
    assert_eq!(s.get_max_read_size(0x9000), 0);
}

#[test]
fn write_then_read_round_trips() {
    let mut s = space();
    s.add_memory_map(0x1000, MM_READ | MM_WRITE, "a", Some(&[0u8; 64]), None).unwrap();
    s.write_memory(0x1010, &[0xDE, 0xAD, 0xBE, 0xEF]).unwrap();
    let bytes = s.read_memory(0x1010, 4).unwrap();
    assert_eq!(bytes, vec![0xDE, 0xAD, 0xBE, 0xEF]);
    // neighbours are untouched
    assert_eq!(s.read_memory(0x100f, 1).unwrap(), vec![0]);
    assert_eq!(s.read_memory(0x1014, 1).unwrap(), vec![0]);
}

#[test]
fn write_crossing_two_maps_round_trips() {
    let mut s = space();
    s.add_memory_map(0x1000, MM_READ | MM_WRITE, "a", Some(&[0u8; 4]), None).unwrap();
    s.add_memory_map(0x1004, MM_READ | MM_WRITE, "b", Some(&[0u8; 4]), None).unwrap();
    s.write_memory(0x1002, &[1, 2, 3, 4]).unwrap();
    assert_eq!(s.read_memory(0x1002, 4).unwrap(), vec![1, 2, 3, 4]);
}

#[test]
fn write_outside_writable_memory_is_a_segmentation_violation() {
    let mut s = space();
    s.add_memory_map(0x1000, MM_READ, "ro", Some(&[9u8; 8]), None).unwrap();
    let r = s.write_memory(0x1000, &[1]);
    match r {
        Err(Error::SegmentationViolation(va, _)) => assert_eq!(va, 0x1000),
        other => panic!("expected a segmentation violation, got {:?}", other),
    }
    // the read-only bytes are unchanged
    assert_eq!(s.read_memory(0x1000, 1).unwrap(), vec![9]);
    // unmapped target fails the same way
    assert!(matches!(s.write_memory(0x7000, &[1]), Err(Error::SegmentationViolation(0x7000, _))));
}

#[test]
fn read_memory_fails_across_unreadable_bytes() {
    let mut s = space();
    s.add_memory_map(0x1000, MM_READ, "a", Some(&[1u8; 4]), None).unwrap();
    assert!(s.read_memory(0x1000, 5).is_none());
    assert!(s.read_memory(0xfff, 2).is_none());
    assert!(s.read_memory(0x5000, 1).is_none());
    assert_eq!(s.read_memory(0x1000, 0).unwrap(), Vec::<u8>::new());
}

#[test]
fn protect_memory_needs_an_exact_match() {
    let mut s = space();
    s.add_memory_map(0x1000, MM_READ | MM_WRITE, "a", Some(&[0u8; 16]), None).unwrap();
    assert!(matches!(s.protect_memory(0x1000, 8, MM_READ), Err(Error::MapNotFound(0x1000))));
    assert!(matches!(s.protect_memory(0x1008, 8, MM_READ), Err(Error::MapNotFound(0x1008))));
    s.protect_memory(0x1000, 16, MM_READ).unwrap();
    assert!(s.is_readable(0x1000));
    assert!(!s.is_writable(0x1000));
    assert!(matches!(s.write_memory(0x1000, &[1]), Err(Error::SegmentationViolation(_, _))));
}

#[test]
fn permission_queries_follow_the_map_bits() {
    let mut s = space();
    s.add_memory_map(0x1000, MM_READ | MM_EXEC, "code", Some(&[0u8; 8]), None).unwrap();
    s.add_memory_map(0x2000, MM_WRITE | MM_SHARED, "shm", Some(&[0u8; 8]), None).unwrap();
    assert!(s.is_valid_pointer(0x1000));
    assert!(!s.is_valid_pointer(0x1008));
    assert!(s.is_readable(0x1000));
    assert!(s.is_executable(0x1000));
    assert!(!s.is_writable(0x1000));
    assert!(!s.is_shared(0x1000));
    assert!(s.is_writable(0x2000));
    assert!(s.is_shared(0x2000));
    assert!(!s.is_readable(0x2000));
    assert!(!s.is_executable(0x2000));
}

#[test]
fn allocate_memory_first_fit_takes_the_lowest_free_gap() {
    let mut s = space();
    s.add_memory_map(0x1000, MM_READ, "a", Some(&[1u8; 16]), None).unwrap();
    let base = s.allocate_memory(0x20, MM_READ | MM_WRITE, None).unwrap();
    assert_eq!(base, 0);
    assert_eq!(s.read_memory(base, 0x20).unwrap(), vec![0u8; 0x20]);
    let next = s.allocate_memory(0x10, MM_READ, None).unwrap();
    assert_eq!(next, 0x20);
    let at = s.allocate_memory(0x10, MM_READ, Some(0x9000)).unwrap();
    assert_eq!(at, 0x9000);
    assert!(s.is_readable(0x9000));
}

#[test]
fn allocate_memory_searches_gaps_when_the_top_is_full() {
    let mut s = space();
    // a map ending exactly at the address-space limit: no room above it
    s.add_memory_map(0x7ffffff0, MM_READ, "top", Some(&[0u8; 0xf]), None).unwrap();
    let base = s.allocate_memory(0x100, MM_READ, None).unwrap();
    assert_eq!(base, 0);
    assert!(s.is_readable(0));
}

#[test]
fn allocate_memory_rejects_occupied_or_invalid_regions() {
    let mut s = space();
    s.add_memory_map(0x1000, MM_READ, "a", Some(&[1u8; 16]), None).unwrap();
    // a pinned region that overlaps fails even though other space is free
    assert!(matches!(
        s.allocate_memory(0x10, MM_READ, Some(0x1008)),
        Err(Error::NoValidFreeMemoryFound(0x10))
    ));
    assert!(matches!(s.allocate_memory(0, MM_READ, None), Err(Error::NoValidFreeMemoryFound(0))));
    assert!(matches!(
        s.allocate_memory(0x7fffffff, MM_READ, Some(0x1000000)),
        Err(Error::NoValidFreeMemoryFound(_))
    ));
    // without a suggestion a region this large fits nowhere around the map
    assert!(matches!(
        s.allocate_memory(0x7fffffff, MM_READ, None),
        Err(Error::NoValidFreeMemoryFound(_))
    ));
}

#[test]
fn add_memory_map_rounds_the_base_down_to_the_alignment() {
    let mut s = space();
    let base = s.add_memory_map(0x1234, MM_READ, "a", Some(&[0u8; 4]), Some(0x1000)).unwrap();
    assert_eq!(base, 0x1000);
    assert!(s.is_readable(0x1000));
    assert!(matches!(
        s.add_memory_map(0x5000, MM_READ, "b", Some(&[0u8; 4]), Some(0)),
        Err(Error::InvalidState(_))
    ));
    assert!(matches!(s.add_memory_map(0x5000, MM_READ, "c", None, None), Err(Error::InvalidState(_))));
    assert!(matches!(
        s.add_memory_map(0x5000, MM_READ, "d", Some(&[]), None),
        Err(Error::InvalidState(_))
    ));
}

#[test]
fn read_mem_value_follows_the_byte_order() {
    let mut little = space();
    little.add_memory_map(0x1000, MM_READ, "a", Some(&[0x78, 0x56, 0x34, 0x12]), None).unwrap();
    assert_eq!(little.read_mem_value(0x1000, 4), Some(0x12345678));
    assert_eq!(little.read_mem_value(0x1000, 2), Some(0x5678));
    // an empty read succeeds, exactly as read_memory does, and yields zero
    assert_eq!(little.read_mem_value(0x1000, 0), Some(0));
    assert_eq!(little.read_mem_value(0x1000, 9), None);
    assert_eq!(little.read_mem_value(0x2000, 4), None);

    let mut big = AddressSpace::<NopModule>::new(Endianess::Big, 4, ArchRegistry::new());
    big.add_memory_map(0x1000, MM_READ, "a", Some(&[0x12, 0x34, 0x56, 0x78]), None).unwrap();
    assert_eq!(big.read_mem_value(0x1000, 4), Some(0x12345678));
    assert_eq!(big.read_mem_value(0x1002, 2), Some(0x5678));
}

#[test]
fn parse_op_code_without_a_backing_map_is_a_map_error() {
    let s = space();
    let r = s.parse_op_code(0x41414141, None);
    assert!(matches!(r, Err(Error::MapNotFound(0x41414141))));
    // a window that runs off the end of the map fails the same way
    let mut short = space();
    short.add_memory_map(0x1000, MM_READ, "a", Some(&[0u8; 8]), None).unwrap();
    assert!(matches!(short.parse_op_code(0x1000, None), Err(Error::MapNotFound(0x1000))));
}

#[test]
fn parse_op_code_dispatches_to_the_registered_module() {
    let mut reg = ArchRegistry::new();
    reg.register(ARCH_DEFAULT, NopModule).unwrap();
    let mut s = AddressSpace::new(Endianess::Little, 4, reg);
    s.add_memory_map(0x1000, MM_READ | MM_EXEC, "code", Some(&[0u8; 32]), None).unwrap();
    let op = s.parse_op_code(0x1000, None).unwrap();
    assert_eq!(op.size, 1);
    assert_eq!(op.arch, ARCH_DEFAULT);
    // an unregistered architecture fails with the arch error
    assert!(matches!(s.parse_op_code(0x1000, Some(0x70000)), Err(Error::ArchNotImplemented(_))));
}

#[test]
fn parse_op_code_surfaces_the_module_error() {
    let mut reg = ArchRegistry::new();
    reg.register(ARCH_DEFAULT, FailModule).unwrap();
    let mut s = AddressSpace::new(Endianess::Little, 4, reg);
    s.add_memory_map(0x1000, MM_READ | MM_EXEC, "code", Some(&[0u8; 16]), None).unwrap();
    assert!(matches!(s.parse_op_code(0x1000, None), Err(Error::Generic(_))));
}

#[test]
fn maps_are_kept_ordered_by_base_address() {
    let mut s = space();
    s.add_memory_map(0x3000, MM_READ, "c", Some(&[0u8; 4]), None).unwrap();
    s.add_memory_map(0x1000, MM_READ, "a", Some(&[0u8; 4]), None).unwrap();
    s.add_memory_map(0x2000, MM_READ, "b", Some(&[0u8; 4]), None).unwrap();
    let bases: Vec<i32> = s.get_memory_maps().into_iter().map(|t| t.0).collect();
    assert_eq!(bases, vec![0x1000, 0x2000, 0x3000]);
}

#[test]
fn a_partially_writable_write_changes_nothing() {
    let mut s = space();
    s.add_memory_map(0x1000, MM_READ | MM_WRITE, "rw", Some(&[0u8; 4]), None).unwrap();
    s.add_memory_map(0x1004, MM_READ, "ro", Some(&[0u8; 4]), None).unwrap();
    let r = s.write_memory(0x1002, &[1, 2, 3, 4]);
    assert!(matches!(r, Err(Error::SegmentationViolation(0x1002, _))));
    assert_eq!(s.read_memory(0x1000, 8).unwrap(), vec![0u8; 8]);
}

#[test]
fn segment_info_and_format_reads_have_flat_defaults() {
    let s = space();
    assert_eq!(s.get_segment_info(0x1234), (0, 0xffffffff));
    assert!(matches!(s.read_memory_format(0x1000, "I"), Err(Error::FuncNotImplemented(_))));
    assert_eq!(s.get_pointer_size(), 4);
}

#[test]
fn endianness_and_architecture_are_plain_state() {
    let mut s = space();
    assert_eq!(s.get_endian(), Endianess::Little);
    s.set_endian(Endianess::Big);
    assert_eq!(s.get_endian(), Endianess::Big);
    assert_eq!(s.get_mem_architecture(), ARCH_DEFAULT);
    s.set_mem_architecture(0x10000);
    assert_eq!(s.get_mem_architecture(), 0x10000);
}
