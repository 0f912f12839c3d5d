use envi::error::Error;
use envi::registers::{MetaRegister, RegisterContext, RegisterContextData, StatusMetaRegister};

fn file_with(names: &[&str], defval: Option<u32>) -> RegisterContextData {
    let mut rc = RegisterContextData::new();
    let defs: Vec<(String, i32)> = names.iter().map(|n| (n.to_string(), 32)).collect();
    rc.load_reg_def(defs, defval);
    rc
}

/// Packs a register index from its base, alias width and alias bit-offset.
fn meta_index(base: u32, width: u32, offset: u32) -> u32 {
    (offset << 24) | (width << 16) | base
}

#[test]
fn meta_register_read_and_write_touch_only_the_aliased_bits() {
    let mut rc = file_with(&["eax"], None);
    rc.set_register(0, 0xAABBCCDD).unwrap();
    let idx = meta_index(0, 8, 16);
    assert_eq!(rc.get_register(idx).unwrap(), 0xBB);
    rc.set_register(idx, 0x11).unwrap();
    assert_eq!(rc.get_register(0).unwrap(), 0xAA11CCDD);
}

#[test]
fn meta_register_low_byte_alias() {
    let mut rc = file_with(&["r0"], None);
    rc.set_register(0, 0xAABBCCDD).unwrap();
    let low = meta_index(0, 8, 0);
    assert_eq!(rc.get_register(low).unwrap(), 0xDD);
    rc.set_register(low, 0xFFFFFF01).unwrap();
    // only the low byte takes the written bits
    assert_eq!(rc.get_register(0).unwrap(), 0xAABBCC01);
}

#[test]
fn is_meta_register_looks_only_at_the_high_bits() {
    let rc = RegisterContextData::new();
    assert!(!rc.is_meta_register(0x00000005));
    assert!(rc.is_meta_register(0x08080005));
    assert!(!rc.is_meta_register(0x0000ffff));
    assert!(rc.is_meta_register(0x00010000));
}

#[test]
fn zero_width_alias_reads_zero() {
    let mut rc = file_with(&["r0"], None);
    rc.set_register(0, 0xffffffff).unwrap();
    let idx = meta_index(0, 0, 8);
    assert_eq!(rc.get_register(idx).unwrap(), 0);
    // writing through it leaves the register alone (but marks it dirty)
    rc.set_is_dirty(false);
    rc.set_register(idx, 0x1234).unwrap();
    assert_eq!(rc.get_register(0).unwrap(), 0xffffffff);
    assert!(rc.is_dirty());
}

#[test]
fn out_of_range_and_over_wide_indexes_are_invalid_register_names() {
    let mut rc = file_with(&["r0"], None);
    assert!(matches!(rc.get_register(1), Err(Error::InvalidRegisterName(_))));
    assert!(matches!(rc.set_register(7, 1), Err(Error::InvalidRegisterName(_))));
    // offset 16 + width 24 reaches past bit 32
    let bad = meta_index(0, 24, 16);
    assert!(matches!(rc.get_register(bad), Err(Error::InvalidRegisterName(_))));
    assert!(matches!(rc.set_register(bad, 1), Err(Error::InvalidRegisterName(_))));
}

#[test]
fn load_reg_def_resets_values_and_the_dirty_flag() {
    let mut rc = file_with(&["a", "b", "c"], Some(7));
    assert_eq!(rc.get_register(0).unwrap(), 7);
    assert_eq!(rc.get_register(2).unwrap(), 7);
    assert!(!rc.is_dirty());
    rc.set_register(1, 99).unwrap();
    assert!(rc.is_dirty());
    rc.load_reg_def(vec![("x".to_string(), 32)], None);
    assert!(!rc.is_dirty());
    assert_eq!(rc.get_register(0).unwrap(), 0);
    assert!(rc.get_register(1).is_err());
    assert_eq!(rc.get_reg_def(), vec![("x".to_string(), 32)]);
}

#[test]
fn snapshots_capture_and_restore_the_raw_values() {
    let mut rc = file_with(&["a", "b"], None);
    rc.set_register(0, 0x1111).unwrap();
    rc.set_register(1, 0x2222).unwrap();
    let snap = rc.get_register_snap();
    assert_eq!(snap, vec![0x1111, 0x2222]);
    rc.set_register(0, 0x9999).unwrap();
    rc.set_register_snap(snap).unwrap();
    assert_eq!(rc.get_register(0).unwrap(), 0x1111);
    assert!(!rc.is_dirty());
    assert!(matches!(rc.set_register_snap(vec![1]), Err(Error::InvalidState(_))));
}

#[test]
fn program_counter_and_stack_pointer_use_their_designated_indexes() {
    let mut rc = file_with(&["pc", "sp", "sr"], None);
    rc.set_register_indexes(0, 1, Some(2));
    rc.set_program_counter(0x8000).unwrap();
    rc.set_stack_counter(0xFF00).unwrap();
    assert_eq!(rc.get_program_counter().unwrap(), 0x8000);
    assert_eq!(rc.get_stack_counter().unwrap(), 0xFF00);
    assert_eq!(rc.get_register(0).unwrap(), 0x8000);
    assert_eq!(rc.get_register(1).unwrap(), 0xFF00);
    assert!(rc.has_status_register());
    rc.set_register_indexes(0, 1, None);
    assert!(!rc.has_status_register());
}

#[test]
fn register_names_and_values_follow_the_table() {
    let mut rc = file_with(&["eax", "ebx"], Some(5));
    rc.set_register(1, 6).unwrap();
    assert_eq!(rc.get_register_name(0), Some("eax".to_string()));
    assert_eq!(rc.get_register_name(0x08080001), Some("ebx".to_string()));
    assert_eq!(rc.get_register_name(2), None);
    assert_eq!(rc.get_register_names(), vec!["eax".to_string(), "ebx".to_string()]);
    assert_eq!(
        rc.get_registers(),
        vec![("eax".to_string(), 5), ("ebx".to_string(), 6)]
    );
}

#[test]
fn register_info_round_trips_through_set_register_info() {
    let mut rc = file_with(&["a", "b"], None);
    rc.set_register_indexes(0, 1, None);
    rc.set_register(0, 0xAA).unwrap();
    rc.add_meta_register(MetaRegister {
        name: "al".to_string(),
        index: 0x00080000,
        size: 8,
        shift_offset: 0,
    });
    let info = rc.get_register_info(None);
    assert_eq!(info.0, 0);
    assert_eq!(info.1.len(), 1);
    assert_eq!(info.3, 0xffffffff);
    assert_eq!(info.4, vec![0xAA, 0]);
    let mut other = file_with(&["a", "b"], None);
    other.set_register_info(info).unwrap();
    assert_eq!(other.get_register(0).unwrap(), 0xAA);
    // a values vector of the wrong length is rejected
    let mut third = file_with(&["only"], None);
    assert!(matches!(
        third.set_register_info((0, vec![], 0, 0xffffffff, vec![1, 2])),
        Err(Error::InvalidState(_))
    ));
    // metas may be stripped from the info
    let stripped = rc.get_register_info(Some(false));
    assert_eq!(stripped.1.len(), 0);
}

#[test]
fn status_register_descriptions_come_from_the_installed_descriptors() {
    let mut rc = file_with(&["sr"], None);
    assert_eq!(rc.get_status_reg_name_desc(), None);
    rc.load_reg_metas(
        vec![],
        Some(vec![
            StatusMetaRegister {
                name: "C".to_string(),
                index: 0,
                size: 1,
                shift_offset: 0,
                description: "carry".to_string(),
            },
            StatusMetaRegister {
                name: "Z".to_string(),
                index: 0,
                size: 1,
                shift_offset: 1,
                description: "zero".to_string(),
            },
        ]),
    );
    let pairs = rc.get_status_reg_name_desc().unwrap();
    assert_eq!(
        pairs,
        vec![("C".to_string(), "carry".to_string()), ("Z".to_string(), "zero".to_string())]
    );
}

#[test]
fn full_width_alias_reads_and_writes_the_whole_register() {
    let mut rc = file_with(&["r0"], None);
    rc.set_register(0, 0x01020304).unwrap();
    let full = meta_index(0, 32, 0);
    assert_eq!(rc.get_register(full).unwrap(), 0x01020304);
    rc.set_register(full, 0xCAFEBABE).unwrap();
    assert_eq!(rc.get_register(0).unwrap(), 0xCAFEBABE);
}
