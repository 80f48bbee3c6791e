use gglibrary::memory::{
    print_memory, read_u32_le, rip_target, scan, scan_from, signature_scan,
    signature_scan_from_addr, ModuleBounds, ThreadSafePtr,
};
use gglibrary::pattern::{compile, Token};

#[test]
fn compile_accepts_bytes_and_wildcards() {
    let p = compile("4c ?? 8B ? 00 ff").unwrap();
    assert_eq!(p.len(), 6);
    assert_eq!(p.token(0), Token::Byte(0x4c));
    assert_eq!(p.token(1), Token::Any);
    assert_eq!(p.token(2), Token::Byte(0x8b));
    assert_eq!(p.token(3), Token::Any);
    assert_eq!(p.token(4), Token::Byte(0x00));
    assert_eq!(p.token(5), Token::Byte(0xff));
}

#[test]
fn compile_rejects_bad_tokens() {
    assert!(compile("4g").is_none());
    assert!(compile("4").is_none());
    assert!(compile("abc").is_none());
    assert!(compile("").is_none());
    assert!(compile("4c  8b").is_none());
    assert!(compile("???").is_none());
    assert!(compile("4c 8b ").is_none());
}

#[test]
fn scan_returns_leftmost_match() {
    let data = [0u8, 1, 2, 3, 1, 2, 9];
    let p = compile("01 02").unwrap();
    assert_eq!(scan(&p, &data), Some(1));
}

#[test]
fn scan_finds_overlapping_candidate() {
    // A match that begins inside an abandoned candidate window.
    let data = [0x61u8, 0x61, 0x62];
    let p = compile("61 62").unwrap();
    assert_eq!(scan(&p, &data), Some(1));
}

#[test]
fn scan_reports_no_match() {
    let data = [1u8, 2, 3];
    let p = compile("04").unwrap();
    assert_eq!(scan(&p, &data), None);
    let long = compile("01 02 03 04").unwrap();
    assert_eq!(scan(&long, &data), None);
}

#[test]
fn wildcard_matches_every_byte_value() {
    let p = compile("??").unwrap();
    assert_eq!(scan(&p, &[0x00u8]), Some(0));
    assert_eq!(scan(&p, &[0xffu8]), Some(0));
    let mixed = compile("00 ? ff").unwrap();
    assert_eq!(scan(&mixed, &[0x00u8, 0x00, 0xff]), Some(0));
    assert_eq!(scan(&mixed, &[0x00u8, 0xff, 0xff]), Some(0));
}

#[test]
fn all_wildcard_pattern_matches_at_offset_zero() {
    let p = compile("?? ?? ??").unwrap();
    let data = [7u8, 8, 9, 10];
    assert_eq!(scan(&p, &data), Some(0));
}

#[test]
fn scan_from_skips_earlier_matches() {
    let data = [5u8, 6, 0, 5, 6];
    let p = compile("05 06").unwrap();
    assert_eq!(scan_from(&p, &data, 0), Some(0));
    assert_eq!(scan_from(&p, &data, 1), Some(3));
    assert_eq!(scan_from(&p, &data, 4), None);
}

#[test]
fn signature_scan_compiles_and_scans() {
    let data = [0x40u8, 0x53, 0x48, 0x83];
    assert_eq!(signature_scan("53 48", &data), Some(1));
    assert_eq!(signature_scan("53 ?? 83", &data), Some(1));
    assert_eq!(signature_scan("99", &data), None);
}

#[test]
fn signature_scan_from_addr_skips_earlier_matches() {
    let data = [5u8, 6, 0, 5, 6];
    assert_eq!(signature_scan_from_addr("05 06", &data, 1), Some(3));
    assert_eq!(signature_scan_from_addr("05 06", &data, 4), None);
}

#[test]
fn read_u32_little_endian() {
    let data = [0u8, 0x78, 0x56, 0x34, 0x12, 9];
    assert_eq!(read_u32_le(&data, 1), 0x12345678);
}

#[test]
fn rip_target_decodes_displacement() {
    // A 7-byte instruction at offset 2 with displacement 4 at byte 3.
    let mut data = vec![0u8; 32];
    data[5] = 4;
    assert_eq!(rip_target(&data, 2, 3, 7), Some(2 + 7 + 4));
    // A displacement pointing past the image is rejected.
    data[5] = 0xff;
    assert_eq!(rip_target(&data, 2, 3, 7), None);
}

#[test]
fn module_bounds_arithmetic() {
    let b = ModuleBounds::from_base_and_size(0x1000, 0x200).unwrap();
    assert_eq!(b.len(), 0x200);
    assert!(b.contains(0x1000, 0x200));
    assert!(b.contains(0x11ff, 1));
    assert!(!b.contains(0xfff, 1));
    assert!(!b.contains(0x1100, 0x200));
    assert_eq!(b.address_of(0x10), 0x1010);
    assert!(ModuleBounds::from_base_and_size(u64::MAX, 2).is_none());
}

#[test]
fn print_memory_renders_lowercase_hex() {
    assert_eq!(print_memory(&[0xdeu8, 0xad, 0x01, 0x00]), "dead0100");
    assert_eq!(print_memory(&[]), "");
}

#[test]
fn thread_safe_ptr_holds_address() {
    let p = ThreadSafePtr::new(0xdead_beef);
    assert_eq!(p.get(), 0xdead_beef);
}
