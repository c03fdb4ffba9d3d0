use versionlib::table::load;
use versionlib::{Field, VersionlibError};

fn header(version: [u32; 4], name: &[u8], ptr_size: u32, count: u32) -> Vec<u8> {
    let mut b = Vec::new();
    b.extend_from_slice(&2u32.to_le_bytes());
    for v in version {
        b.extend_from_slice(&v.to_le_bytes());
    }
    b.extend_from_slice(&(name.len() as i32).to_le_bytes());
    b.extend_from_slice(name);
    b.extend_from_slice(&ptr_size.to_le_bytes());
    b.extend_from_slice(&count.to_le_bytes());
    b
}

/// A table holding, among others, the entries of the 1.6.323.0 table used by
/// the plugin, written with a mix of record encodings.
fn table_1_6_323_0() -> Vec<u8> {
    let mut b = header([1, 6, 323, 0], b"SkyrimSE.exe", 8, 10);
    // 401203 -> 0x2f9a800: both literal u32
    b.push(0x77);
    b.extend_from_slice(&401203u32.to_le_bytes());
    b.extend_from_slice(&0x2f9a800u32.to_le_bytes());
    // 51109 -> 0x8893c0: literal u32, literal u64
    b.push(0x07);
    b.extend_from_slice(&51109u32.to_le_bytes());
    b.extend_from_slice(&0x8893c0u64.to_le_bytes());
    // 207886 -> 0x1753670: literal u32, scaled literal u32
    b.push(0xf7);
    b.extend_from_slice(&207886u32.to_le_bytes());
    b.extend_from_slice(&(0x1753670u32 / 8).to_le_bytes());
    // 190143 -> 0x165dab0: u16 below the previous id, literal u32
    b.push(0x75);
    b.extend_from_slice(&((207886u32 - 190143) as u16).to_le_bytes());
    b.extend_from_slice(&0x165dab0u32.to_le_bytes());
    // 14720 -> 0x1a1c00: literal u16, literal u32
    b.push(0x76);
    b.extend_from_slice(&14720u16.to_le_bytes());
    b.extend_from_slice(&0x1a1c00u32.to_le_bytes());
    // 14617 -> 0x19f080: u8 below, scaled u16 below
    b.push(0xd3);
    b.push(103);
    b.extend_from_slice(&((0x1a1c00u32 / 8 - 0x19f080 / 8) as u16).to_le_bytes());
    // 195816 -> 0x1697a30: both literal u32
    b.push(0x77);
    b.extend_from_slice(&195816u32.to_le_bytes());
    b.extend_from_slice(&0x1697a30u32.to_le_bytes());
    // 195890 -> 0x1699720: u8 above, u16 above
    b.push(0x42);
    b.push(74);
    b.extend_from_slice(&((0x1699720u32 - 0x1697a30) as u16).to_le_bytes());
    // 25259 -> 0x398f70: literal u32, literal u64
    b.push(0x07);
    b.extend_from_slice(&25259u32.to_le_bytes());
    b.extend_from_slice(&0x398f70u64.to_le_bytes());
    // 25260 -> 0x398f71: one above, one above
    b.push(0x11);
    b
}

#[test]
fn it_works() {
    let result = load(&table_1_6_323_0()).unwrap();
    assert_eq!([1, 6, 323, 0], result.version());
    assert_eq!(401203, result.reverse_lookup(0x2f9a800).unwrap());
    assert_eq!(51109, result.reverse_lookup(0x8893c0).unwrap());
    assert_eq!(207886, result.reverse_lookup(0x1753670).unwrap());
    assert_eq!(190143, result.reverse_lookup(0x165dab0).unwrap());
    assert_eq!(14720, result.reverse_lookup(0x1a1c00).unwrap());
    assert_eq!(14617, result.reverse_lookup(0x19f080).unwrap());
    assert_eq!(195816, result.reverse_lookup(0x1697a30).unwrap());
    assert_eq!(195890, result.reverse_lookup(0x1699720).unwrap());
    assert_eq!(25259, result.reverse_lookup(0x398f70).unwrap());
    assert_eq!(0x2f9a800, result.lookup(401203).unwrap());
    assert_eq!(0x8893c0, result.lookup(51109).unwrap());
    assert_eq!(0x1753670, result.lookup(207886).unwrap());
    assert_eq!(0x165dab0, result.lookup(190143).unwrap());
    assert_eq!(0x1a1c00, result.lookup(14720).unwrap());
    assert_eq!(0x19f080, result.lookup(14617).unwrap());
    assert_eq!(0x1697a30, result.lookup(195816).unwrap());
    assert_eq!(0x1699720, result.lookup(195890).unwrap());
    assert_eq!(0x398f70, result.lookup(25259).unwrap());
}

#[test]
fn header_fields_are_kept() {
    let t = load(&table_1_6_323_0()).unwrap();
    assert_eq!(t.ptr_size(), 8);
    assert_eq!(t.module_name_raw(), b"SkyrimSE.exe");
    assert_eq!(t.module_name(), Some("SkyrimSE.exe".to_string()));
    assert_eq!(t.packed_version(), 0x01061430);
    assert_eq!(t.lookup(25260), Ok(0x398f71));
}

#[test]
fn every_record_round_trips() {
    let t = load(&table_1_6_323_0()).unwrap();
    for id in [401203u64, 51109, 207886, 190143, 14720, 14617, 195816, 195890, 25259, 25260] {
        let off = t.lookup(id).unwrap();
        assert_eq!(t.reverse_lookup(off), Ok(id));
    }
}

#[test]
fn invalid_module_name_leaves_table_usable() {
    let mut b = header([1, 0, 0, 0], &[0xff, 0xfe], 8, 1);
    b.push(0x11);
    let t = load(&b).unwrap();
    assert_eq!(t.module_name(), None);
    assert_eq!(t.module_name_raw(), &[0xff, 0xfe]);
    assert_eq!(t.lookup(1), Ok(1));
}

#[test]
fn empty_name_and_no_records() {
    let t = load(&header([2, 3, 4, 5], b"", 8, 0)).unwrap();
    assert_eq!(t.version(), [2, 3, 4, 5]);
    assert_eq!(t.module_name(), Some(String::new()));
    assert_eq!(t.lookup(0), Err(VersionlibError::UnknownIdentifier { id: 0 }));
}

#[test]
fn wrong_format_is_rejected() {
    let mut b = table_1_6_323_0();
    b[0] = 3;
    assert_eq!(load(&b).err(), Some(VersionlibError::Format { format: 3 }));
    let mut c = 1u32.to_le_bytes().to_vec();
    c.extend_from_slice(&[0xff; 3]);
    assert_eq!(load(&c).err(), Some(VersionlibError::Format { format: 1 }));
}

#[test]
fn short_header_names_the_field() {
    let full = header([1, 6, 323, 0], b"abc", 8, 0);
    let cases = [
        (0, Field::Format),
        (3, Field::Format),
        (4, Field::Version),
        (19, Field::Version),
        (20, Field::NameLength),
        (23, Field::NameLength),
        (24, Field::Name),
        (26, Field::Name),
        (27, Field::PointerSize),
        (30, Field::PointerSize),
        (31, Field::RecordCount),
        (34, Field::RecordCount),
    ];
    for (len, field) in cases {
        assert_eq!(load(&full[..len]).err(), Some(VersionlibError::Read { field }), "len {len}");
    }
    assert!(load(&full).is_ok());
}

#[test]
fn name_length_out_of_range() {
    let mut b = header([1, 6, 323, 0], b"", 8, 0);
    b[20..24].copy_from_slice(&(-1i32).to_le_bytes());
    assert_eq!(load(&b).err(), Some(VersionlibError::TnLenRange { tn_len: -1 }));
    b[20..24].copy_from_slice(&0x10000i32.to_le_bytes());
    assert_eq!(load(&b).err(), Some(VersionlibError::TnLenRange { tn_len: 0x10000 }));
}

#[test]
fn largest_name_length_is_accepted() {
    let name = vec![b'a'; 0xffff];
    let t = load(&header([1, 0, 0, 0], &name, 8, 0)).unwrap();
    assert_eq!(t.module_name_raw().len(), 0xffff);
}

#[test]
fn truncation_inside_records_is_reported() {
    let full = table_1_6_323_0();
    let start = 32 + "SkyrimSE.exe".len();
    for k in start..full.len() {
        match load(&full[..k]) {
            Err(VersionlibError::Read { field }) => {
                assert!(matches!(field, Field::RecordKind | Field::Identifier | Field::Offset))
            }
            other => panic!("cut at {k}: {:?}", other.err()),
        }
    }
    assert!(load(&full).is_ok());
}

#[test]
fn truncation_names_the_record_field() {
    let mut b = header([1, 0, 0, 0], b"", 8, 2);
    b.push(0x44);
    b.extend_from_slice(&5u16.to_le_bytes());
    b.extend_from_slice(&6u16.to_le_bytes());
    assert_eq!(load(&b).err(), Some(VersionlibError::Read { field: Field::RecordKind }));
    b.push(0x44);
    b.push(1);
    assert_eq!(load(&b).err(), Some(VersionlibError::Read { field: Field::Identifier }));
    b.push(0);
    b.push(1);
    assert_eq!(load(&b).err(), Some(VersionlibError::Read { field: Field::Offset }));
    b.push(0);
    let t = load(&b).unwrap();
    assert_eq!(t.lookup(5), Ok(6));
    assert_eq!(t.lookup(6), Ok(7));
}

#[test]
fn loading_twice_gives_equal_tables() {
    let b = table_1_6_323_0();
    let t1 = load(&b).unwrap();
    let t2 = load(&b).unwrap();
    assert_eq!(t1.version(), t2.version());
    for id in [401203u64, 51109, 207886, 190143, 14720, 14617, 195816, 195890, 25259, 25260, 7] {
        assert_eq!(t1.lookup(id), t2.lookup(id));
        if let Ok(off) = t1.lookup(id) {
            assert_eq!(t1.reverse_lookup(off), t2.reverse_lookup(off));
        }
    }
    let mut bad = b.clone();
    bad.truncate(60);
    assert_eq!(load(&bad).err(), load(&bad).err());
}

#[test]
fn scaled_record_divides_then_multiplies() {
    let mut b = header([1, 0, 0, 0], b"", 8, 2);
    // 1 -> 0x1000
    b.push(0x76);
    b.extend_from_slice(&1u16.to_le_bytes());
    b.extend_from_slice(&0x1000u32.to_le_bytes());
    // 2 -> (0x1000 / 8 + 3) * 8 = 0x1018
    b.push(0xa1);
    b.push(3);
    let t = load(&b).unwrap();
    assert_eq!(t.lookup(1), Ok(0x1000));
    assert_eq!(t.lookup(2), Ok(0x1018));
    assert_eq!(t.reverse_lookup(0x1018), Ok(2));
}

#[test]
fn scaled_record_rounds_previous_offset_down() {
    let mut b = header([1, 0, 0, 0], b"", 8, 2);
    b.push(0x76);
    b.extend_from_slice(&1u16.to_le_bytes());
    b.extend_from_slice(&0x100fu32.to_le_bytes());
    // base 0x100f / 8 = 0x201, minus 1 = 0x200, times 8 = 0x1000
    b.push(0xb1);
    b.push(1);
    let t = load(&b).unwrap();
    assert_eq!(t.lookup(2), Ok(0x1000));
}

#[test]
fn scaled_record_with_zero_pointer_size() {
    let mut b = header([1, 0, 0, 0], b"", 0, 1);
    b.push(0x91);
    assert_eq!(load(&b).err(), Some(VersionlibError::ZeroPointerSize));
}

#[test]
fn identifier_encoding_above_seven_is_rejected() {
    let mut b = header([1, 0, 0, 0], b"", 8, 1);
    b.push(0x18);
    assert_eq!(load(&b).err(), Some(VersionlibError::RecordKind { kind: 0x18 }));
}

#[test]
fn each_encoding_decodes() {
    let mut b = header([1, 0, 0, 0], b"", 8, 8);
    // id: literal u64 1000; offset: literal u64 5000
    b.push(0x00);
    b.extend_from_slice(&1000u64.to_le_bytes());
    b.extend_from_slice(&5000u64.to_le_bytes());
    // id 1001 (plus one); offset 5001
    b.push(0x11);
    // id 1001 + 9 = 1010; offset 5001 + 9 = 5010
    b.push(0x22);
    b.push(9);
    b.push(9);
    // id 1010 - 5 = 1005; offset 5010 - 5 = 5005
    b.push(0x33);
    b.push(5);
    b.push(5);
    // id 1005 + 300 = 1305; offset 5005 + 300 = 5305
    b.push(0x44);
    b.extend_from_slice(&300u16.to_le_bytes());
    b.extend_from_slice(&300u16.to_le_bytes());
    // id 1305 - 301 = 1004; offset 5305 - 301 = 5004
    b.push(0x55);
    b.extend_from_slice(&301u16.to_le_bytes());
    b.extend_from_slice(&301u16.to_le_bytes());
    // id literal u16 7; offset literal u16 9
    b.push(0x66);
    b.extend_from_slice(&7u16.to_le_bytes());
    b.extend_from_slice(&9u16.to_le_bytes());
    // id literal u32 70000; offset literal u32 90000
    b.push(0x77);
    b.extend_from_slice(&70000u32.to_le_bytes());
    b.extend_from_slice(&90000u32.to_le_bytes());
    let t = load(&b).unwrap();
    let expected = [
        (1000, 5000),
        (1001, 5001),
        (1010, 5010),
        (1005, 5005),
        (1305, 5305),
        (1004, 5004),
        (7, 9),
        (70000, 90000),
    ];
    for (id, off) in expected {
        assert_eq!(t.lookup(id), Ok(off));
        assert_eq!(t.reverse_lookup(off), Ok(id));
    }
}

#[test]
fn deltas_wrap_around() {
    let mut b = header([1, 0, 0, 0], b"", 8, 2);
    // id 0 - 1 wraps to the largest u64; offset 0 - 2 likewise
    b.push(0x33);
    b.push(1);
    b.push(2);
    // id +1 wraps back to 0; offset +1
    b.push(0x11);
    let t = load(&b).unwrap();
    assert_eq!(t.lookup(u64::MAX), Ok(u64::MAX - 1));
    assert_eq!(t.lookup(0), Ok(u64::MAX));
}

#[test]
fn later_records_override_earlier_ones() {
    let mut b = header([1, 0, 0, 0], b"", 8, 2);
    b.push(0x66);
    b.extend_from_slice(&5u16.to_le_bytes());
    b.extend_from_slice(&10u16.to_le_bytes());
    b.push(0x66);
    b.extend_from_slice(&5u16.to_le_bytes());
    b.extend_from_slice(&20u16.to_le_bytes());
    let t = load(&b).unwrap();
    assert_eq!(t.lookup(5), Ok(20));
    assert_eq!(t.reverse_lookup(10), Ok(5));
    assert_eq!(t.reverse_lookup(20), Ok(5));
    assert_eq!(t.reverse_lookup(30), Err(VersionlibError::UnknownOffset { offset: 30 }));
}
