use osnma_core::fields::bits_to_bytes;
use osnma_core::fields::ced_and_status_fields;
use osnma_core::fields::decimal;
use osnma_core::fields::extract_all_bits;
use osnma_core::fields::extract_bits_range;
use osnma_core::fields::extract_fields;
use osnma_core::fields::hashmap_to_string;
use osnma_core::fields::FieldDescriptor;

fn t0e_block() -> [u8; 69] {
    let mut d = [0u8; 69];
    d[1] = 0x16;
    d[2] = 0x72;
    d[3] = 0x80;
    d
}

#[test]
fn extraction_reads_msb_first() {
    let d = t0e_block();
    assert_eq!(extract_bits_range(&d, 11, 24), 0b10110011100101);
    assert_eq!(extract_bits_range(&d, 11, 24), 11493);
    assert_eq!(extract_bits_range(&d, 11, 11), 1);
    assert_eq!(extract_bits_range(&d, 12, 12), 0);
    assert_eq!(extract_bits_range(&d, 25, 56), 0);
}

#[test]
fn extraction_empty_range_is_zero() {
    let d = [0xffu8; 4];
    assert_eq!(extract_bits_range(&d, 5, 4), 0);
}

#[test]
fn extraction_full_width() {
    let d = [0xffu8; 69];
    assert_eq!(extract_bits_range(&d, 25, 56), u32::MAX);
    assert_eq!(extract_bits_range(&d, 3, 34), u32::MAX);
    let d = [0x12, 0x34, 0x56, 0x78, 0x9a];
    assert_eq!(extract_bits_range(&d, 0, 31), 0x12345678);
    assert_eq!(extract_bits_range(&d, 4, 35), 0x23456789);
}

#[test]
fn extract_all_bits_table() {
    let d = t0e_block();
    let f = extract_all_bits(&d);
    assert_eq!(f.len(), 34);
    assert_eq!(f[0], ("T0E", 11493));
    assert!(f[1..].iter().all(|(_, v)| *v == 0));
    let ones = [0xffu8; 69];
    let f = extract_all_bits(&ones);
    assert_eq!(f[0], ("T0E", 16383));
    assert_eq!(f[1], ("M0", u32::MAX));
    assert_eq!(f[17], ("AF0", 0x7fff_ffff));
    assert_eq!(f[23], ("REGION1", 1));
    assert_eq!(f[33], ("E1BDVS", 1));
}

#[test]
fn table_ranges_fit_block() {
    let t = ced_and_status_fields();
    assert_eq!(t.len(), 34);
    for f in &t {
        assert!(f.bit_start <= f.bit_end);
        assert!(f.bit_end - f.bit_start < 32);
        assert!(f.bit_end < 69 * 8);
    }
    assert_eq!(t[33].name, "E1BDVS");
    assert_eq!((t[33].bit_start, t[33].bit_end), (549, 549));
}

#[test]
fn extract_fields_custom_table() {
    let table = vec![
        FieldDescriptor { name: "hi", bit_start: 0, bit_end: 3 },
        FieldDescriptor { name: "lo", bit_start: 4, bit_end: 7 },
    ];
    assert_eq!(extract_fields(&[0xa5], &table), vec![("hi", 0xa), ("lo", 0x5)]);
}

#[test]
fn fields_to_text() {
    assert_eq!(hashmap_to_string(&vec![("A", 1), ("BC", 230)]), "A: 1, BC: 230");
    assert_eq!(hashmap_to_string(&vec![("T0E", 0)]), "T0E: 0");
    assert_eq!(hashmap_to_string(&vec![]), "");
    assert_eq!(hashmap_to_string(&vec![("M0", u32::MAX)]), "M0: 4294967295");
}

#[test]
fn pack_bits_msb_first() {
    let bits = [true, false, true, false, false, true, false, true, true];
    assert_eq!(bits_to_bytes(&bits, 2), vec![0xa5, 0x80]);
    assert_eq!(bits_to_bytes(&[], 1), vec![0]);
}

#[test]
fn decimal_digits() {
    assert_eq!(decimal(0), "0");
    assert_eq!(decimal(9), "9");
    assert_eq!(decimal(10), "10");
    assert_eq!(decimal(1234567890), "1234567890");
    assert_eq!(decimal(u32::MAX), "4294967295");
}
