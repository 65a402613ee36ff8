use jam_services::child::{child_value, page_read_address, page_write_address};

#[test]
fn first_entries_are_one() {
    assert_eq!(child_value(0, 123, 456), 1);
    assert_eq!(child_value(1, 123, 456), 1);
}

#[test]
fn later_entries_sum_previous_two() {
    assert_eq!(child_value(5, 3, 5), 8);
}

#[test]
fn table_built_by_children_is_fibonacci() {
    let mut table = vec![0u32; 20];
    for n in 0..20u64 {
        let (a, b) = if n >= 2 { (table[n as usize - 2], table[n as usize - 1]) } else { (0, 0) };
        table[n as usize] = child_value(n, a, b);
    }
    assert_eq!(&table[..8], &[1, 1, 2, 3, 5, 8, 13, 21]);
    assert_eq!(table[19], 6765);
}

#[test]
fn read_address_is_base_plus_pages() {
    assert_eq!(page_read_address(0x1000, 4096, 3), 0x1000 + 3 * 4096);
}

#[test]
fn write_address_matches_read_address() {
    assert_eq!(page_write_address(0x1000, 4096, 3) as u64, page_read_address(0x1000, 4096, 3));
}

#[test]
fn write_address_cuts_offset_to_32_bits() {
    assert_eq!(page_write_address(5, 1u64 << 32, 1), 5);
    assert_eq!(page_write_address(0, (1u64 << 32) + 16, 1), 16);
}
