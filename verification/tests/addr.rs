use greenie::addr::Address;
use greenie::mem::{is_page_aligned, page_align, page_floor, page_size, ptr_width_usize, stack_default_size};

#[test]
fn address_round_trips_through_usize() {
    assert_eq!(Address::from(0x1234).to_usize(), 0x1234);
    assert_eq!(Address::null().to_usize(), 0);
}

#[test]
fn null_is_the_zero_address() {
    assert!(Address::null().is_null());
    assert!(!Address::null().is_non_null());
    assert!(Address::from(8).is_non_null());
    assert!(!Address::from(8).is_null());
}

#[test]
fn offset_and_sub_move_by_bytes() {
    let a = Address::from(1000);
    assert_eq!(a.offset(24).to_usize(), 1024);
    assert_eq!(a.sub(1000).to_usize(), 0);
    assert_eq!(a.offset(24).offset_from(a), 24);
    assert_eq!(a.offset_from(a), 0);
}

#[test]
fn add_ptr_and_sub_ptr_move_by_words() {
    let a = Address::from(64);
    assert_eq!(a.add_ptr(3).to_usize(), 64 + 3 * 8);
    assert_eq!(a.sub_ptr(8).to_usize(), 0);
    assert_eq!(ptr_width_usize(), 8);
}

#[test]
fn align_page_rounds_up_and_keeps_aligned_addresses() {
    assert_eq!(Address::from(0).align_page().to_usize(), 0);
    assert_eq!(Address::from(1).align_page().to_usize(), 4096);
    assert_eq!(Address::from(4095).align_page().to_usize(), 4096);
    assert_eq!(Address::from(4096).align_page().to_usize(), 4096);
    assert_eq!(Address::from(4097).align_page().to_usize(), 8192);
}

#[test]
fn align_page_down_rounds_down() {
    assert_eq!(Address::from(0).align_page_down().to_usize(), 0);
    assert_eq!(Address::from(4095).align_page_down().to_usize(), 0);
    assert_eq!(Address::from(4096).align_page_down().to_usize(), 4096);
    assert_eq!(Address::from(12287).align_page_down().to_usize(), 8192);
}

#[test]
fn is_page_aligned_tests_the_low_bits() {
    assert!(Address::from(0).is_page_aligned());
    assert!(Address::from(8192).is_page_aligned());
    assert!(!Address::from(8193).is_page_aligned());
}

#[test]
fn and_or_combine_bits() {
    let a = Address::from(0b1100);
    let b = Address::from(0b1010);
    assert_eq!(a.and(b).to_usize(), 0b1000);
    assert_eq!(a.or(b).to_usize(), 0b1110);
}

#[test]
fn addresses_compare_by_value() {
    assert!(Address::from(1) < Address::from(2));
    assert_eq!(Address::from(7), Address::from(7));
    assert_ne!(Address::from(7), Address::from(8));
}

#[test]
fn page_helpers_agree_with_the_page_size() {
    assert_eq!(page_size(), 4096);
    assert_eq!(stack_default_size(), 2 * 1024 * 1024);
    assert_eq!(page_align(5000), 8192);
    assert_eq!(page_floor(5000), 4096);
    assert!(is_page_aligned(4096 * 7));
    assert!(!is_page_aligned(4096 * 7 + 1));
}

#[test]
fn page_floor_accepts_the_largest_address() {
    assert_eq!(page_floor(usize::MAX), usize::MAX - 4095);
    assert_eq!(Address::from(usize::MAX).align_page_down().to_usize(), usize::MAX - 4095);
}
