use greenie::addr::Address;
use greenie::fcontext::{ctx_exit, layout, Continuation, Transfer};
use greenie::stack::{FixedsizeStack, StackContext};

#[test]
fn zero_size_asks_for_the_default() {
    assert_eq!(FixedsizeStack::new(0).size, 2 * 1024 * 1024);
    assert_eq!(FixedsizeStack::new(12345).size, 12345);
}

#[test]
fn allocation_is_the_pages_of_the_request_and_one_more() {
    assert_eq!(FixedsizeStack::new(1).allocation_size(), Some(8192));
    assert_eq!(FixedsizeStack::new(4096).allocation_size(), Some(8192));
    assert_eq!(FixedsizeStack::new(4097).allocation_size(), Some(12288));
    assert_eq!(FixedsizeStack::new(0).allocation_size(), Some(2 * 1024 * 1024 + 4096));
}

#[test]
fn allocation_that_does_not_fit_is_refused() {
    assert_eq!(FixedsizeStack::new(usize::MAX).allocation_size(), None);
    assert_eq!(FixedsizeStack::new(usize::MAX - 4096).allocation_size(), None);
    let alloc = FixedsizeStack::new(4096);
    assert_eq!(alloc.allocate(Address::from(usize::MAX - 100)), None);
}

#[test]
fn allocate_puts_the_top_at_the_end_of_the_region() {
    let alloc = FixedsizeStack::new(10000);
    let sctx = alloc.allocate(Address::from(0x10000)).unwrap();
    assert_eq!(sctx.size, 4 * 4096);
    assert_eq!(sctx.sp.to_usize(), 0x10000 + 4 * 4096);
    assert_eq!(sctx.base().to_usize(), 0x10000);
}

#[test]
fn deallocate_names_the_region_that_was_allocated() {
    let alloc = FixedsizeStack::new(4096);
    let sctx = alloc.allocate(Address::from(0x40000)).unwrap();
    let (base, size) = FixedsizeStack::deallocate(&sctx);
    assert_eq!(base.to_usize(), 0x40000);
    assert_eq!(size, 8192);
}

#[test]
fn layout_places_the_record_below_the_top() {
    let sctx = StackContext { size: 8192, sp: Address::from(0x20000) };
    let l = layout(&sctx, 100).unwrap();
    // 0x20000 - 100 = 0x1ff9c, rounded down to a multiple of 256
    assert_eq!(l.record.to_usize(), 0x1ff00);
    assert_eq!(l.stack_top.to_usize(), 0x1ff00 - 64);
    assert_eq!(l.stack_bottom.to_usize(), 0x20000 - 8192);
    assert_eq!(l.size, 0x1ff00 - 64 - (0x20000 - 8192));
}

#[test]
fn layout_refuses_a_record_that_leaves_no_stack() {
    let sctx = StackContext { size: 4096, sp: Address::from(0x20000) };
    assert_eq!(layout(&sctx, 4096), None);
    assert_eq!(layout(&sctx, 0x20001), None);
    assert!(layout(&sctx, 3000).is_some());
}

#[test]
fn a_continuation_is_used_once() {
    let t = Transfer { fctx: Address::from(0x5000), data: Address::null() };
    let mut c = Continuation::from_transfer(t);
    assert!(c.is_live());
    assert_eq!(c.release().to_usize(), 0x5000);
    assert!(!c.is_live());
    assert_eq!(c.release().to_usize(), 0);
    ctx_exit(t);
}
