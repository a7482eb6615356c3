//! A machine address as a plain number, with the arithmetic the stack
//! allocator needs.

use vstd::prelude::*;
use crate::mem::{page_align, page_floor, spec_page_align, spec_page_floor, PAGE_SIZE, PTR_WIDTH};

verus! {

/// An address in memory. Address zero is the null address.
#[derive(Copy, Clone, PartialEq, Eq, Structural, Hash, PartialOrd, Ord, Debug)]
pub struct Address(pub usize);

impl View for Address {
    type V = int;

    open spec fn view(&self) -> int {
        self.0 as int
    }
}

impl Address {
    /// The address with the value `val`.
    pub fn from(val: usize) -> (r: Address)
        ensures
            r@ == val,
    {
        Address(val)
    }

    /// Distance in bytes from `base` up to `self`.
    pub fn offset_from(self, base: Address) -> (r: usize)
        requires
            base@ <= self@,
        ensures
            r == self@ - base@,
    {
        self.to_usize() - base.to_usize()
    }

    /// The address `offset` bytes above `self`.
    pub fn offset(self, offset: usize) -> (r: Address)
        requires
            self@ + offset <= usize::MAX,
        ensures
            r@ == self@ + offset,
    {
        Address(self.0 + offset)
    }

    /// The address `offset` bytes below `self`.
    pub fn sub(self, offset: usize) -> (r: Address)
        requires
            offset <= self@,
        ensures
            r@ == self@ - offset,
    {
        Address(self.0 - offset)
    }

    /// The address `words` pointer widths above `self`.
    pub fn add_ptr(self, words: usize) -> (r: Address)
        requires
            self@ + words * PTR_WIDTH <= usize::MAX,
        ensures
            r@ == self@ + words * PTR_WIDTH,
    {
        Address(self.0 + words * PTR_WIDTH)
    }

    /// The address `words` pointer widths below `self`.
    pub fn sub_ptr(self, words: usize) -> (r: Address)
        requires
            words * PTR_WIDTH <= self@,
        ensures
            r@ == self@ - words * PTR_WIDTH,
    {
        Address(self.0 - words * PTR_WIDTH)
    }

    /// The address as a number.
    pub fn to_usize(self) -> (r: usize)
        ensures
            r == self@,
    {
        self.0
    }

    /// The null address.
    pub fn null() -> (r: Address)
        ensures
            r@ == 0,
    {
        Address(0)
    }

    /// Whether this is the null address.
    pub fn is_null(self) -> (r: bool)
        ensures
            r == (self@ == 0),
    {
        self.0 == 0
    }

    /// Whether this is another address than null.
    pub fn is_non_null(self) -> (r: bool)
        ensures
            r == (self@ != 0),
    {
        self.0 != 0
    }

    /// Rounds up to the next page boundary; an aligned address stays.
    pub fn align_page(self) -> (r: Address)
        requires
            spec_page_align(self@) <= usize::MAX,
        ensures
            r@ == spec_page_align(self@),
            r@ % (PAGE_SIZE as int) == 0,
            self@ <= r@ < self@ + PAGE_SIZE,
    {
        Address(page_align(self.0))
    }

    /// Rounds down to the previous page boundary; an aligned address stays.
    pub fn align_page_down(self) -> (r: Address)
        ensures
            r@ == spec_page_floor(self@),
            r@ % (PAGE_SIZE as int) == 0,
            r@ <= self@ < r@ + PAGE_SIZE,
    {
        Address(page_floor(self.0))
    }

    /// Whether the address lies on a page boundary.
    pub fn is_page_aligned(self) -> (r: bool)
        ensures
            r == (self@ % (PAGE_SIZE as int) == 0),
    {
        crate::mem::is_page_aligned(self.0)
    }

    /// Bitwise conjunction of two addresses.
    pub fn and(self, x: Address) -> (r: Address)
        ensures
            r.0 == self.0 & x.0,
    {
        Address(self.0 & x.0)
    }

    /// Bitwise disjunction of two addresses.
    pub fn or(self, x: Address) -> (r: Address)
        ensures
            r.0 == self.0 | x.0,
    {
        Address(self.0 | x.0)
    }
}

/// Rounding an address up and then down lands on the same page boundary,
/// and rounding an aligned address leaves it where it is.
pub proof fn lemma_page_rounding(a: Address)
    ensures
        spec_page_floor(spec_page_align(a@)) == spec_page_align(a@),
        spec_page_align(spec_page_floor(a@)) == spec_page_floor(a@),
        a@ % (PAGE_SIZE as int) == 0 ==> spec_page_align(a@) == a@ && spec_page_floor(a@) == a@,
        spec_page_floor(a@) <= a@ <= spec_page_align(a@),
        spec_page_align(a@) - spec_page_floor(a@) == (if a@ % (PAGE_SIZE as int) == 0 {
            0int
        } else {
            PAGE_SIZE as int
        }),
{
    let v = a@;
    let p = PAGE_SIZE as int;
    assert((v - v % p) % p == 0) by (nonlinear_arith)
        requires
            p == 4096,
            v >= 0,
    ;
    assert((v - v % p + p) % p == 0) by (nonlinear_arith)
        requires
            p == 4096,
            v >= 0,
    ;
}

} // verus!
