//! Page arithmetic shared by the address type and the stack allocator.

use vstd::prelude::*;

verus! {

/// Size of one page in bytes.
pub const PAGE_SIZE: usize = 4096;

/// Stack size used when a caller asks for none: two mebibytes.
pub const STACK_DEFAULT_SIZE: usize = 2097152;

/// Width of a pointer in bytes.
pub const PTR_WIDTH: usize = 8;

/// The greatest multiple of the page size that is at most `val`.
pub open spec fn spec_page_floor(val: int) -> int {
    val - val % (PAGE_SIZE as int)
}

/// The least multiple of the page size that is at least `val`.
pub open spec fn spec_page_align(val: int) -> int {
    if val % (PAGE_SIZE as int) == 0 {
        val
    } else {
        val - val % (PAGE_SIZE as int) + PAGE_SIZE as int
    }
}

/// Size of one page in bytes.
pub fn page_size() -> (r: usize)
    ensures
        r == PAGE_SIZE,
{
    PAGE_SIZE
}

/// Width of a pointer in bytes.
pub fn ptr_width_usize() -> (r: usize)
    ensures
        r == PTR_WIDTH,
{
    PTR_WIDTH
}

/// Stack size used when a caller asks for none.
pub fn stack_default_size() -> (r: usize)
    ensures
        r == STACK_DEFAULT_SIZE,
{
    STACK_DEFAULT_SIZE
}

/// Rounds `val` down to a page boundary.
pub fn page_floor(val: usize) -> (r: usize)
    ensures
        r == spec_page_floor(val as int),
        r % PAGE_SIZE == 0,
        r <= val < r + PAGE_SIZE,
{
    let rem: usize = val % PAGE_SIZE;
    val - rem
}

/// Tells whether `val` lies on a page boundary.
pub fn is_page_aligned(val: usize) -> (r: bool)
    ensures
        r == (val % PAGE_SIZE == 0),
{
    val % PAGE_SIZE == 0
}

/// Rounds `val` up to a page boundary.
pub fn page_align(val: usize) -> (r: usize)
    requires
        spec_page_align(val as int) <= usize::MAX,
    ensures
        r == spec_page_align(val as int),
        r % PAGE_SIZE == 0,
        val <= r < val + PAGE_SIZE,
{
    let rem: usize = val % PAGE_SIZE;
    if rem == 0 {
        val
    } else {
        val - rem + PAGE_SIZE
    }
}

} // verus!
