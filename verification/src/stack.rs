//! Stack regions for fibers: the arithmetic of a fixed-size allocator. The
//! memory itself is committed and released by the embedding program.

use vstd::prelude::*;
use crate::addr::Address;
use crate::mem::{PAGE_SIZE, STACK_DEFAULT_SIZE};

verus! {

/// A stack region: `size` bytes that end at `sp`, the top of the stack.
#[derive(Copy, Clone, PartialEq, Eq, Structural, Debug)]
pub struct StackContext {
    pub size: usize,
    pub sp: Address,
}

impl StackContext {
    /// The region lies below its top and spans at least one page.
    pub open spec fn wf(&self) -> bool {
        &&& self.size >= PAGE_SIZE
        &&& self.size <= self.sp@
    }

    /// Lowest address of the region.
    pub open spec fn spec_base(&self) -> int {
        self.sp@ - self.size
    }

    /// Lowest address of the region.
    pub fn base(&self) -> (r: Address)
        requires
            self.wf(),
        ensures
            r@ == self.spec_base(),
    {
        self.sp.sub(self.size)
    }
}

/// Number of whole pages that hold `requested` bytes.
pub open spec fn spec_pages(requested: int) -> int {
    if requested % (PAGE_SIZE as int) == 0 {
        requested / (PAGE_SIZE as int)
    } else {
        requested / (PAGE_SIZE as int) + 1
    }
}

/// Bytes that are set aside for a stack of `requested` bytes: the pages that
/// hold it and one page more.
pub open spec fn spec_allocation_size(requested: int) -> int {
    (spec_pages(requested) + 1) * (PAGE_SIZE as int)
}

/// An allocator that hands out stacks of one size.
pub struct FixedsizeStack {
    pub size: usize,
}

/// The allocator that fibers get their stacks from.
pub type DefaultStack = FixedsizeStack;

impl FixedsizeStack {
    /// An allocator for stacks of `size` bytes; zero asks for the default.
    pub fn new(size: usize) -> (r: Self)
        ensures
            r.size == (if size == 0 {
                STACK_DEFAULT_SIZE
            } else {
                size
            }),
    {
        FixedsizeStack {
            size: if size == 0 {
                STACK_DEFAULT_SIZE
            } else {
                size
            },
        }
    }

    /// Size of the region that `allocate` describes, or `None` where it
    /// does not fit the address space.
    pub fn allocation_size(&self) -> (r: Option<usize>)
        ensures
            r.is_some() <==> spec_allocation_size(self.size as int) <= usize::MAX,
            r.is_some() ==> r.unwrap() == spec_allocation_size(self.size as int),
    {
        let whole: usize = self.size / PAGE_SIZE;
        let pages: usize = if self.size % PAGE_SIZE == 0 {
            whole
        } else {
            whole + 1
        };
        assert(pages == spec_pages(self.size as int));
        let limit: usize = usize::MAX / PAGE_SIZE;
        assert(pages + 1 <= limit <==> (pages + 1) * 4096 <= usize::MAX) by (nonlinear_arith)
            requires
                limit == usize::MAX / 4096,
                pages >= 0,
        ;
        if pages >= limit {
            None
        } else {
            assert((pages + 1) * 4096 <= usize::MAX);
            Some((pages + 1) * PAGE_SIZE)
        }
    }

    /// Describes the stack in the region of `allocation_size` bytes that
    /// was committed at `base`.
    pub fn allocate(&self, base: Address) -> (r: Option<StackContext>)
        ensures
            r.is_some() <==> base@ + spec_allocation_size(self.size as int) <= usize::MAX,
            r.is_some() ==> {
                &&& r.unwrap().size == spec_allocation_size(self.size as int)
                &&& r.unwrap().sp@ == base@ + r.unwrap().size
                &&& r.unwrap().spec_base() == base@
                &&& r.unwrap().wf()
                &&& r.unwrap().size >= self.size + PAGE_SIZE
                &&& r.unwrap().size % PAGE_SIZE == 0
            },
    {
        match self.allocation_size() {
            None => None,
            Some(size) => {
                proof {
                    lemma_allocation_size(self.size as int);
                }
                if size > usize::MAX - base.to_usize() {
                    None
                } else {
                    Some(StackContext { size, sp: base.offset(size) })
                }
            },
        }
    }

    /// The region to release for a stack: its lowest address and its size.
    pub fn deallocate(sctx: &StackContext) -> (r: (Address, usize))
        requires
            sctx.wf(),
        ensures
            r.0@ == sctx.spec_base(),
            r.1 == sctx.size,
    {
        (sctx.sp.sub(sctx.size), sctx.size)
    }
}

/// An allocation is a whole number of pages, holds the requested bytes and
/// one page more, and wastes less than a page beyond that.
pub proof fn lemma_allocation_size(requested: int)
    requires
        requested >= 0,
    ensures
        spec_allocation_size(requested) % (PAGE_SIZE as int) == 0,
        requested + PAGE_SIZE <= spec_allocation_size(requested) < requested + 2 * PAGE_SIZE,
        spec_allocation_size(requested) >= PAGE_SIZE,
{
    let p = PAGE_SIZE as int;
    let n = spec_pages(requested);
    assert(requested == (requested / p) * p + requested % p) by (nonlinear_arith)
        requires
            p == 4096,
    ;
    assert(0 <= requested % p < p);
    assert(((n + 1) * p) % p == 0) by (nonlinear_arith)
        requires
            p == 4096,
    ;
    assert((n + 1) * p == n * p + p) by (nonlinear_arith);
    if requested % p == 0 {
        assert(n * p == requested);
    } else {
        assert(n * p == (requested / p) * p + p) by (nonlinear_arith)
            requires
                n == requested / p + 1,
        ;
    }
}

} // verus!
