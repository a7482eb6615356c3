//! Plain data of the context-switch primitive: handles to saved register
//! areas, and where on a fresh stack the record of a fiber goes.

use vstd::prelude::*;
use crate::addr::Address;
use crate::stack::StackContext;

verus! {

/// Bytes that stay free between the record of a fiber and the top of its
/// stack.
pub const RECORD_GAP: usize = 64;

/// Alignment of the record of a fiber.
pub const RECORD_ALIGN: usize = 256;

/// What a context switch hands over: the handle of the context that was
/// left, and one word of data.
#[derive(Copy, Clone, PartialEq, Eq, Structural, Debug)]
pub struct Transfer {
    pub fctx: Address,
    pub data: Address,
}

/// Called when a context exits; nothing is left to do.
pub fn ctx_exit(t: Transfer) {
}

/// The callee-saved and argument registers of a context.
#[derive(Copy, Clone, PartialEq, Eq, Structural, Debug)]
pub struct Registers {
    pub rax: u64,
    pub rbx: u64,
    pub rcx: u64,
    pub rdx: u64,
    pub rsi: u64,
    pub rdi: u64,
    pub rsp: Address,
    pub rbp: Address,
    pub r8: u64,
    pub r9: u64,
    pub r10: u64,
    pub r11: u64,
    pub r12: u64,
    pub r13: u64,
    pub r14: u64,
    pub r15: u64,
}

/// Handle to the saved registers of a suspended context. A handle is used
/// for one switch: the switch takes the address out and leaves null.
#[derive(Copy, Clone, PartialEq, Eq, Structural, Debug)]
pub struct Continuation {
    pub fctx: Address,
}

impl Continuation {
    /// The handle that a switch handed over.
    pub fn from_transfer(t: Transfer) -> (r: Self)
        ensures
            r.fctx == t.fctx,
    {
        Continuation { fctx: t.fctx }
    }

    /// Whether the handle names a suspended context.
    pub fn is_live(&self) -> (r: bool)
        ensures
            r == (self.fctx@ != 0),
    {
        self.fctx.is_non_null()
    }

    /// Takes the address out of the handle for a switch; the handle is
    /// null afterwards.
    pub fn release(&mut self) -> (r: Address)
        ensures
            r == old(self).fctx,
            final(self).fctx@ == 0,
    {
        let r = self.fctx;
        self.fctx = Address::null();
        r
    }
}

/// Where the parts of a fresh fiber lie on its stack.
#[derive(Copy, Clone, PartialEq, Eq, Structural, Debug)]
pub struct Layout {
    /// Start of the record of the fiber, below the top of the region.
    pub record: Address,
    /// Top of the stack that the fiber runs on.
    pub stack_top: Address,
    /// Lowest address of the region.
    pub stack_bottom: Address,
    /// Bytes between `stack_bottom` and `stack_top`.
    pub size: usize,
}

/// Start of the record: the highest multiple of `RECORD_ALIGN` that leaves
/// `record_size` bytes below `sp`.
pub open spec fn spec_record(sp: int, record_size: int) -> int {
    (sp - record_size) - (sp - record_size) % (RECORD_ALIGN as int)
}

/// Whether a record of `record_size` bytes and a stack fit the region.
pub open spec fn spec_fits(sctx: StackContext, record_size: int) -> bool {
    &&& record_size <= sctx.sp@
    &&& spec_record(sctx.sp@, record_size) - RECORD_GAP >= sctx.spec_base()
}

/// Lays out a fresh fiber on its stack region: the record at the highest
/// aligned address that holds it, the top of the stack `RECORD_GAP` bytes
/// below the record, the bottom at the base of the region. `None` where
/// the region is too small.
pub fn layout(sctx: &StackContext, record_size: usize) -> (r: Option<Layout>)
    requires
        sctx.wf(),
    ensures
        r.is_some() <==> spec_fits(*sctx, record_size as int),
        r.is_some() ==> {
            let l = r.unwrap();
            &&& l.record@ == spec_record(sctx.sp@, record_size as int)
            &&& l.record@ % (RECORD_ALIGN as int) == 0
            &&& l.record@ + record_size <= sctx.sp@
            &&& l.stack_top@ == l.record@ - RECORD_GAP
            &&& l.stack_bottom@ == sctx.spec_base()
            &&& l.size == l.stack_top@ - l.stack_bottom@
            &&& l.size < sctx.size
        },
{
    let sp = sctx.sp.to_usize();
    if record_size > sp {
        return None;
    }
    let raw: usize = sp - record_size;
    let record: usize = raw - raw % RECORD_ALIGN;
    let bottom: usize = sp - sctx.size;
    if record < RECORD_GAP || record - RECORD_GAP < bottom {
        return None;
    }
    let top: usize = record - RECORD_GAP;
    assert(record % 256 == 0) by (nonlinear_arith)
        requires
            record == raw - raw % 256,
            raw >= 0,
    ;
    Some(
        Layout {
            record: Address::from(record),
            stack_top: Address::from(top),
            stack_bottom: Address::from(bottom),
            size: top - bottom,
        },
    )
}

} // verus!
