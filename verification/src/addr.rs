//! Virtual addresses and virtual page numbers with a fixed page size.

use vstd::prelude::*;

verus! {

/// Size in bytes of one page of virtual address space.
pub const PAGE_SIZE: usize = 4096;

/// A virtual address: a plain byte address in a task's address space.
#[derive(Clone, Copy, PartialEq, Eq, Structural, Debug)]
pub struct VirtAddr(pub usize);

/// A virtual page number: a virtual address divided by the page size.
#[derive(Clone, Copy, PartialEq, Eq, Structural, Debug)]
pub struct VirtPageNum(pub usize);

/// Page number of the page containing address `a` (rounding down).
pub open spec fn page_floor(a: int) -> int {
    a / (PAGE_SIZE as int)
}

/// Page number just past address `a`, rounding any partial page up.
pub open spec fn page_ceil(a: int) -> int {
    a / (PAGE_SIZE as int) + if a % (PAGE_SIZE as int) == 0 {
        0int
    } else {
        1int
    }
}

impl VirtAddr {
    /// True iff the address is a multiple of the page size.
    pub fn aligned(&self) -> (r: bool)
        ensures
            r == (self.0 as int % (PAGE_SIZE as int) == 0),
    {
        self.0 % PAGE_SIZE == 0
    }

    /// The page containing this address.
    pub fn floor(&self) -> (r: VirtPageNum)
        ensures
            r.0 == page_floor(self.0 as int),
    {
        VirtPageNum(self.0 / PAGE_SIZE)
    }

    /// The lowest page boundary at or above this address, as a page number.
    pub fn ceil(&self) -> (r: VirtPageNum)
        ensures
            r.0 == page_ceil(self.0 as int),
    {
        if self.0 % PAGE_SIZE == 0 {
            VirtPageNum(self.0 / PAGE_SIZE)
        } else {
            VirtPageNum(self.0 / PAGE_SIZE + 1)
        }
    }
}

} // verus!
