//! The allocator as mathematics: five natural numbers and the effect of each
//! operation on them.
//!
//! Nothing here is bounded by the machine's word size. The executable
//! allocator states its contracts over these functions, and the laws about
//! histories of operations are proved over them.

use vstd::prelude::*;
use crate::error::AllocError;

verus! {

/// The state of an allocator over the span `[start, end)`.
pub struct BumpState {
    /// Inclusive lower bound of the managed span.
    pub start: nat,
    /// Exclusive upper bound of the managed span.
    pub end: nat,
    /// Where the next block of bytes will begin.
    pub b_pos: nat,
    /// Where the most recently carved run of pages begins.
    pub p_pos: nat,
    /// How many blocks of bytes are currently live.
    pub b_count: nat,
}

/// One request to the allocator.
pub enum Op {
    /// Take over the span `[start, start + size)`.
    Init { start: nat, size: nat },
    /// Prepend `[start, start + size)` to the span.
    AddMemory { start: nat, size: nat },
    /// Ask for a block of `size` bytes.
    Alloc { size: nat },
    /// Give back the block of `size` bytes at `addr`.
    Dealloc { addr: nat, size: nat },
    /// Ask for a run of `num_pages` pages.
    AllocPages { num_pages: nat },
    /// Give back the run of `num_pages` pages at `addr`.
    DeallocPages { addr: nat, num_pages: nat },
}

impl BumpState {
    /// The cursors are ordered inside the span, and the page region is a
    /// whole number of pages.
    pub open spec fn wf(self, page_size: nat) -> bool {
        &&& self.start <= self.b_pos
        &&& self.b_pos <= self.p_pos
        &&& self.p_pos <= self.end
        &&& exists|k: nat| self.end - self.p_pos == #[trigger] (k * page_size)
    }

    /// The state before any span was handed over: everything is zero.
    pub open spec fn empty() -> BumpState {
        BumpState { start: 0, end: 0, b_pos: 0, p_pos: 0, b_count: 0 }
    }

    /// The state right after taking over `[start, start + size)`.
    pub open spec fn initial(start: nat, size: nat) -> BumpState {
        BumpState { start, end: start + size, b_pos: start, p_pos: start + size, b_count: 0 }
    }

    /// Whether `addr` lies in the managed span.
    pub open spec fn contains(self, addr: nat) -> bool {
        self.start <= addr < self.end
    }

    /// Whether `[start, start + size)` reaches above the span's lower bound
    /// while beginning below its upper bound.
    ///
    /// For a region and a span that both hold something this is to share an
    /// address. A region of no bytes that lies strictly inside the span counts
    /// as overlapping too.
    pub open spec fn overlaps(self, start: nat, size: nat) -> bool {
        start + size > self.start && start < self.end
    }

    /// Whether `[start, start + size)` ends exactly where the span begins.
    pub open spec fn abuts(self, start: nat, size: nat) -> bool {
        start + size == self.start
    }

    /// The outcome of offering `[start, start + size)` as an extension.
    pub open spec fn add_memory_result(self, start: nat, size: nat) -> Result<(), AllocError> {
        if self.overlaps(start, size) {
            Err(AllocError::MemoryOverlap)
        } else if !self.abuts(start, size) {
            Err(AllocError::InvalidParam)
        } else {
            Ok(())
        }
    }

    /// The state after offering `[start, start + size)` as an extension: the
    /// lower bound moves down if the offer is accepted, and nothing else
    /// changes.
    pub open spec fn after_add_memory(self, start: nat, size: nat) -> BumpState {
        if self.add_memory_result(start, size).is_ok() {
            BumpState { start, ..self }
        } else {
            self
        }
    }

    /// Whether a block of `size` bytes fits between the cursors.
    pub open spec fn fits_bytes(self, size: nat) -> bool {
        self.b_pos + size <= self.p_pos
    }

    /// What asking for `size` bytes returns: the byte cursor if they fit.
    pub open spec fn alloc_result(self, size: nat) -> Result<nat, AllocError> {
        if self.fits_bytes(size) {
            Ok(self.b_pos)
        } else {
            Err(AllocError::NoMemory)
        }
    }

    /// The state after asking for `size` bytes: unchanged if they do not fit.
    pub open spec fn after_alloc(self, size: nat) -> BumpState {
        if self.fits_bytes(size) {
            BumpState { b_pos: self.b_pos + size, b_count: self.b_count + 1, ..self }
        } else {
            self
        }
    }

    /// Whether giving back a block at `addr` is acted upon at all.
    pub open spec fn accepts_dealloc(self, addr: nat) -> bool {
        self.b_count > 0 && self.contains(addr)
    }

    /// The state after giving back the block of `size` bytes at `addr`.
    ///
    /// A request that is acted upon always takes one off the count of live
    /// blocks. The cursor returns to the span's start when that count
    /// reaches zero, moves back to `addr` when the block is the one right
    /// below it, and otherwise stays.
    pub open spec fn after_dealloc(self, addr: nat, size: nat) -> BumpState {
        if !self.accepts_dealloc(addr) {
            self
        } else if self.b_count == 1 {
            BumpState { b_pos: self.start, b_count: 0, ..self }
        } else if addr + size == self.b_pos {
            BumpState { b_pos: addr, b_count: (self.b_count - 1) as nat, ..self }
        } else {
            BumpState { b_count: (self.b_count - 1) as nat, ..self }
        }
    }

    /// Whether a run of `num_pages` pages fits between the cursors.
    pub open spec fn fits_pages(self, num_pages: nat, page_size: nat) -> bool {
        self.b_pos + num_pages * page_size <= self.p_pos
    }

    /// What asking for `num_pages` pages returns: the address that many
    /// pages below the page cursor, if they fit.
    pub open spec fn alloc_pages_result(self, num_pages: nat, page_size: nat) -> Result<
        nat,
        AllocError,
    > {
        if self.fits_pages(num_pages, page_size) {
            Ok((self.p_pos - num_pages * page_size) as nat)
        } else {
            Err(AllocError::NoMemory)
        }
    }

    /// The state after asking for `num_pages` pages: unchanged if they do
    /// not fit.
    pub open spec fn after_alloc_pages(self, num_pages: nat, page_size: nat) -> BumpState {
        if self.fits_pages(num_pages, page_size) {
            BumpState { p_pos: (self.p_pos - num_pages * page_size) as nat, ..self }
        } else {
            self
        }
    }

    /// Whether the run of `num_pages` pages at `addr` is taken back: it has
    /// to be the run at the page cursor, inside the span.
    pub open spec fn reclaims_pages(self, addr: nat, num_pages: nat, page_size: nat) -> bool {
        &&& self.contains(addr)
        &&& addr == self.p_pos
        &&& addr + num_pages * page_size <= self.end
    }

    /// The state after giving back the run of `num_pages` pages at `addr`.
    pub open spec fn after_dealloc_pages(self, addr: nat, num_pages: nat, page_size: nat) -> BumpState {
        if self.reclaims_pages(addr, num_pages, page_size) {
            BumpState { p_pos: self.p_pos + num_pages * page_size, ..self }
        } else {
            self
        }
    }

    /// Bytes that the byte region can hold in all.
    pub open spec fn total_bytes(self) -> int {
        self.p_pos - self.start
    }

    /// Bytes below the byte cursor.
    pub open spec fn used_bytes(self) -> int {
        self.b_pos - self.start
    }

    /// Bytes between the two cursors.
    pub open spec fn available_bytes(self) -> int {
        self.p_pos - self.b_pos
    }

    /// Whole pages above the byte cursor.
    pub open spec fn total_pages(self, page_size: nat) -> int {
        (self.end - self.b_pos) / (page_size as int)
    }

    /// Whole pages between the two cursors.
    pub open spec fn available_pages(self, page_size: nat) -> int {
        (self.p_pos - self.b_pos) / (page_size as int)
    }

    /// Pages above the page cursor.
    pub open spec fn used_pages(self, page_size: nat) -> int {
        (self.end - self.p_pos) / (page_size as int)
    }

    /// The state after one request.
    pub open spec fn step(self, op: Op, page_size: nat) -> BumpState {
        match op {
            Op::Init { start, size } => BumpState::initial(start, size),
            Op::AddMemory { start, size } => self.after_add_memory(start, size),
            Op::Alloc { size } => self.after_alloc(size),
            Op::Dealloc { addr, size } => self.after_dealloc(addr, size),
            Op::AllocPages { num_pages } => self.after_alloc_pages(num_pages, page_size),
            Op::DeallocPages { addr, num_pages } => self.after_dealloc_pages(
                addr,
                num_pages,
                page_size,
            ),
        }
    }

    /// The state after a whole history of requests, first to last.
    pub open spec fn run(self, ops: Seq<Op>, page_size: nat) -> BumpState
        decreases ops.len(),
    {
        if ops.len() == 0 {
            self
        } else {
            self.run(ops.drop_last(), page_size).step(ops.last(), page_size)
        }
    }
}

/// A multiple of `d` less a smaller multiple of `d` is a multiple of `d`.
pub proof fn lemma_multiple_minus(x: int, n: nat, d: nat)
    requires
        exists|k: nat| x == #[trigger] (k * d),
        0 <= n * d <= x,
    ensures
        exists|k: nat| x - n * d == #[trigger] (k * d),
{
    let k = choose|k: nat| x == #[trigger] (k * d);
    if d == 0 {
        assert(x - n * d == 0nat * d) by (nonlinear_arith)
            requires
                x == k * d,
                d == 0,
        ;
    } else {
        assert(k >= n) by (nonlinear_arith)
            requires
                x == k * d,
                n * d <= x,
                d > 0,
        ;
        let j = (k - n) as nat;
        assert(x - n * d == j * d) by (nonlinear_arith)
            requires
                x == k * d,
                j == k - n,
        ;
    }
}

} // verus!
