//! The executable allocator.
//!
//! Every operation is a single step of constant cost on five machine words,
//! and every contract says which step of the model it takes.

use vstd::prelude::*;
use crate::error::AllocError;
use crate::model::BumpState;

verus! {

/// Early memory allocator, for use before the real byte and page allocators
/// can work.
///
/// It manages one span from both ends: blocks of bytes are handed out
/// forward from the low end, runs of pages of `PAGE_SIZE` bytes backward from
/// the high end. The byte region is freed as a whole when its last live block
/// is given back; a run of pages is taken back only if it is the one at the
/// page cursor.
pub struct EarlyAllocator<const PAGE_SIZE: usize> {
    start: usize,
    end: usize,
    b_pos: usize,
    p_pos: usize,
    b_count: usize,
}

impl<const PAGE_SIZE: usize> View for EarlyAllocator<PAGE_SIZE> {
    type V = BumpState;

    closed spec fn view(&self) -> BumpState {
        BumpState {
            start: self.start as nat,
            end: self.end as nat,
            b_pos: self.b_pos as nat,
            p_pos: self.p_pos as nat,
            b_count: self.b_count as nat,
        }
    }
}

impl<const PAGE_SIZE: usize> EarlyAllocator<PAGE_SIZE> {
    #[verifier::type_invariant]
    spec fn inv(self) -> bool {
        self@.wf(PAGE_SIZE as nat)
    }

    /// The size of a page, as a number.
    pub open spec fn page_size() -> nat {
        PAGE_SIZE as nat
    }

    /// An allocator that manages nothing yet.
    pub fn new() -> (r: Self)
        ensures
            r@ == BumpState::empty(),
            r@.wf(Self::page_size()),
    {
        assert(0 == 0nat * Self::page_size());
        Self { start: 0, end: 0, b_pos: 0, p_pos: 0, b_count: 0 }
    }

    /// Takes over the span `[start, start + size)`, forgetting whatever was
    /// managed before.
    pub fn init(&mut self, start: usize, size: usize)
        requires
            start + size <= usize::MAX,
        ensures
            final(self)@ == BumpState::initial(start as nat, size as nat),
            final(self)@.wf(Self::page_size()),
    {
        let end: usize = start + size;
        assert(0 == 0nat * Self::page_size());
        *self = Self { start, end, b_pos: start, p_pos: end, b_count: 0 };
    }

    /// Extends the span downward by `[start, start + size)`.
    ///
    /// The region must end exactly where the span begins. Only the lower
    /// bound moves: the cursors and the count of live blocks stay.
    pub fn add_memory(&mut self, start: usize, size: usize) -> (r: Result<(), AllocError>)
        ensures
            r == old(self)@.add_memory_result(start as nat, size as nat),
            final(self)@ == old(self)@.after_add_memory(start as nat, size as nat),
            final(self)@.wf(Self::page_size()),
    {
        proof {
            use_type_invariant(&*self);
        }
        let abuts = match start.checked_add(size) {
            Some(region_end) => {
                if region_end > self.start && start < self.end {
                    return Err(AllocError::MemoryOverlap);
                }
                region_end == self.start
            },
            None => {
                if start < self.end {
                    return Err(AllocError::MemoryOverlap);
                }
                false
            },
        };
        if !abuts {
            return Err(AllocError::InvalidParam);
        }
        self.start = start;
        Ok(())
    }

    /// Hands out a block of `size` bytes at the byte cursor.
    ///
    /// The block is granted exactly when it fits below the page cursor. The
    /// cursor is not rounded to `align`.
    pub fn alloc_bytes(&mut self, size: usize, align: usize) -> (r: Result<usize, AllocError>)
        requires
            old(self)@.b_count < usize::MAX,
        ensures
            final(self)@ == old(self)@.after_alloc(size as nat),
            final(self)@.wf(Self::page_size()),
            match r {
                Ok(addr) => old(self)@.alloc_result(size as nat) == Ok::<nat, AllocError>(
                    addr as nat,
                ),
                Err(e) => old(self)@.alloc_result(size as nat) == Err::<nat, AllocError>(e),
            },
    {
        proof {
            use_type_invariant(&*self);
        }
        if size > self.p_pos - self.b_pos {
            return Err(AllocError::NoMemory);
        }
        let addr: usize = self.b_pos;
        self.b_pos = addr + size;
        self.b_count = self.b_count + 1;
        Ok(addr)
    }

    /// Gives back the block of `size` bytes at `addr`.
    ///
    /// Nothing happens if no block is live or `addr` is outside the span.
    /// Otherwise one block fewer is live; the cursor moves back to `addr` if
    /// the block ended at the cursor, and to the start of the span if no
    /// block is left.
    pub fn dealloc(&mut self, addr: usize, size: usize, align: usize)
        ensures
            final(self)@ == old(self)@.after_dealloc(addr as nat, size as nat),
            final(self)@.wf(Self::page_size()),
    {
        proof {
            use_type_invariant(&*self);
        }
        if self.b_count == 0 {
            return;
        }
        if addr < self.start || addr >= self.end {
            return;
        }
        if size <= self.b_pos && addr == self.b_pos - size {
            self.b_pos = addr;
        }
        self.b_count = self.b_count - 1;
        if self.b_count == 0 {
            self.b_pos = self.start;
        }
    }

    /// Bytes that the byte region can hold in all: from the start of the
    /// span to the page cursor.
    pub fn total_bytes(&self) -> (r: usize)
        ensures
            r == self@.total_bytes(),
    {
        proof {
            use_type_invariant(self);
        }
        self.p_pos - self.start
    }

    /// Bytes below the byte cursor.
    pub fn used_bytes(&self) -> (r: usize)
        ensures
            r == self@.used_bytes(),
    {
        proof {
            use_type_invariant(self);
        }
        self.b_pos - self.start
    }

    /// Bytes between the two cursors.
    pub fn available_bytes(&self) -> (r: usize)
        ensures
            r == self@.available_bytes(),
    {
        proof {
            use_type_invariant(self);
        }
        self.p_pos - self.b_pos
    }

    /// Carves a run of `num_pages` pages off below the page cursor.
    ///
    /// The run is granted exactly when it fits above the byte cursor. Its
    /// address is not rounded to `align_pow2`.
    pub fn alloc_pages(&mut self, num_pages: usize, align_pow2: usize) -> (r: Result<
        usize,
        AllocError,
    >)
        ensures
            final(self)@ == old(self)@.after_alloc_pages(num_pages as nat, Self::page_size()),
            final(self)@.wf(Self::page_size()),
            match r {
                Ok(addr) => old(self)@.alloc_pages_result(num_pages as nat, Self::page_size())
                    == Ok::<nat, AllocError>(addr as nat),
                Err(e) => old(self)@.alloc_pages_result(num_pages as nat, Self::page_size())
                    == Err::<nat, AllocError>(e),
            },
    {
        proof {
            use_type_invariant(&*self);
        }
        let bytes: usize = match num_pages.checked_mul(PAGE_SIZE) {
            Some(bytes) => bytes,
            None => {
                return Err(AllocError::NoMemory);
            },
        };
        if bytes > self.p_pos - self.b_pos {
            return Err(AllocError::NoMemory);
        }
        proof {
            let k = choose|k: nat| self@.end - self@.p_pos == #[trigger] (k * Self::page_size());
            assert(self@.end - (self@.p_pos - bytes) == (k + num_pages as nat)
                * Self::page_size()) by (nonlinear_arith)
                requires
                    self@.end - self@.p_pos == k * Self::page_size(),
                    bytes == num_pages * PAGE_SIZE,
                    Self::page_size() == PAGE_SIZE,
            ;
        }
        self.p_pos = self.p_pos - bytes;
        Ok(self.p_pos)
    }

    /// Gives back the run of `num_pages` pages at `addr`.
    ///
    /// The run is taken back only if it begins at the page cursor and ends
    /// inside the span. Any other run stays carved off.
    pub fn dealloc_pages(&mut self, addr: usize, num_pages: usize)
        ensures
            final(self)@ == old(self)@.after_dealloc_pages(
                addr as nat,
                num_pages as nat,
                Self::page_size(),
            ),
            final(self)@.wf(Self::page_size()),
    {
        proof {
            use_type_invariant(&*self);
        }
        if addr < self.start || addr >= self.end {
            return;
        }
        if addr != self.p_pos {
            return;
        }
        let bytes: usize = match num_pages.checked_mul(PAGE_SIZE) {
            Some(bytes) => bytes,
            None => {
                return;
            },
        };
        if bytes > self.end - self.p_pos {
            return;
        }
        proof {
            crate::model::lemma_multiple_minus(
                self@.end - self@.p_pos,
                num_pages as nat,
                Self::page_size(),
            );
        }
        self.p_pos = self.p_pos + bytes;
    }

    /// The inclusive lower bound of the span.
    pub fn start(&self) -> (r: usize)
        ensures
            r == self@.start,
    {
        self.start
    }

    /// The exclusive upper bound of the span.
    pub fn end(&self) -> (r: usize)
        ensures
            r == self@.end,
    {
        self.end
    }

    /// The byte cursor: where the next block of bytes will begin.
    pub fn b_pos(&self) -> (r: usize)
        ensures
            r == self@.b_pos,
    {
        self.b_pos
    }

    /// The page cursor: where the run of pages carved off last begins.
    pub fn p_pos(&self) -> (r: usize)
        ensures
            r == self@.p_pos,
    {
        self.p_pos
    }

    /// How many blocks of bytes are live.
    pub fn b_count(&self) -> (r: usize)
        ensures
            r == self@.b_count,
    {
        self.b_count
    }

    /// Whole pages above the byte cursor.
    pub fn total_pages(&self) -> (r: usize)
        requires
            PAGE_SIZE > 0,
        ensures
            r == self@.total_pages(Self::page_size()),
    {
        proof {
            use_type_invariant(self);
        }
        (self.end - self.b_pos) / PAGE_SIZE
    }

    /// Whole pages between the two cursors.
    pub fn available_pages(&self) -> (r: usize)
        requires
            PAGE_SIZE > 0,
        ensures
            r == self@.available_pages(Self::page_size()),
    {
        proof {
            use_type_invariant(self);
        }
        (self.p_pos - self.b_pos) / PAGE_SIZE
    }

    /// Pages above the page cursor.
    pub fn used_pages(&self) -> (r: usize)
        requires
            PAGE_SIZE > 0,
        ensures
            r == self@.used_pages(Self::page_size()),
    {
        proof {
            use_type_invariant(self);
        }
        (self.end - self.p_pos) / PAGE_SIZE
    }
}

} // verus!
