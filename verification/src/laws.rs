//! What holds of whole histories of requests.
//!
//! Each law is a proof over the model. The executable allocator takes exactly
//! the model's step at every call, so each law holds of it as well.

use vstd::prelude::*;
use vstd::arithmetic::div_mod::{lemma_div_multiples_vanish, lemma_hoist_over_denominator};
use crate::error::AllocError;
use crate::model::{lemma_multiple_minus, BumpState, Op};

verus! {

/// The requests for blocks of the given sizes, in order.
pub open spec fn alloc_ops(sizes: Seq<nat>) -> Seq<Op> {
    Seq::new(sizes.len(), |i: int| Op::Alloc { size: sizes[i] })
}

/// The requests that give back the given blocks, each an address and a size,
/// in order.
pub open spec fn dealloc_ops(blocks: Seq<(nat, nat)>) -> Seq<Op> {
    Seq::new(blocks.len(), |i: int| Op::Dealloc { addr: blocks[i].0, size: blocks[i].1 })
}

/// Whether each of the requests for blocks of the given sizes, made in order
/// from `s`, is granted.
pub open spec fn all_granted(s: BumpState, sizes: Seq<nat>, page_size: nat) -> bool {
    forall|i: int|
        0 <= i < sizes.len() ==> (#[trigger] s.run(alloc_ops(sizes.take(i)), page_size)).fits_bytes(
            sizes[i],
        )
}

/// The address of the `i`-th of the blocks requested in order from `s`: the
/// byte cursor after the `i` requests before it.
pub open spec fn block_addr(s: BumpState, sizes: Seq<nat>, i: int, page_size: nat) -> nat {
    s.run(alloc_ops(sizes.take(i)), page_size).b_pos
}

/// The blocks requested in order from `s`, picked in the order that `order`
/// gives, each as its address and size.
pub open spec fn blocks_in_order(
    s: BumpState,
    sizes: Seq<nat>,
    order: Seq<int>,
    page_size: nat,
) -> Seq<(nat, nat)> {
    Seq::new(
        order.len(),
        |j: int| (block_addr(s, sizes, order[j], page_size), sizes[order[j]]),
    )
}

/// Whether `order` names each of the positions `0 .. n` exactly once.
pub open spec fn is_permutation(order: Seq<int>, n: nat) -> bool {
    &&& order.len() == n
    &&& forall|j: int| 0 <= j < order.len() ==> 0 <= #[trigger] order[j] < n
    &&& forall|j: int, k: int| 0 <= j < k < order.len() ==> order[j] != order[k]
}

/// Whether no request in `ops` offers more memory.
pub open spec fn no_add_memory(ops: Seq<Op>) -> bool {
    forall|i: int| 0 <= i < ops.len() ==> !(#[trigger] ops[i] is AddMemory)
}

/// A single request keeps the cursors ordered inside the span and the page
/// region a whole number of pages.
pub proof fn lemma_step_preserves_wf(s: BumpState, op: Op, page_size: nat)
    requires
        s.wf(page_size),
    ensures
        s.step(op, page_size).wf(page_size),
{
    let t = s.step(op, page_size);
    match op {
        Op::Init { start, size } => {
            assert(t.end - t.p_pos == 0nat * page_size);
        },
        Op::AllocPages { num_pages } => {
            if s.fits_pages(num_pages, page_size) {
                let k = choose|k: nat| s.end - s.p_pos == #[trigger] (k * page_size);
                assert(t.end - t.p_pos == (k + num_pages) * page_size) by (nonlinear_arith)
                    requires
                        s.end - s.p_pos == k * page_size,
                        t.end == s.end,
                        t.p_pos == s.p_pos - num_pages * page_size,
                ;
            }
        },
        Op::DeallocPages { addr, num_pages } => {
            if s.reclaims_pages(addr, num_pages, page_size) {
                assert(0 <= num_pages * page_size) by (nonlinear_arith);
                lemma_multiple_minus(s.end - s.p_pos, num_pages, page_size);
            }
        },
        _ => {},
    }
}

/// Running one history after another is running the two joined.
pub proof fn lemma_run_concat(s: BumpState, first: Seq<Op>, second: Seq<Op>, page_size: nat)
    ensures
        s.run(first + second, page_size) == s.run(first, page_size).run(second, page_size),
    decreases second.len(),
{
    if second.len() == 0 {
        assert(first + second =~= first);
    } else {
        lemma_run_concat(s, first, second.drop_last(), page_size);
        assert((first + second).drop_last() =~= first + second.drop_last());
    }
}

/// Whatever the history of requests, after every one of them
/// `start <= b_pos <= p_pos <= end` holds and the page region is a whole
/// number of pages.
pub proof fn lemma_run_preserves_wf(s: BumpState, ops: Seq<Op>, page_size: nat)
    requires
        s.wf(page_size),
    ensures
        forall|n: int|
            0 <= n <= ops.len() ==> (#[trigger] s.run(ops.take(n), page_size)).wf(page_size),
        s.run(ops, page_size).wf(page_size),
    decreases ops.len(),
{
    assert(ops.take(ops.len() as int) =~= ops);
    if ops.len() > 0 {
        let front = ops.drop_last();
        lemma_run_preserves_wf(s, front, page_size);
        lemma_step_preserves_wf(s.run(front, page_size), ops.last(), page_size);
        assert forall|n: int| 0 <= n <= ops.len() implies (#[trigger] s.run(
            ops.take(n),
            page_size,
        )).wf(page_size) by {
            if n < ops.len() {
                assert(ops.take(n) =~= front.take(n));
            }
        }
    } else {
        assert forall|n: int| 0 <= n <= ops.len() implies (#[trigger] s.run(
            ops.take(n),
            page_size,
        )).wf(page_size) by {
            assert(ops.take(n) =~= ops);
        }
    }
}

/// As long as no memory is added, a byte region without live blocks is
/// empty: whenever `b_count == 0`, also `b_pos == start`.
pub proof fn lemma_run_keeps_drained(s: BumpState, ops: Seq<Op>, page_size: nat)
    requires
        s.b_count == 0 ==> s.b_pos == s.start,
        no_add_memory(ops),
    ensures
        s.run(ops, page_size).b_count == 0 ==> s.run(ops, page_size).b_pos == s.run(
            ops,
            page_size,
        ).start,
    decreases ops.len(),
{
    if ops.len() > 0 {
        let front = ops.drop_last();
        assert forall|i: int| 0 <= i < front.len() implies !(#[trigger] front[i] is AddMemory) by {
            assert(front[i] == ops[i]);
        }
        lemma_run_keeps_drained(s, front, page_size);
        assert(!(ops[ops.len() - 1] is AddMemory));
    }
}

/// If the span is a whole number of pages, so is the stretch from its start
/// to the page cursor.
pub proof fn lemma_page_cursor_aligned(s: BumpState, page_size: nat)
    requires
        s.wf(page_size),
        exists|k: nat| s.end - s.start == #[trigger] (k * page_size),
    ensures
        exists|k: nat| s.p_pos - s.start == #[trigger] (k * page_size),
{
    let j = choose|k: nat| s.end - s.p_pos == #[trigger] (k * page_size);
    assert(0 <= j * page_size <= s.end - s.start);
    lemma_multiple_minus(s.end - s.start, j, page_size);
}

/// While the span and the region offered both hold something, the region is
/// refused as overlapping exactly when some address lies in both.
pub proof fn lemma_overlap_is_shared_address(s: BumpState, start: nat, size: nat)
    requires
        s.start < s.end,
        size > 0,
    ensures
        s.overlaps(start, size) <==> exists|a: nat| start <= a < start + size && s.contains(a),
{
    if s.overlaps(start, size) {
        let a = if start >= s.start {
            start
        } else {
            s.start
        };
        assert(start <= a < start + size && s.contains(a));
    }
}

/// After the granted requests for blocks of the given sizes, the span is as
/// before and as many more blocks are live.
pub proof fn lemma_allocs_counted(s: BumpState, sizes: Seq<nat>, page_size: nat)
    requires
        all_granted(s, sizes, page_size),
    ensures
        s.run(alloc_ops(sizes), page_size).start == s.start,
        s.run(alloc_ops(sizes), page_size).end == s.end,
        s.run(alloc_ops(sizes), page_size).p_pos == s.p_pos,
        s.run(alloc_ops(sizes), page_size).b_count == s.b_count + sizes.len(),
        s.run(alloc_ops(sizes), page_size).b_pos >= s.b_pos,
    decreases sizes.len(),
{
    if sizes.len() > 0 {
        let front = sizes.drop_last();
        assert(alloc_ops(sizes).drop_last() =~= alloc_ops(front));
        assert(sizes.take(sizes.len() - 1) =~= front);
        assert forall|i: int| 0 <= i < front.len() implies (#[trigger] s.run(
            alloc_ops(front.take(i)),
            page_size,
        )).fits_bytes(front[i]) by {
            assert(front.take(i) =~= sizes.take(i));
            assert(s.run(alloc_ops(sizes.take(i)), page_size).fits_bytes(sizes[i]));
        }
        lemma_allocs_counted(s, front, page_size);
        assert(s.run(alloc_ops(sizes.take(sizes.len() - 1)), page_size).fits_bytes(
            sizes[sizes.len() - 1],
        ));
    }
}

/// Giving back blocks whose addresses lie in the span, no more of them than
/// are live, takes one off the count for each, and empties the byte region
/// when none is left.
pub proof fn lemma_deallocs_counted(s: BumpState, blocks: Seq<(nat, nat)>, page_size: nat)
    requires
        blocks.len() <= s.b_count,
        forall|j: int| 0 <= j < blocks.len() ==> s.contains(#[trigger] blocks[j].0),
    ensures
        s.run(dealloc_ops(blocks), page_size).start == s.start,
        s.run(dealloc_ops(blocks), page_size).end == s.end,
        s.run(dealloc_ops(blocks), page_size).b_count == s.b_count - blocks.len(),
        blocks.len() > 0 && blocks.len() == s.b_count ==> s.run(
            dealloc_ops(blocks),
            page_size,
        ).b_pos == s.start,
    decreases blocks.len(),
{
    if blocks.len() > 0 {
        let front = blocks.drop_last();
        assert(dealloc_ops(blocks).drop_last() =~= dealloc_ops(front));
        assert forall|j: int| 0 <= j < front.len() implies s.contains(#[trigger] front[j].0) by {
            assert(front[j] == blocks[j]);
        }
        lemma_deallocs_counted(s, front, page_size);
        assert(s.contains(blocks[blocks.len() - 1].0));
    }
}

/// Once every block that was handed out has been given back, in whatever
/// order, no block is live and the byte cursor is back at the start of the
/// span.
///
/// This is stated of blocks whose addresses lie below the end of the span. A
/// block of no bytes handed out at the very end of the span is not among
/// them: giving it back is ignored, as its address is outside the span.
pub proof fn lemma_all_blocks_returned(
    s: BumpState,
    sizes: Seq<nat>,
    order: Seq<int>,
    page_size: nat,
)
    requires
        s.wf(page_size),
        s.b_count == 0,
        sizes.len() == 0 ==> s.b_pos == s.start,
        all_granted(s, sizes, page_size),
        forall|i: int| 0 <= i < sizes.len() ==> #[trigger] block_addr(s, sizes, i, page_size) < s.end,
        is_permutation(order, sizes.len()),
    ensures
        s.run(
            alloc_ops(sizes) + dealloc_ops(blocks_in_order(s, sizes, order, page_size)),
            page_size,
        ).b_count == 0,
        s.run(
            alloc_ops(sizes) + dealloc_ops(blocks_in_order(s, sizes, order, page_size)),
            page_size,
        ).b_pos == s.run(
            alloc_ops(sizes) + dealloc_ops(blocks_in_order(s, sizes, order, page_size)),
            page_size,
        ).start,
{
    let blocks = blocks_in_order(s, sizes, order, page_size);
    let t = s.run(alloc_ops(sizes), page_size);
    lemma_run_concat(s, alloc_ops(sizes), dealloc_ops(blocks), page_size);
    lemma_allocs_counted(s, sizes, page_size);
    assert forall|j: int| 0 <= j < blocks.len() implies t.contains(#[trigger] blocks[j].0) by {
        let i = order[j];
        assert(0 <= i < sizes.len());
        assert(blocks[j].0 == block_addr(s, sizes, i, page_size));
        lemma_prefix_granted(s, sizes, i, page_size);
        lemma_allocs_counted(s, sizes.take(i), page_size);
    }
    lemma_deallocs_counted(t, blocks, page_size);
    if sizes.len() == 0 {
        assert(dealloc_ops(blocks) =~= Seq::<Op>::empty());
        assert(alloc_ops(sizes) =~= Seq::<Op>::empty());
    }
}

/// If all of the requests are granted, so are the first `i` of them.
pub proof fn lemma_prefix_granted(s: BumpState, sizes: Seq<nat>, i: int, page_size: nat)
    requires
        all_granted(s, sizes, page_size),
        0 <= i <= sizes.len(),
    ensures
        all_granted(s, sizes.take(i), page_size),
{
    let front = sizes.take(i);
    assert forall|k: int| 0 <= k < front.len() implies (#[trigger] s.run(
        alloc_ops(front.take(k)),
        page_size,
    )).fits_bytes(front[k]) by {
        assert(front.take(k) =~= sizes.take(k));
        assert(s.run(alloc_ops(sizes.take(k)), page_size).fits_bytes(sizes[k]));
    }
}

/// Giving back the most recent of two blocks moves the byte cursor back to
/// where that block began.
pub proof fn lemma_dealloc_most_recent(s: BumpState, s1: nat, s2: nat, page_size: nat)
    requires
        s.wf(page_size),
        s.fits_bytes(s1),
        s.after_alloc(s1).fits_bytes(s2),
    ensures
        s.after_alloc(s1).after_alloc(s2).after_dealloc(s.after_alloc(s1).b_pos, s2).b_pos
            == s.after_alloc(s1).b_pos,
{
}

/// Giving back the older of two blocks first leaves the byte cursor where it
/// is, and still takes one off the count of live blocks.
///
/// This is stated of a second block that holds at least one byte. Below a
/// second block of no bytes the first ends at the cursor, and giving it back
/// moves the cursor.
pub proof fn lemma_dealloc_older_keeps_cursor(s: BumpState, s1: nat, s2: nat, page_size: nat)
    requires
        s.wf(page_size),
        s.fits_bytes(s1),
        s.after_alloc(s1).fits_bytes(s2),
        s2 > 0,
    ensures
        s.after_alloc(s1).after_alloc(s2).after_dealloc(s.b_pos, s1).b_pos == s.after_alloc(
            s1,
        ).after_alloc(s2).b_pos,
        s.after_alloc(s1).after_alloc(s2).after_dealloc(s.b_pos, s1).b_count == s.after_alloc(
            s1,
        ).after_alloc(s2).b_count - 1,
{
}

/// Two blocks handed out while none was live, given back the older first:
/// the first return leaves the byte cursor and takes one off the count, the
/// second leaves no block live and the cursor at the start of the span.
///
/// This is stated of a second block that holds at least one byte, as the law
/// before it.
pub proof fn lemma_dealloc_out_of_order(s: BumpState, s1: nat, s2: nat, page_size: nat)
    requires
        s.wf(page_size),
        s.b_count == 0,
        s.fits_bytes(s1),
        s.after_alloc(s1).fits_bytes(s2),
        s2 > 0,
    ensures
        ({
            let both = s.after_alloc(s1).after_alloc(s2);
            let one = both.after_dealloc(s.b_pos, s1);
            let none = one.after_dealloc(s.after_alloc(s1).b_pos, s2);
            &&& one.b_pos == both.b_pos
            &&& one.b_count == 1
            &&& none.b_count == 0
            &&& none.b_pos == none.start
        }),
{
}

/// Once the two cursors have met, no block of at least one byte and no run
/// of pages of at least one byte is granted: the request is answered with
/// `NoMemory` and changes nothing.
pub proof fn lemma_exhausted_rejects(s: BumpState, size: nat, num_pages: nat, page_size: nat)
    requires
        s.p_pos == s.b_pos,
    ensures
        size > 0 ==> s.alloc_result(size) == Err::<nat, AllocError>(AllocError::NoMemory)
            && s.after_alloc(size) == s,
        num_pages * page_size > 0 ==> s.alloc_pages_result(num_pages, page_size) == Err::<
            nat,
            AllocError,
        >(AllocError::NoMemory) && s.after_alloc_pages(num_pages, page_size) == s,
{
}

/// Giving back the run of pages that was carved off last puts the page
/// cursor, and with it the whole state, back where it was before the run was
/// carved off.
pub proof fn lemma_pages_returned(s: BumpState, num_pages: nat, page_size: nat)
    requires
        s.wf(page_size),
        s.fits_pages(num_pages, page_size),
    ensures
        s.after_alloc_pages(num_pages, page_size).after_dealloc_pages(
            s.after_alloc_pages(num_pages, page_size).p_pos,
            num_pages,
            page_size,
        ) == s,
{
    assert(0 <= num_pages * page_size) by (nonlinear_arith);
}

/// Giving back a run of pages that does not begin at the page cursor changes
/// nothing.
pub proof fn lemma_other_run_ignored(s: BumpState, addr: nat, num_pages: nat, page_size: nat)
    requires
        addr != s.p_pos,
    ensures
        s.after_dealloc_pages(addr, num_pages, page_size) == s,
{
}

/// The byte capacity is what is used plus what is available, and so is the
/// page capacity.
pub proof fn lemma_accounting(s: BumpState, page_size: nat)
    requires
        s.wf(page_size),
    ensures
        s.total_bytes() == s.used_bytes() + s.available_bytes(),
        page_size > 0 ==> s.total_pages(page_size) == s.used_pages(page_size) + s.available_pages(
            page_size,
        ),
{
    if page_size > 0 {
        let k = choose|k: nat| s.end - s.p_pos == #[trigger] (k * page_size);
        let d = page_size as int;
        assert(k * page_size == d * k) by (nonlinear_arith)
            requires
                d == page_size,
        ;
        lemma_div_multiples_vanish(k as int, d);
        lemma_hoist_over_denominator(s.p_pos - s.b_pos, k as int, page_size);
    }
}

} // verus!
