use bump_allocator::{AllocError, EarlyAllocator};

fn fresh(start: usize, size: usize) -> EarlyAllocator<1024> {
    let mut a = EarlyAllocator::<1024>::new();
    a.init(start, size);
    a
}

fn ordered(a: &EarlyAllocator<1024>) -> bool {
    a.start() <= a.b_pos()
        && a.b_pos() <= a.p_pos()
        && a.p_pos() <= a.end()
        && (a.end() - a.p_pos()) % 1024 == 0
}

#[test]
fn new_is_all_zero() {
    let a = EarlyAllocator::<1024>::new();
    assert_eq!(a.start(), 0);
    assert_eq!(a.end(), 0);
    assert_eq!(a.b_pos(), 0);
    assert_eq!(a.p_pos(), 0);
    assert_eq!(a.b_count(), 0);
    assert!(ordered(&a));
}

#[test]
fn init_sets_span_and_cursors() {
    let a = fresh(4096, 8192);
    assert_eq!(a.start(), 4096);
    assert_eq!(a.end(), 12288);
    assert_eq!(a.b_pos(), 4096);
    assert_eq!(a.p_pos(), 12288);
    assert_eq!(a.b_count(), 0);
}

#[test]
fn init_again_forgets_the_past() {
    let mut a = fresh(0, 4096);
    assert_eq!(a.alloc_bytes(100, 8), Ok(0));
    assert_eq!(a.alloc_pages(1, 1024), Ok(3072));
    a.init(8192, 2048);
    assert_eq!(a.start(), 8192);
    assert_eq!(a.end(), 10240);
    assert_eq!(a.b_pos(), 8192);
    assert_eq!(a.p_pos(), 10240);
    assert_eq!(a.b_count(), 0);
}

#[test]
fn alloc_returns_old_cursor_and_advances() {
    let mut a = fresh(1000, 4096);
    assert_eq!(a.alloc_bytes(24, 8), Ok(1000));
    assert_eq!(a.b_pos(), 1024);
    assert_eq!(a.b_count(), 1);
    assert_eq!(a.alloc_bytes(7, 1), Ok(1024));
    assert_eq!(a.b_pos(), 1031);
    assert_eq!(a.b_count(), 2);
    assert!(ordered(&a));
}

#[test]
fn alloc_at_address_zero_is_granted() {
    let mut a = fresh(0, 4096);
    assert_eq!(a.alloc_bytes(1, 1), Ok(0));
}

#[test]
fn alloc_ignores_alignment() {
    let mut a = fresh(0, 4096);
    assert_eq!(a.alloc_bytes(3, 1), Ok(0));
    assert_eq!(a.alloc_bytes(8, 4096), Ok(3));
    assert_eq!(a.b_pos(), 11);
}

#[test]
fn alloc_exactly_filling_is_granted() {
    let mut a = fresh(0, 4096);
    assert_eq!(a.alloc_bytes(4096, 1), Ok(0));
    assert_eq!(a.b_pos(), 4096);
    assert_eq!(a.available_bytes(), 0);
}

#[test]
fn alloc_one_byte_too_many_is_refused() {
    let mut a = fresh(0, 4096);
    assert_eq!(a.alloc_bytes(4097, 1), Err(AllocError::NoMemory));
    assert_eq!(a.b_pos(), 0);
    assert_eq!(a.b_count(), 0);
}

#[test]
fn alloc_of_huge_size_is_refused() {
    let mut a = fresh(4096, 4096);
    assert_eq!(a.alloc_bytes(usize::MAX, 1), Err(AllocError::NoMemory));
    assert_eq!(a.alloc_bytes(usize::MAX - 4095, 1), Err(AllocError::NoMemory));
    assert_eq!(a.b_pos(), 4096);
    assert_eq!(a.b_count(), 0);
}

#[test]
fn alloc_of_nothing_counts_as_a_block() {
    let mut a = fresh(0, 4096);
    assert_eq!(a.alloc_bytes(0, 1), Ok(0));
    assert_eq!(a.b_pos(), 0);
    assert_eq!(a.b_count(), 1);
}

#[test]
fn dealloc_with_nothing_live_is_ignored() {
    let mut a = fresh(0, 4096);
    a.dealloc(0, 100, 1);
    assert_eq!(a.b_pos(), 0);
    assert_eq!(a.b_count(), 0);
}

#[test]
fn dealloc_outside_the_span_is_ignored() {
    let mut a = fresh(1024, 4096);
    assert_eq!(a.alloc_bytes(100, 1), Ok(1024));
    assert_eq!(a.alloc_bytes(100, 1), Ok(1124));
    a.dealloc(1023, 100, 1);
    assert_eq!(a.b_count(), 2);
    assert_eq!(a.b_pos(), 1224);
    a.dealloc(5120, 100, 1);
    assert_eq!(a.b_count(), 2);
    assert_eq!(a.b_pos(), 1224);
    a.dealloc(usize::MAX, 100, 1);
    assert_eq!(a.b_count(), 2);
    assert_eq!(a.b_pos(), 1224);
}

#[test]
fn dealloc_of_last_block_rolls_back() {
    let mut a = fresh(0, 4096);
    assert_eq!(a.alloc_bytes(100, 1), Ok(0));
    assert_eq!(a.alloc_bytes(50, 1), Ok(100));
    assert_eq!(a.alloc_bytes(30, 1), Ok(150));
    a.dealloc(150, 30, 1);
    assert_eq!(a.b_pos(), 150);
    assert_eq!(a.b_count(), 2);
    a.dealloc(100, 50, 1);
    assert_eq!(a.b_pos(), 100);
    assert_eq!(a.b_count(), 1);
    assert!(ordered(&a));
}

#[test]
fn dealloc_of_older_block_keeps_cursor() {
    let mut a = fresh(0, 4096);
    assert_eq!(a.alloc_bytes(100, 1), Ok(0));
    assert_eq!(a.alloc_bytes(50, 1), Ok(100));
    a.dealloc(0, 100, 1);
    assert_eq!(a.b_pos(), 150);
    assert_eq!(a.b_count(), 1);
    a.dealloc(100, 50, 1);
    assert_eq!(a.b_count(), 0);
    assert_eq!(a.b_pos(), 0);
}

#[test]
fn dealloc_with_wrong_size_only_counts() {
    let mut a = fresh(0, 4096);
    assert_eq!(a.alloc_bytes(100, 1), Ok(0));
    assert_eq!(a.alloc_bytes(50, 1), Ok(100));
    a.dealloc(100, 49, 1);
    assert_eq!(a.b_pos(), 150);
    assert_eq!(a.b_count(), 1);
}

#[test]
fn dealloc_with_overflowing_size_only_counts() {
    let mut a = fresh(0, 4096);
    assert_eq!(a.alloc_bytes(100, 1), Ok(0));
    assert_eq!(a.alloc_bytes(50, 1), Ok(100));
    a.dealloc(100, usize::MAX, 1);
    assert_eq!(a.b_pos(), 150);
    assert_eq!(a.b_count(), 1);
}

#[test]
fn last_block_out_empties_the_region() {
    let mut a = fresh(2048, 4096);
    assert_eq!(a.alloc_bytes(10, 1), Ok(2048));
    assert_eq!(a.alloc_bytes(20, 1), Ok(2058));
    assert_eq!(a.alloc_bytes(30, 1), Ok(2078));
    a.dealloc(2058, 20, 1);
    a.dealloc(2048, 10, 1);
    assert_eq!(a.b_pos(), 2108);
    a.dealloc(2078, 30, 1);
    assert_eq!(a.b_count(), 0);
    assert_eq!(a.b_pos(), 2048);
}

#[test]
fn blocks_returned_in_every_order_empty_the_region() {
    let sizes: [usize; 3] = [16, 1, 200];
    let orders: [[usize; 3]; 6] =
        [[0, 1, 2], [0, 2, 1], [1, 0, 2], [1, 2, 0], [2, 0, 1], [2, 1, 0]];
    for order in orders {
        let mut a = fresh(512, 4096);
        let mut addrs: Vec<usize> = Vec::new();
        for size in sizes {
            addrs.push(a.alloc_bytes(size, 1).unwrap());
        }
        assert_eq!(addrs, vec![512, 528, 529]);
        assert_eq!(a.b_count(), 3);
        for i in order {
            a.dealloc(addrs[i], sizes[i], 1);
            assert!(ordered(&a));
        }
        assert_eq!(a.b_count(), 0);
        assert_eq!(a.b_pos(), a.start());
    }
}

#[test]
fn block_of_nothing_at_the_end_is_never_returned() {
    let mut a = fresh(0, 1024);
    assert_eq!(a.alloc_bytes(1024, 1), Ok(0));
    assert_eq!(a.alloc_bytes(0, 1), Ok(1024));
    a.dealloc(1024, 0, 1);
    assert_eq!(a.b_count(), 2);
    a.dealloc(0, 1024, 1);
    assert_eq!(a.b_count(), 1);
    assert_eq!(a.b_pos(), 0);
}

#[test]
fn older_block_below_a_block_of_nothing_rolls_back() {
    let mut a = fresh(0, 4096);
    assert_eq!(a.alloc_bytes(100, 1), Ok(0));
    assert_eq!(a.alloc_bytes(40, 1), Ok(100));
    assert_eq!(a.alloc_bytes(0, 1), Ok(140));
    a.dealloc(100, 40, 1);
    assert_eq!(a.b_pos(), 100);
    assert_eq!(a.b_count(), 2);
}

#[test]
fn byte_accounting() {
    let mut a = fresh(1000, 5000);
    assert_eq!(a.total_bytes(), 5000);
    assert_eq!(a.used_bytes(), 0);
    assert_eq!(a.available_bytes(), 5000);
    assert_eq!(a.alloc_bytes(300, 1), Ok(1000));
    assert_eq!(a.alloc_pages(2, 1024), Ok(3952));
    assert_eq!(a.total_bytes(), 2952);
    assert_eq!(a.used_bytes(), 300);
    assert_eq!(a.available_bytes(), 2652);
    assert_eq!(a.total_bytes(), a.used_bytes() + a.available_bytes());
}
