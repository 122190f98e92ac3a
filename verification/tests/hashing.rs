use bump_allocator::{DefaultHasher, RandomState};
use std::hash::Hasher;

#[test]
fn seed_splits_into_upper_and_lower_half() {
    let s = RandomState::from_seed(0x0123_4567_89AB_CDEF_FEDC_BA98_7654_3210);
    assert_eq!(s.k0(), 0x0123_4567_89AB_CDEF);
    assert_eq!(s.k1(), 0xFEDC_BA98_7654_3210);
}

#[test]
fn seed_edges() {
    let zero = RandomState::from_seed(0);
    assert_eq!((zero.k0(), zero.k1()), (0, 0));
    let all = RandomState::from_seed(u128::MAX);
    assert_eq!((all.k0(), all.k1()), (u64::MAX, u64::MAX));
    let low = RandomState::from_seed(u64::MAX as u128);
    assert_eq!((low.k0(), low.k1()), (0, u64::MAX));
    let high = RandomState::from_seed(1u128 << 64);
    assert_eq!((high.k0(), high.k1()), (1, 0));
}

#[test]
fn keys_make_up_the_seed_again() {
    let seed: u128 = 0xDEAD_BEEF_0000_0001_0000_0000_CAFE_F00D;
    let s = RandomState::from_seed(seed);
    assert_eq!(((s.k0() as u128) << 64) | s.k1() as u128, seed);
}

#[test]
fn random_state_clone_keeps_keys() {
    let s = RandomState::from_seed(7u128 << 70 | 9);
    let t = s.clone();
    assert_eq!((s.k0(), s.k1()), (t.k0(), t.k1()));
}

#[test]
fn equal_writes_give_equal_hashes() {
    let mut a = DefaultHasher::new();
    let mut b = DefaultHasher::default();
    a.write(b"early");
    a.write(b"boot");
    b.write(b"early");
    b.write(b"boot");
    assert_eq!(a.finish(), b.finish());
}

#[test]
fn fresh_hashers_agree() {
    assert_eq!(DefaultHasher::new().finish(), DefaultHasher::new().finish());
}

#[test]
fn a_write_changes_the_hash() {
    let mut a = DefaultHasher::new();
    let before = a.finish();
    a.write(&[1, 2, 3]);
    assert_ne!(a.finish(), before);
}

#[test]
fn finish_does_not_reset() {
    let mut a = DefaultHasher::new();
    a.write(&[1]);
    let first = a.finish();
    assert_eq!(a.finish(), first);
    a.write(&[2]);
    let mut b = DefaultHasher::new();
    b.write(&[1]);
    b.write(&[2]);
    assert_eq!(a.finish(), b.finish());
}

#[test]
fn hasher_serves_as_a_std_hasher() {
    fn feed<H: Hasher>(h: &mut H) -> u64 {
        h.write(&[9, 9]);
        h.finish()
    }
    let mut a = DefaultHasher::new();
    let mut b = DefaultHasher::new();
    b.write(&[9, 9]);
    assert_eq!(feed(&mut a), b.finish());
}
