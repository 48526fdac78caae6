use spinlocks::hash::{Hashable, Hashed};
use spinlocks::listset::{CoarseListSet, MutSet, SeqListSet, SetOps};

#[test]
fn hashed_caches_the_key() {
    let h = Hashed::new(42u64);
    assert_eq!(h.hash(), 42);
    assert_eq!(h.get(), 42);
}

#[test]
fn hashed_of_small_integers() {
    assert_eq!(7u8.hash(), 7);
    assert_eq!(9u16.hash(), 9);
    assert_eq!(11u32.hash(), 11);
    assert_eq!(13usize.hash(), 13);
    assert_eq!(true.hash(), 1);
    assert_eq!(false.hash(), 0);
}

#[test]
fn seq_list_set_add_and_contains() {
    let mut set: SeqListSet<u64> = SeqListSet::new();
    assert!(!set.contains(3));
    assert!(set.add(3));
    assert!(set.contains(3));
    assert!(!set.add(3), "adding a present element reports it as old");
    assert!(set.add(1));
    assert!(set.add(2));
    assert!(set.contains(1));
    assert!(set.contains(2));
    assert!(!set.contains(4));
}

#[test]
fn seq_list_set_remove() {
    let mut set: SeqListSet<u64> = SeqListSet::new();
    assert!(!set.remove(5), "removing from the empty set reports absence");
    set.add(5);
    set.add(6);
    set.add(7);
    assert!(set.remove(6));
    assert!(!set.contains(6));
    assert!(set.contains(5));
    assert!(set.contains(7));
    assert!(!set.remove(6));
    assert!(set.remove(5));
    assert!(set.remove(7));
    assert!(!set.contains(5));
}

#[test]
fn seq_list_set_out_of_order_insertions() {
    let mut set: SeqListSet<u32> = SeqListSet::new();
    let values: [u32; 7] = [9, 2, 14, 0, 7, 11, 5];
    for v in values {
        assert!(set.add(v));
    }
    for v in values {
        assert!(set.contains(v));
    }
    assert!(!set.contains(1));
    assert!(!set.contains(15));
    for v in values {
        assert!(set.remove(v));
    }
    for v in values {
        assert!(!set.contains(v));
    }
}

#[test]
fn coarse_list_set_behaves_like_the_sequential_one() {
    let mut set: CoarseListSet<u64> = CoarseListSet::new();
    assert!(!set.contains(8));
    assert!(set.add(8));
    assert!(set.add(4));
    assert!(!set.add(8));
    assert!(set.contains(4));
    assert!(set.remove(8));
    assert!(!set.contains(8));
    assert!(!set.remove(8));
    assert!(set.contains(4));
}
