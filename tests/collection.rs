use bit_set::BitSet;
use proptest_core::collection::VecStrategy;
use proptest_core::containers::{hash_map, hash_set, vec_deque};
use proptest_core::leaf::{Just, U32Range};
use proptest_core::map::Mapped;
use proptest_core::runner::TestRunner;
use proptest_core::size_range::{size_range, SizeRange};
use proptest_core::strategy::{Reject, Strategy, ValueTree};
use std::collections::HashSet;

/// Shrinks a failing case as a test runner does: simplify while the value
/// still fails, complicate once when it passes. Returns the last failing
/// value, or `None` when the first value passes.
fn minimise<T: ValueTree>(mut case: T, fails: impl Fn(&T::Value) -> bool) -> Option<T::Value> {
    let mut last = case.current();
    if !fails(&last) {
        return None;
    }
    if !case.simplify() {
        return Some(last);
    }
    loop {
        let v = case.current();
        if fails(&v) {
            last = v;
            if !case.simplify() {
                break;
            }
        } else if !case.complicate() {
            break;
        }
    }
    Some(last)
}

fn bits(n: u32) -> String {
    (0..3).map(|i| if n & (1 << i) != 0 { 'b' } else { 'a' }).collect()
}

#[test]
fn test_vec() {
    let input = proptest_core::collection::vec(U32Range::new(1, 20), size_range(5, 20));
    let mut num_successes = 0;

    for _ in 0..256 {
        let mut runner = TestRunner::default();
        let case = input.new_value(&mut runner).unwrap();
        let start = case.current();
        // Has correct length
        assert!(start.len() >= 5 && start.len() < 20);
        // Has at least 2 distinct values
        assert!(start.iter().map(|&v| v as usize).collect::<BitSet>().len() >= 2);

        let result = minimise(case, |v: &Vec<u32>| v.iter().map(|&v| v as usize).sum::<usize>() >= 9);

        match result {
            None => num_successes += 1,
            Some(value) => {
                // The minimal case always has between 5 (due to min
                // length) and 9 (min element value = 1) elements, and
                // always sums to exactly 9.
                assert!(
                    value.len() >= 5
                        && value.len() <= 9
                        && value.iter().map(|&v| v as usize).sum::<usize>() == 9,
                    "Unexpected minimal value: {:?}",
                    value
                );
            }
        }
    }

    assert!(num_successes < 256);
}

#[test]
fn test_vec_sanity() {
    // Every successful simplify is undone exactly by one complicate, and a
    // run of simplify calls always ends.
    let input = proptest_core::collection::vec(U32Range::new(0, 1000), size_range(5, 10));
    let mut runner = TestRunner::from_seed(10);
    for _ in 0..100 {
        let mut case = input.new_value(&mut runner).unwrap();
        let mut steps = 0;
        loop {
            let before = case.current();
            if !case.simplify() {
                assert_eq!(case.current(), before);
                assert!(!case.simplify());
                break;
            }
            assert!(case.current().len() >= 5);
            assert!(case.complicate());
            assert_eq!(case.current(), before);
            steps += 1;
            assert!(steps < 100_000);
        }
    }
}

#[test]
fn collection_test_map() {
    // Only 8 possible keys
    let input = hash_map(Mapped::new(U32Range::new(0, 8), bits), Just("a"), size_range(2, 3));
    let mut runner = TestRunner::default();

    for _ in 0..256 {
        let v = input.new_value(&mut runner).unwrap().current();
        assert_eq!(2, v.len());
    }
}

#[test]
fn test_set() {
    // Only 8 possible values
    let input = hash_set(Mapped::new(U32Range::new(0, 8), bits), size_range(2, 3));
    let mut runner = TestRunner::default();

    for _ in 0..256 {
        let v = input.new_value(&mut runner).unwrap().current();
        assert_eq!(2, v.len());
    }
}

#[test]
fn size_range_constructors() {
    assert_eq!(SizeRange::default(), size_range(0, 100));
    let r = SizeRange::exactly(4);
    assert_eq!((r.start, r.end), (4, 5));
    let r = SizeRange::up_to(7);
    assert_eq!((r.start, r.end), (0, 7));
    let r = SizeRange::new(2..9).add(10);
    assert_eq!(r.to_range(), 12..19);
    assert_eq!(SizeRange::from_pair(3, 3).to_range(), 3..3);
    let (s, x) = size_range(1, 2).with(5u8);
    assert_eq!((s, x), (size_range(1, 2), 5));
    let (s, y): (SizeRange, u32) = size_range(1, 2).lift();
    assert_eq!((s, y), (size_range(1, 2), 0));
}

#[test]
fn vec_exact_size_never_deletes() {
    let input = proptest_core::collection::vec(Just(3u32), SizeRange::exactly(4));
    let mut runner = TestRunner::from_seed(1);
    let mut case = input.new_value(&mut runner).unwrap();
    assert_eq!(case.current(), vec![3, 3, 3, 3]);
    assert!(!case.simplify());
    assert!(!case.complicate());
    assert_eq!(case.current(), vec![3, 3, 3, 3]);
}

#[test]
fn vec_deletes_in_index_order_once() {
    let input: VecStrategy<Just<u32>> = proptest_core::collection::vec(Just(1u32), size_range(1, 4));
    let mut runner = TestRunner::from_seed(2);
    let mut case = input.new_value(&mut runner).unwrap();
    while case.current().len() != 3 {
        case = input.new_value(&mut runner).unwrap();
    }
    assert!(case.simplify());
    assert_eq!(case.current().len(), 2);
    assert!(case.complicate());
    assert_eq!(case.current().len(), 3);
    // A deletion is undone only once.
    assert!(!case.complicate());
    assert!(case.simplify());
    assert!(case.simplify());
    assert_eq!(case.current().len(), 1);
    assert!(!case.simplify());
}

#[test]
fn vec_shrinks_elements_after_deletion() {
    let input = proptest_core::collection::vec(U32Range::new(0, 100), SizeRange::exactly(2));
    let mut runner = TestRunner::from_seed(3);
    let case = input.new_value(&mut runner).unwrap();
    let min = minimise(case, |v: &Vec<u32>| v[0] + v[1] >= 30).unwrap_or(vec![15, 15]);
    assert_eq!(min.len(), 2);
    assert_eq!(min[0] + min[1], 30);
}

#[test]
fn map_fold_keeps_every_distinct_key() {
    // Keys are distinct whenever each of 3 draws from a huge domain differs.
    let input = hash_map(U32Range::new(0, 4_000_000_000), Just(0u8), size_range(3, 4));
    let mut runner = TestRunner::from_seed(4);
    for _ in 0..64 {
        let t = input.new_value(&mut runner).unwrap();
        assert_eq!(t.current().len(), 3);
    }
}

#[test]
fn set_shrinking_keeps_minimum_size() {
    let input = hash_set(U32Range::new(0, 5), size_range(3, 6));
    let mut runner = TestRunner::from_seed(5);
    for _ in 0..64 {
        let mut t = input.new_value(&mut runner).unwrap();
        assert!(t.current().len() >= 3);
        while t.simplify() {
            assert!(t.current().len() >= 3);
        }
    }
}

#[test]
fn set_rejects_when_minimum_is_unreachable() {
    // Only two distinct values exist, so three can never be reached.
    let input = hash_set(U32Range::new(0, 2), size_range(3, 4));
    let mut runner = TestRunner::from_seed(6);
    assert!(matches!(input.new_value(&mut runner), Err(Reject::BelowMinimumSize)));
}

#[test]
fn deque_keeps_vector_order() {
    let input = vec_deque(U32Range::new(0, 1000), SizeRange::exactly(6));
    let mut runner = TestRunner::from_seed(7);
    let t = input.new_value(&mut runner).unwrap();
    let d = t.current();
    assert_eq!(d.len(), 6);
    let direct = proptest_core::collection::vec(U32Range::new(0, 1000), SizeRange::exactly(6));
    let mut runner = TestRunner::from_seed(7);
    let v = direct.new_value(&mut runner).unwrap().current();
    assert_eq!(d.into_iter().collect::<Vec<_>>(), v);
}

#[test]
fn pair_shrinks_first_then_second() {
    let input = (U32Range::new(0, 50), U32Range::new(0, 50));
    let mut runner = TestRunner::from_seed(8);
    let case = input.new_value(&mut runner).unwrap();
    let (a, b) = case.current();
    if a + b >= 20 {
        let (x, y) = minimise(case, |p: &(u32, u32)| p.0 + p.1 >= 20).unwrap();
        assert_eq!(x + y, 20);
    }
    let distinct: HashSet<u32> = HashSet::from([a, b]);
    assert!(!distinct.is_empty());
}

#[test]
fn binary_search_finds_least_failing() {
    let input = U32Range::new(10, 1000);
    let mut runner = TestRunner::from_seed(9);
    for _ in 0..32 {
        let case = input.new_value(&mut runner).unwrap();
        let start = case.current();
        assert!((10..1000).contains(&start));
        match minimise(case, |v: &u32| *v >= 123) {
            Some(v) => assert_eq!(v, 123),
            None => assert!(start < 123),
        }
    }
}

#[test]
fn set_complicate_undoes_accepted_step_once() {
    let input = hash_set(U32Range::new(0, 1000), size_range(2, 6));
    let mut runner = TestRunner::from_seed(14);
    let mut t = input.new_value(&mut runner).unwrap();
    assert!(!t.complicate());
    let before = t.current();
    assert!(t.simplify());
    assert!(t.current().len() >= 2);
    assert!(t.complicate());
    assert_eq!(t.current(), before);
    assert!(!t.complicate());
}

#[test]
fn deque_shrinks_step_for_step_with_its_vector() {
    let deque = vec_deque(U32Range::new(0, 1000), size_range(0, 8));
    let direct = proptest_core::collection::vec(U32Range::new(0, 1000), size_range(0, 8));
    let mut r1 = TestRunner::from_seed(15);
    let mut r2 = TestRunner::from_seed(15);
    let mut d = deque.new_value(&mut r1).unwrap();
    let mut v = direct.new_value(&mut r2).unwrap();
    for step in 0..200 {
        assert_eq!(d.current().into_iter().collect::<Vec<_>>(), v.current());
        let moved = if step % 3 == 2 { (d.complicate(), v.complicate()) } else { (d.simplify(), v.simplify()) };
        assert_eq!(moved.0, moved.1);
    }
}

#[test]
fn binary_search_halves_towards_low_end() {
    let mut runner = TestRunner::from_seed(16);
    let mut t = U32Range::new(0, 1000).new_value(&mut runner).unwrap();
    let start = t.current();
    if start > 0 {
        assert!(t.simplify());
        assert_eq!(t.current(), start / 2);
        assert!(t.complicate());
        assert_eq!(t.current(), start);
        assert!(!t.complicate());
    }
}
