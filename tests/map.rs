use proptest_core::leaf::{Just, U32Range};
use proptest_core::map::{MapInto, Mapped, Perturb};
use proptest_core::runner::TestRunner;
use proptest_core::strategy::{Strategy, ValueTree};
use rand::RngCore;
use rand_xorshift::XorShiftRng;
use std::collections::HashSet;

#[test]
fn map_test_map() {
    let input = Mapped::new(U32Range::new(0, 10), |v: u32| v * 2);
    let mut runner = TestRunner::default();
    for _ in 0..256 {
        let v = input.new_value(&mut runner).unwrap().current();
        assert!(0 == v % 2);
    }
}

#[test]
fn test_map_into() {
    let input: MapInto<U32Range, u64> = MapInto::new(U32Range::new(0, 10));
    let mut runner = TestRunner::default();
    for _ in 0..256 {
        let v = input.new_value(&mut runner).unwrap().current();
        assert!(v < 10);
    }
}

#[test]
fn perturb_uses_same_rng_every_time() {
    let mut runner = TestRunner::default();
    let input = Perturb::new(Just(1u32), |v: u32, mut rng: XorShiftRng| v + rng.next_u32());

    for _ in 0..16 {
        let value = input.new_value(&mut runner).unwrap();
        assert_eq!(value.current(), value.current());
    }
}

#[test]
fn perturb_uses_varying_random_seeds() {
    let mut runner = TestRunner::default();
    let input = Perturb::new(Just(1u32), |v: u32, mut rng: XorShiftRng| v + rng.next_u32());

    let mut seen = HashSet::new();
    for _ in 0..64 {
        seen.insert(input.new_value(&mut runner).unwrap().current());
    }

    assert_eq!(64, seen.len());
}

#[test]
fn map_shrinks_through_source() {
    let input = Mapped::new(U32Range::new(0, 100), |v: u32| v + 1000);
    let mut runner = TestRunner::from_seed(11);
    let mut t = input.new_value(&mut runner).unwrap();
    let first = t.current();
    assert!((1000..1100).contains(&first));
    while t.simplify() {}
    assert_eq!(t.current(), 1000);
}

#[test]
fn map_complicate_restores_previous_value() {
    let input = Mapped::new(U32Range::new(0, 1000), |v: u32| v * 3);
    let mut runner = TestRunner::from_seed(12);
    let mut t = input.new_value(&mut runner).unwrap();
    assert!(!t.complicate());
    let a = t.current();
    if t.simplify() {
        assert!(t.current() < a);
        assert!(t.complicate());
        assert_eq!(t.current(), a);
    }
}

#[test]
fn perturb_shrinks_source_with_fixed_stream() {
    let input = Perturb::new(U32Range::new(0, 100), |v: u32, mut rng: XorShiftRng| (v, rng.next_u32()));
    let mut runner = TestRunner::from_seed(13);
    let mut t = input.new_value(&mut runner).unwrap();
    let (_, noise) = t.current();
    while t.simplify() {
        assert_eq!(t.current().1, noise);
    }
    assert_eq!(t.current(), (0, noise));
}

#[test]
fn runner_from_seed_is_reproducible() {
    let input = U32Range::new(0, 1_000_000);
    let mut a = TestRunner::from_seed(42);
    let mut b = TestRunner::from_seed(42);
    for _ in 0..8 {
        assert_eq!(
            input.new_value(&mut a).unwrap().current(),
            input.new_value(&mut b).unwrap().current()
        );
    }
    let mut r = TestRunner::new();
    let s = r.sample_size(3, 4);
    assert_eq!(s, 3);
}
