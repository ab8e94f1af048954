use extracteroid::rng::{weighted_random_vec, Rng};

#[test]
fn rng_seed_zero_behaves_as_seed_one() {
    let mut a = Rng::new(0);
    let mut b = Rng::new(1);
    for _ in 0..10 {
        assert_eq!(a.next_u32(), b.next_u32());
    }
}

#[test]
fn rng_next_u32_follows_xorshift32() {
    let mut r = Rng::new(1);
    assert_eq!(r.next_u32(), 270369);
    assert_eq!(r.next_u32(), 67634689);
    assert_eq!(r.next_u32(), 2647435461);
}

#[test]
fn rng_never_reaches_zero() {
    let mut r = Rng::new(0xdead_beef);
    for _ in 0..10_000 {
        assert_ne!(r.next_u32(), 0);
    }
}

#[test]
fn rng_same_seed_same_sequence() {
    let mut a = Rng::new(2024);
    let mut b = Rng::new(2024);
    for _ in 0..100 {
        assert_eq!(a.gen_range_i32(-50, 50), b.gen_range_i32(-50, 50));
    }
}

#[test]
fn gen_range_i32_exact_value_and_state() {
    let mut r = Rng::new(42);
    assert_eq!(r.gen_range_i32(10, 20), 12);
    // one draw was made: the next raw value follows the state 11355432
    assert_eq!(r.next_u32(), 2836018348);
}

#[test]
fn gen_range_i32_empty_range_returns_min_without_drawing() {
    let mut r = Rng::new(42);
    assert_eq!(r.gen_range_i32(5, 5), 5);
    assert_eq!(r.gen_range_i32(9, 3), 9);
    let mut fresh = Rng::new(42);
    assert_eq!(r.next_u32(), fresh.next_u32());
}

#[test]
fn gen_range_i32_stays_in_range_with_negative_bounds() {
    let mut r = Rng::new(777);
    for _ in 0..1000 {
        let v = r.gen_range_i32(-100, -90);
        assert!((-100..-90).contains(&v));
    }
    for _ in 0..1000 {
        let v = r.gen_range_i32(i32::MIN / 2, i32::MAX / 2);
        assert!(v >= i32::MIN / 2 && v < i32::MAX / 2);
    }
}

#[test]
fn gen_range_u32_exact_values() {
    let mut r = Rng::new(99);
    let got: Vec<u32> = (0..5).map(|_| r.gen_range_u32(5, 9)).collect();
    assert_eq!(got, vec![6, 6, 8, 5, 8]);
}

#[test]
fn gen_range_u32_empty_range_returns_min() {
    let mut r = Rng::new(3);
    assert_eq!(r.gen_range_u32(7, 7), 7);
    assert_eq!(r.gen_range_u32(8, 1), 8);
}

#[test]
fn weighted_random_vec_empty_is_none() {
    let mut r = Rng::new(7);
    assert_eq!(weighted_random_vec(&[], &mut r), None);
    let mut fresh = Rng::new(7);
    assert_eq!(r.next_u32(), fresh.next_u32());
}

#[test]
fn weighted_random_vec_exact_pick() {
    let mut r = Rng::new(7);
    assert_eq!(weighted_random_vec(&[1, 2, 3, 4], &mut r), Some(2));
    assert_eq!(r.next_u32(), 470389255);
}

#[test]
fn weighted_random_vec_all_zero_weights_picks_uniformly() {
    let mut r = Rng::new(7);
    assert_eq!(weighted_random_vec(&[0, 0, 0], &mut r), Some(0));
    let mut r = Rng::new(11);
    for _ in 0..100 {
        let k = weighted_random_vec(&[0, 0, 0], &mut r).unwrap();
        assert!(k < 3);
    }
}

#[test]
fn weighted_random_vec_never_picks_zero_weight() {
    let mut r = Rng::new(31337);
    for _ in 0..2000 {
        let k = weighted_random_vec(&[0, 5, 0, 1, 0], &mut r).unwrap();
        assert!(k == 1 || k == 3);
    }
}

#[test]
fn weighted_random_vec_single_positive_weight_is_certain() {
    let mut r = Rng::new(5);
    for _ in 0..100 {
        assert_eq!(weighted_random_vec(&[0, 0, 9, 0], &mut r), Some(2));
    }
}
