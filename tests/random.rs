use testgen::random::Random;

#[test]
fn test_next_to_be_deterministic() {
    assert_eq!(Random::new(0).next::<i32>(), -852725889);
    assert_eq!(Random::new(0).next::<u32>(), 3442241407);
    assert_eq!(Random::new(0).next::<f32>(), 0.80145925);
    assert_eq!(Random::new(0).next::<f64>(), 0.7311134158637046);
    assert_eq!(Random::new(0).next::<bool>(), true);
    assert_eq!(Random::new(0).next::<char>(), '\u{da18a}');
}

#[test]
fn test_next_returns_random_number() {
    let mut rnd = Random::new(0);
    assert_ne!(rnd.next::<i32>(), rnd.next::<i32>());
}

#[test]
fn test_next_range_returns_number_within_range() {
    assert!(Random::new(0).next_range(0, 1) <= 1);
    assert!(Random::new(0).next_range(0, 1) >= 0);
}

#[test]
fn test_next_string_returns_correct_length() {
    assert_eq!(Random::new(0).next_string(0).len(), 0);
    assert_eq!(Random::new(0).next_string(1).len(), 1);
    assert_eq!(Random::new(0).next_string(2).len(), 2);
}

#[test]
fn test_next_string_returns_random_string() {
    let mut rnd = Random::new(0);
    let s1 = rnd.next_string(10);
    let s2 = rnd.next_string(10);
    assert_ne!(s1, s2);
}

fn draws(seed: u64) -> (Vec<i64>, String, u64, Vec<i64>) {
    let mut rnd = Random::new(seed);
    let first: Vec<i64> = (0..5).map(|_| rnd.next_range(-100, 100)).collect();
    let text = rnd.next_string(12);
    let raw = rnd.next::<u64>();
    let last: Vec<i64> = (0..5).map(|_| rnd.next_range(1, 1_000_000)).collect();
    (first, text, raw, last)
}

#[test]
fn same_seed_gives_same_draws() {
    assert_eq!(draws(42), draws(42));
    assert_eq!(draws(0), draws(0));
}

#[test]
fn different_seeds_give_different_draws() {
    assert_ne!(draws(1), draws(2));
}

#[test]
fn range_draws_stay_inside_bounds() {
    let mut rnd = Random::new(7);
    for _ in 0..200 {
        let v = rnd.next_range(-3, 3);
        assert!((-3..=3).contains(&v));
    }
    assert_eq!(rnd.next_range(5, 5), 5);
    let v = rnd.next_range(i64::MIN, i64::MAX);
    assert!(v >= i64::MIN);
}

#[test]
fn strings_are_alphanumeric() {
    let s = Random::new(3).next_string(300);
    assert_eq!(s.chars().count(), 300);
    assert!(s.chars().all(|c| c.is_ascii_alphanumeric()));
}
