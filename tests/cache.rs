use foundation_api::cache::{Cache, Lookup};

fn is_fetch<T>(l: &Lookup<T>) -> bool {
    matches!(l, Lookup::Fetch)
}

fn is_wait<T>(l: &Lookup<T>) -> bool {
    matches!(l, Lookup::Wait)
}

fn cached<T: Clone>(l: &Lookup<T>) -> Option<T> {
    match l {
        Lookup::Cached(v) => Some((**v).clone()),
        _ => None,
    }
}

#[test]
fn only_one_fetch_is_in_flight() {
    let mut c: Cache<u32> = Cache::new(100);
    assert!(is_fetch(&c.get(0)));
    for t in 1..10 {
        assert!(is_wait(&c.get(t)));
    }
    c.complete(10, Some(7));
    assert_eq!(cached(&c.get(11)), Some(7));
}

#[test]
fn fresh_value_is_served_until_it_expires() {
    let mut c: Cache<u32> = Cache::new(100);
    assert!(is_fetch(&c.get(0)));
    c.complete(5, Some(1));
    assert_eq!(cached(&c.get(105)), Some(1));
    assert!(is_fetch(&c.get(106)));
    assert!(is_wait(&c.get(107)));
    c.complete(110, Some(2));
    assert_eq!(cached(&c.get(111)), Some(2));
}

#[test]
fn failed_fetch_keeps_the_previous_value() {
    let mut c: Cache<u32> = Cache::new(100);
    assert!(is_fetch(&c.get(0)));
    c.complete(0, Some(3));
    assert!(is_fetch(&c.get(200)));
    c.complete(201, None);
    assert_eq!(c.peek().map(|v| *v), Some(3));
    assert!(is_fetch(&c.get(202)));
}

#[test]
fn stale_value_is_still_served_during_a_fetch_only_when_fresh() {
    let mut c: Cache<u32> = Cache::new(100);
    assert!(c.peek().is_none());
    assert!(c.begin_refresh());
    assert!(!c.begin_refresh());
    c.complete(0, Some(4));
    assert!(is_fetch(&c.get(50)) == false);
    assert_eq!(cached(&c.get(50)), Some(4));
}

#[test]
fn expiry_saturates_at_the_end_of_time() {
    let mut c: Cache<u32> = Cache::new(100);
    assert!(is_fetch(&c.get(i128::MAX - 1)));
    c.complete(i128::MAX - 1, Some(9));
    assert_eq!(cached(&c.get(i128::MAX)), Some(9));
}

#[test]
fn two_requests_for_an_expired_window_fetch_once() {
    let mut c: Cache<&str> = Cache::new(600);
    assert!(is_fetch(&c.get(0)));
    c.complete(0, Some("old"));
    // Both requests arrive after the value expired: one fetches, the other waits.
    let first = c.get(1_000);
    let second = c.get(1_000);
    assert!(is_fetch(&first));
    assert!(is_wait(&second));
    c.complete(1_001, Some("new"));
    // The waiting request looks again and is served the new value.
    assert_eq!(cached(&c.get(1_002)), Some("new"));
}
