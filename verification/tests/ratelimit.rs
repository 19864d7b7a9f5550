use wordlens::ratelimit::{RateLimiter, WindowState, NANOS_PER_SEC};
use wordlens::{RATE_LIMIT_REQUESTS, RATE_LIMIT_WINDOW_SECS};

fn fresh(limit: u64, secs: u64) -> WindowState {
    WindowState { count: 0, window_end: secs * NANOS_PER_SEC, limit, window: secs * NANOS_PER_SEC }
}

#[test]
fn rate_limit_triggers_429() {
    let mut tight = RateLimiter::new(2, 60);
    assert_eq!(tight.check(), Ok(()));
    assert_eq!(tight.check(), Ok(()));
    let refused = tight.check();
    assert!(matches!(refused, Err(w) if (1..=60).contains(&w)));
}

#[test]
fn default_limiter_admits_its_quota() {
    let mut l = RateLimiter::new(RATE_LIMIT_REQUESTS, RATE_LIMIT_WINDOW_SECS);
    for _ in 0..RATE_LIMIT_REQUESTS {
        assert_eq!(l.check(), Ok(()));
    }
    assert!(l.check().is_err());
    assert_eq!(l.state().count, RATE_LIMIT_REQUESTS + 1);
}

#[test]
fn new_limiter_state() {
    let l = RateLimiter::new(5, 60);
    assert_eq!(l.state(), fresh(5, 60));
    let huge = RateLimiter::new(1, u64::MAX);
    assert_eq!(huge.state().window, u64::MAX);
}

#[test]
fn window_grants_limit_then_refuses() {
    let mut s = fresh(2, 60);
    assert_eq!(s.record(1), Ok(()));
    assert_eq!(s.record(2), Ok(()));
    // 60 s window ends at 60e9 ns; at 10.5 s, 49.5 s remain -> 49 whole seconds.
    assert_eq!(s.record(10 * NANOS_PER_SEC + NANOS_PER_SEC / 2), Err(49));
    assert_eq!(s.count, 3);
    assert_eq!(s.record(59 * NANOS_PER_SEC + 1), Err(1));
}

#[test]
fn late_request_opens_new_window() {
    let mut s = fresh(1, 60);
    assert_eq!(s.record(0), Ok(()));
    assert!(s.record(1).is_err());
    let t = 60 * NANOS_PER_SEC;
    assert_eq!(s.record(t), Ok(()));
    assert_eq!(s.count, 1);
    assert_eq!(s.window_end, 120 * NANOS_PER_SEC);
}

#[test]
fn zero_limit_refuses_everything() {
    let mut s = fresh(0, 60);
    assert_eq!(s.record(0), Err(60));
    assert_eq!(s.record(70 * NANOS_PER_SEC), Err(60));
}

#[test]
fn window_end_saturates() {
    let mut s = WindowState { count: 0, window_end: 0, limit: 3, window: u64::MAX };
    assert_eq!(s.record(5), Ok(()));
    assert_eq!(s.window_end, u64::MAX);
}

#[test]
fn sub_second_window() {
    let mut l = RateLimiter::with_window_nanos(1, 500_000_000);
    assert_eq!(l.state().window, 500_000_000);
    assert_eq!(l.check(), Ok(()));
    assert_eq!(l.check(), Err(1));
}

#[test]
fn per_call_answers_in_one_window() {
    let mut s = fresh(3, 10);
    let times = [0, NANOS_PER_SEC, 2 * NANOS_PER_SEC, 3 * NANOS_PER_SEC, 9 * NANOS_PER_SEC + 1];
    let answers: Vec<_> = times.iter().map(|t| s.record(*t)).collect();
    assert_eq!(answers, vec![Ok(()), Ok(()), Ok(()), Err(7), Err(1)]);
}

#[test]
fn refused_wait_never_exceeds_window() {
    let mut l = RateLimiter::new(1, 2);
    assert_eq!(l.check(), Ok(()));
    for _ in 0..5 {
        match l.check() {
            Err(w) => assert!((1..=2).contains(&w)),
            Ok(()) => {}
        }
    }
}
