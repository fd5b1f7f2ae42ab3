use thegarii::client::{Client, RetryStep};
use thegarii::Error;

fn client(n: usize, retry: u8) -> Client {
    let endpoints = (0..n).map(|i| format!("https://node{}.example", i)).collect();
    Client::new(endpoints, 1000, retry).unwrap()
}

#[test]
fn empty_endpoints_are_refused() {
    assert!(matches!(Client::new(vec![], 1000, 1), Err(Error::EmptyEndpoints)));
}

#[test]
fn next_endpoint_is_first_untried() {
    let c = client(3, 0);
    assert_eq!(c.next_endpoint(&vec![false, false, false]), 0);
    assert_eq!(c.next_endpoint(&vec![true, false, false]), 1);
    assert_eq!(c.next_endpoint(&vec![true, true, false]), 2);
    assert_eq!(c.next_endpoint(&vec![false, true, false]), 0);
}

#[test]
fn next_endpoint_when_all_tried_is_one_of_them() {
    let c = client(3, 0);
    for _ in 0..50 {
        assert!(c.next_endpoint(&vec![true, true, true]) < 3);
    }
}

#[test]
fn rotation_on_failure_without_sleep() {
    let c = client(2, 3);
    let mut r = c.start_request();
    assert_eq!(r.endpoint(), 0);
    // the first endpoint answers 503: the second is asked at once
    assert_eq!(c.on_failure(&mut r), RetryStep::Next(1));
    assert_eq!(r.endpoint(), 1);
}

#[test]
fn retry_exhaustion_single_endpoint() {
    let c = client(1, 2);
    let mut r = c.start_request();
    let mut attempts = 1;
    let mut sleeps = vec![];
    loop {
        match c.on_failure(&mut r) {
            RetryStep::Next(_) => attempts += 1,
            RetryStep::Backoff(ms) => {
                sleeps.push(ms);
                attempts += 1;
            }
            step @ RetryStep::Exhausted => {
                assert_eq!(Client::step_error(&step), Some(Error::RetriesReached));
                break;
            }
        }
    }
    assert_eq!(attempts, 3);
    assert_eq!(sleeps, vec![10_000, 20_000]);
}

#[test]
fn attempts_are_endpoints_times_cycles() {
    for (n, retry) in [(1usize, 0u8), (2, 0), (3, 1), (4, 3)] {
        let c = client(n, retry);
        let mut r = c.start_request();
        let mut asked = vec![r.endpoint()];
        loop {
            match c.on_failure(&mut r) {
                RetryStep::Exhausted => break,
                _ => asked.push(r.endpoint()),
            }
        }
        assert_eq!(asked.len(), n * (retry as usize + 1));
        // every cycle asks each endpoint once, in rotation order
        for (i, e) in asked.iter().enumerate() {
            assert_eq!(*e, i % n);
        }
    }
}

#[test]
fn step_error_only_on_exhaustion() {
    assert_eq!(Client::step_error(&RetryStep::Next(1)), None);
    assert_eq!(Client::step_error(&RetryStep::Backoff(10)), None);
}

#[test]
fn each_cycle_starts_at_the_first_endpoint() {
    let c = client(2, 1);
    let mut r = c.start_request();
    assert_eq!(r.endpoint(), 0);
    assert_eq!(c.on_failure(&mut r), RetryStep::Next(1));
    assert_eq!(c.on_failure(&mut r), RetryStep::Backoff(10_000));
    assert_eq!(r.endpoint(), 0);
}
