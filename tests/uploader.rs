use cdn_publish::uploader::{Attempt, Concurrent, Retry, Step, Uploader};

#[test]
fn all_succeed_within_budget() {
    let mut u = Uploader::new(5, 2, 3);
    let mut running: Vec<usize> = vec![];
    let mut done = 0;
    loop {
        match u.poll() {
            Step::Start(i) => {
                running.push(i);
                assert!(running.len() <= 2);
            }
            Step::Wait => {
                let i = running.remove(0);
                assert_eq!(u.report(i, true), Attempt::Done);
                done += 1;
            }
            Step::Finished => break,
            Step::Aborted(_) => panic!("nothing failed"),
        }
    }
    assert_eq!(done, 5);
}

#[test]
fn zero_budget_means_no_limit() {
    let mut u = Uploader::new(4, 0, 0);
    for k in 0..4 {
        assert_eq!(u.poll(), Step::Start(k));
    }
    assert_eq!(u.poll(), Step::Wait);
}

#[test]
fn retries_then_exhaustion_aborts_batch() {
    let mut u = Uploader::new(3, 1, 2);
    assert_eq!(u.poll(), Step::Start(0));
    assert_eq!(u.poll(), Step::Wait);
    assert_eq!(u.report(0, false), Attempt::Retry);
    assert_eq!(u.report(0, false), Attempt::Retry);
    assert_eq!(u.report(0, false), Attempt::Exhausted);
    assert_eq!(u.poll(), Step::Aborted(0));
    assert_eq!(u.poll(), Step::Aborted(0));
    assert!(!u.is_running(1));
}

#[test]
fn retry_that_succeeds_keeps_going() {
    let mut u = Uploader::new(2, 1, 1);
    assert_eq!(u.poll(), Step::Start(0));
    assert_eq!(u.report(0, false), Attempt::Retry);
    assert!(u.is_running(0));
    assert_eq!(u.report(0, true), Attempt::Done);
    assert_eq!(u.poll(), Step::Start(1));
    assert_eq!(u.report(1, true), Attempt::Done);
    assert_eq!(u.poll(), Step::Finished);
}

#[test]
fn failure_with_others_in_flight_stops_dispatch() {
    let mut u = Uploader::new(4, 2, 0);
    assert_eq!(u.poll(), Step::Start(0));
    assert_eq!(u.poll(), Step::Start(1));
    assert_eq!(u.report(1, false), Attempt::Exhausted);
    assert_eq!(u.poll(), Step::Aborted(1));
    assert!(u.is_running(0));
    assert!(!u.is_running(2));
}

#[test]
fn empty_batch_finishes_at_once() {
    let mut u = Uploader::new(0, 20, 3);
    assert_eq!(u.poll(), Step::Finished);
}

#[test]
fn default_budget_and_retry_policy() {
    let r = Retry::default();
    assert_eq!((r.attempts, r.millis), (3, 1000));
    assert_eq!(Concurrent::default().parallel, 20);
    let mut u = Uploader::with_config(1, &Concurrent::default(), &r);
    assert_eq!(u.poll(), Step::Start(0));
    for _ in 0..3 {
        assert_eq!(u.report(0, false), Attempt::Retry);
    }
    assert_eq!(u.report(0, false), Attempt::Exhausted);
    assert_eq!(u.poll(), Step::Aborted(0));
}

#[test]
fn budget_never_exceeded_with_retries() {
    let mut u = Uploader::new(6, 3, 1);
    let mut running: Vec<usize> = vec![];
    let mut failed_once: Vec<usize> = vec![];
    loop {
        match u.poll() {
            Step::Start(i) => {
                running.push(i);
                assert!(running.len() <= 3);
            }
            Step::Wait => {
                let i = running[0];
                if !failed_once.contains(&i) {
                    failed_once.push(i);
                    assert_eq!(u.report(i, false), Attempt::Retry);
                } else {
                    running.remove(0);
                    assert_eq!(u.report(i, true), Attempt::Done);
                }
            }
            Step::Finished => break,
            Step::Aborted(_) => panic!("every resource succeeds on its second attempt"),
        }
    }
    assert_eq!(failed_once.len(), 6);
}
