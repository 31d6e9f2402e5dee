use state_iter::examples::FiniteCounterFn;
use state_iter::examples::InfiniteCounterFn;
use state_iter::examples::new_finite_counter;
use state_iter::examples::new_infinite_counter;
use state_iter::examples::new_marquee;
use state_iter::StateIter;
use std::collections::VecDeque;

#[test]
fn infinite_counter() {
    let mut iter = new_infinite_counter();
    let v = iter.pull_up_to(5);
    assert_eq!(v, vec![0, 1, 2, 3, 4]);
}

#[test]
fn finite_counter() {
    let mut iter = new_finite_counter(3);
    let mut v: Vec<i32> = Vec::new();
    while let Some(x) = iter.pull() {
        v.push(x);
    }
    assert_eq!(v, vec![0, 1, 2, 3]);
}

#[test]
fn marquee() {
    let mut iter = new_marquee(VecDeque::from(vec![0, 1, 2]));
    let v = iter.pull_up_to(4);
    assert_eq!(v.len(), 4);
    assert_eq!(v[0], vec![0, 1, 2]);
    assert_eq!(v[1], vec![2, 0, 1]);
    assert_eq!(v[2], vec![1, 2, 0]);
    assert_eq!(v[3], vec![0, 1, 2]);
}

#[test]
fn finite_counter_limit_zero() {
    let mut iter = new_finite_counter(0);
    assert_eq!(iter.pull(), Some(0));
    assert_eq!(iter.pull(), None);
}

#[test]
fn finite_counter_negative_limit() {
    let mut iter = new_finite_counter(-2);
    assert_eq!(iter.pull(), Some(0));
    assert_eq!(iter.pull(), None);
}

#[test]
fn determinism_full_consumption() {
    let mut first = new_finite_counter(7);
    let mut second = new_finite_counter(7);
    let mut a: Vec<i32> = Vec::new();
    let mut b: Vec<i32> = Vec::new();
    while let Some(x) = first.pull() {
        a.push(x);
    }
    while let Some(x) = second.pull() {
        b.push(x);
    }
    assert_eq!(a, b);
    assert_eq!(a, vec![0, 1, 2, 3, 4, 5, 6, 7]);
}

#[test]
fn absorbing_termination() {
    let mut iter = new_finite_counter(1);
    assert_eq!(iter.pull(), Some(0));
    assert_eq!(iter.pull(), Some(1));
    for _ in 0..10 {
        assert_eq!(iter.pull(), None);
    }
}

#[test]
fn laziness_first_pull() {
    // Construction applies no transition: the first pull still emits the item
    // computed from the untouched initial state.
    let mut iter = StateIter::new(41, InfiniteCounterFn {});
    assert_eq!(iter.pull(), Some(41));
    assert_eq!(iter.pull(), Some(42));
}

#[test]
fn counter_from_custom_start() {
    let mut iter = StateIter::new((5, 6), FiniteCounterFn {});
    assert_eq!(iter.pull(), Some(5));
    assert_eq!(iter.pull(), Some(6));
    assert_eq!(iter.pull(), None);
}

#[test]
fn infinite_counter_wraps() {
    let mut iter = StateIter::new(i32::MAX, InfiniteCounterFn {});
    assert_eq!(iter.pull(), Some(i32::MAX));
    assert_eq!(iter.pull(), Some(i32::MIN));
}

#[test]
fn pull_up_to_stops_at_termination() {
    let mut iter = new_finite_counter(3);
    let v = iter.pull_up_to(10);
    assert_eq!(v, vec![0, 1, 2, 3]);
    assert_eq!(iter.pull(), None);
}

#[test]
fn marquee_empty() {
    let mut iter = new_marquee(VecDeque::<i32>::new());
    let first = iter.pull().unwrap();
    assert!(first.is_empty());
    let second = iter.pull().unwrap();
    assert!(second.is_empty());
}

#[test]
fn marquee_snapshots_are_independent() {
    let mut iter = new_marquee(VecDeque::from(vec![9, 8]));
    let first = iter.pull().unwrap();
    let second = iter.pull().unwrap();
    // The first snapshot is unchanged by the rotation that produced the second.
    assert_eq!(first, vec![9, 8]);
    assert_eq!(second, vec![8, 9]);
    let third = iter.pull().unwrap();
    assert_eq!(first, vec![9, 8]);
    assert_eq!(second, vec![8, 9]);
    assert_eq!(third, vec![9, 8]);
}
