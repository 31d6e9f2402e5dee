//! Example sequences built on the transition-driven generator: a counter that
//! never stops, a counter that stops at a limit, and a rotating marquee. Each
//! is just an initial state and a transition rule handed to [`StateIter::new`].

use vstd::prelude::*;

use crate::StateIter;
use crate::Transition;
use std::collections::VecDeque;

verus! {

/// The rule of the infinite counter: emits the current count and increments
/// it, wrapping around at the largest value; it never terminates.
pub struct InfiniteCounterFn {}

impl Transition for InfiniteCounterFn {
    type State = i32;

    type Item = i32;

    open spec fn next_state(&self, x: i32) -> Option<i32> {
        Some(
            if x == i32::MAX {
                i32::MIN
            } else {
                (x + 1) as i32
            },
        )
    }

    open spec fn output(&self, x: i32) -> i32 {
        x
    }

    fn apply(&self, x: i32) -> (r: (Option<i32>, i32)) {
        if x == i32::MAX {
            (Some(i32::MIN), x)
        } else {
            (Some(x + 1), x)
        }
    }
}

/// Creates the counter that emits `0, 1, 2, ...` and never terminates.
pub fn new_infinite_counter() -> (r: StateIter<InfiniteCounterFn>)
    ensures
        r.state_spec() == Some(0i32),
        r.rule_spec() == (InfiniteCounterFn {}),
{
    StateIter::new(0, InfiniteCounterFn {})
}

/// The rule of the finite counter: the state is the pair (current, limit); it
/// emits the current count, and terminates right after emitting the first
/// count that reaches or exceeds the limit.
pub struct FiniteCounterFn {}

impl Transition for FiniteCounterFn {
    type State = (i32, i32);

    type Item = i32;

    open spec fn next_state(&self, s: (i32, i32)) -> Option<(i32, i32)> {
        if s.0 >= s.1 {
            None
        } else {
            Some((((s.0 + 1) as i32, s.1)))
        }
    }

    open spec fn output(&self, s: (i32, i32)) -> i32 {
        s.0
    }

    fn apply(&self, s: (i32, i32)) -> (r: (Option<(i32, i32)>, i32)) {
        let (x, last) = s;
        if x >= last {
            (None, x)
        } else {
            (Some((x + 1, last)), x)
        }
    }
}

/// Creates the counter that emits `0, 1, ..., last` and then terminates; with
/// a limit of at most `0` it still emits `0` once before terminating.
pub fn new_finite_counter(last: i32) -> (r: StateIter<FiniteCounterFn>)
    ensures
        r.state_spec() == Some((0i32, last)),
        r.rule_spec() == (FiniteCounterFn {}),
{
    StateIter::new((0, last), FiniteCounterFn {})
}

/// The abstract one-step rotation of the marquee buffer: the last element
/// moves to the front; an empty buffer stays empty.
pub open spec fn rotated<T>(s: Seq<T>) -> Seq<T> {
    if s.len() == 0 {
        s
    } else {
        seq![s.last()] + s.drop_last()
    }
}

/// The rule of the marquee rotator: emits a snapshot of the buffer, then
/// rotates the buffer by moving its last element to the front; it never
/// terminates. Each emitted snapshot is a buffer of its own, independent of
/// later rotation of the retained state.
pub struct MarqueeFn<T> {
    /// Marks the element type; the rule itself holds no data.
    pub _elems: core::marker::PhantomData<T>,
}

/// Copies the buffer element by element into a fresh buffer.
fn snapshot<T: Copy>(xs: &VecDeque<T>) -> (r: VecDeque<T>)
    ensures
        r@ == xs@,
{
    let mut r: VecDeque<T> = VecDeque::new();
    let mut i: usize = 0;
    while i < xs.len()
        invariant
            i <= xs@.len(),
            r@ == xs@.subrange(0, i as int),
        decreases xs@.len() - i,
    {
        r.push_back(xs[i]);
        proof {
            assert(xs@.subrange(0, i as int).push(xs@[i as int]) =~= xs@.subrange(
                0,
                (i as int) + 1,
            ));
        }
        i = i + 1;
    }
    proof {
        assert(xs@.subrange(0, xs@.len() as int) =~= xs@);
    }
    r
}

impl<T: Copy> Transition for MarqueeFn<T> {
    type State = VecDeque<T>;

    type Item = VecDeque<T>;

    open spec fn next_state(&self, s: Seq<T>) -> Option<Seq<T>> {
        Some(rotated(s))
    }

    open spec fn output(&self, s: Seq<T>) -> Seq<T> {
        s
    }

    fn apply(&self, s: VecDeque<T>) -> (r: (Option<VecDeque<T>>, VecDeque<T>)) {
        let mut xs = s;
        let ys = snapshot(&xs);
        match xs.pop_back() {
            Some(x) => {
                xs.push_front(x);
                proof {
                    assert(xs@ =~= rotated(s@));
                }
            },
            None => {
                proof {
                    assert(xs@ =~= rotated(s@));
                }
            },
        }
        (Some(xs), ys)
    }
}

/// Creates the marquee rotator over the given buffer: each pull yields a
/// snapshot of the buffer, which is then rotated by moving its last element
/// to the front; with a buffer of `n` elements the snapshots repeat with
/// period `n`.
pub fn new_marquee<T: Copy>(start: VecDeque<T>) -> (r: StateIter<MarqueeFn<T>>)
    ensures
        r.state_spec() == Some(start@),
        r.rule_spec() == (MarqueeFn::<T> { _elems: core::marker::PhantomData }),
{
    StateIter::new(start, MarqueeFn { _elems: core::marker::PhantomData })
}

} // verus!
