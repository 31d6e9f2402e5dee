//! A lazily-evaluated sequence driven by an explicit state-transition rule.
//!
//! A [`StateIter`] owns a state slot and a transition rule. Each [`StateIter::pull`]
//! takes the current state out of the slot, applies the rule to it, stores the
//! returned next state (or none, meaning the sequence has terminated), and hands
//! back the item the rule produced. A terminated sequence stays terminated: no
//! later pull applies the rule again.

use vstd::prelude::*;

pub mod examples;

verus! {

/// The abstract value of a transition rule's state type.
pub type StateViewOf<F> = <<F as Transition>::State as View>::V;

/// The abstract value of a transition rule's item type.
pub type ItemViewOf<F> = <<F as Transition>::Item as View>::V;

/// A state-transition rule: from an owned current state it computes the next
/// state (or `None`, which terminates the sequence after this step) together
/// with the item to emit for the current step.
///
/// The rule is pure: what `apply` returns is fixed, at the level of abstract
/// values, by the spec functions `next_state` and `output` of the rule value
/// and the state alone, and `apply` must not panic on any state.
pub trait Transition: Sized {
    /// The state the rule advances.
    type State: View;

    /// The item the rule emits on each step.
    type Item: View;

    /// The state after a state with abstract value `s`, or `None` to terminate
    /// once the item for `s` has been emitted.
    spec fn next_state(&self, s: StateViewOf<Self>) -> Option<StateViewOf<Self>>;

    /// The item emitted for the step taken from a state with abstract value `s`.
    spec fn output(&self, s: StateViewOf<Self>) -> ItemViewOf<Self>;

    /// Performs one step from the owned state `s`.
    fn apply(&self, s: Self::State) -> (r: (Option<Self::State>, Self::Item))
        ensures
            slot_view(r.0) == self.next_state(s@),
            r.1@ == self.output(s@),
    ;
}

/// The abstract value of a state slot: the held value's view, if one is held.
pub open spec fn slot_view<S: View>(st: Option<S>) -> Option<S::V> {
    match st {
        None => None,
        Some(s) => Some(s@),
    }
}

/// A transition-driven sequence: a single-pass cursor that produces one item
/// per [`StateIter::pull`] until its rule terminates it.
pub struct StateIter<F: Transition> {
    /// The current state; `None` once the sequence has terminated.
    state: Option<F::State>,
    /// The rule that advances the state.
    transition: F,
}

/// One abstract pull on a state slot: the new slot contents and the produced
/// item, if any. An empty slot stays empty and produces nothing; a full slot
/// is advanced by the rule, which always produces an item, even on the step
/// that terminates the sequence.
pub open spec fn step<F: Transition>(f: F, st: Option<StateViewOf<F>>) -> (
    Option<StateViewOf<F>>,
    Option<ItemViewOf<F>>,
) {
    match st {
        None => (None, None),
        Some(s) => (f.next_state(s), Some(f.output(s))),
    }
}

/// The state slot after `n` pulls that started from the slot `st`.
pub open spec fn state_after<F: Transition>(f: F, st: Option<StateViewOf<F>>, n: nat) -> Option<
    StateViewOf<F>,
>
    decreases n,
{
    if n == 0 {
        st
    } else {
        step(f, state_after(f, st, (n - 1) as nat)).0
    }
}

/// The results of the first `n` pulls that started from the slot `st`, in
/// order: `Some` item for each productive pull, `None` for each pull on the
/// terminated sequence.
pub open spec fn outputs<F: Transition>(f: F, st: Option<StateViewOf<F>>, n: nat) -> Seq<
    Option<ItemViewOf<F>>,
>
    decreases n,
{
    if n == 0 {
        Seq::empty()
    } else {
        outputs(f, st, (n - 1) as nat).push(step(f, state_after(f, st, (n - 1) as nat)).1)
    }
}

/// The first `n` pulls give exactly `n` results.
pub proof fn lemma_outputs_len<F: Transition>(f: F, st: Option<StateViewOf<F>>, n: nat)
    ensures
        outputs(f, st, n).len() == n,
    decreases n,
{
    if n > 0 {
        lemma_outputs_len(f, st, (n - 1) as nat);
    }
}

/// Each of the first `n` results is the output of the step taken from the
/// state that the pulls before it reached.
pub proof fn lemma_outputs_index<F: Transition>(
    f: F,
    st: Option<StateViewOf<F>>,
    n: nat,
    i: int,
)
    requires
        0 <= i < n,
    ensures
        outputs(f, st, n)[i] == step(f, state_after(f, st, i as nat)).1,
    decreases n,
{
    lemma_outputs_len(f, st, (n - 1) as nat);
    if i < n - 1 {
        lemma_outputs_index(f, st, (n - 1) as nat, i);
    }
}

/// Determinism: the results of any number of pulls are fixed by the initial
/// state and the transition rule alone, so two sequences created from equal
/// arguments produce identical output sequences.
pub proof fn lemma_deterministic<F: Transition>(a: StateIter<F>, b: StateIter<F>, n: nat)
    requires
        a.rule_spec() == b.rule_spec(),
        a.state_spec() == b.state_spec(),
    ensures
        outputs(a.rule_spec(), a.state_spec(), n) == outputs(b.rule_spec(), b.state_spec(), n),
{
}

/// Absorbing termination: once a pull produces no item, the state slot is and
/// stays empty, so every later pull produces no item either — and, since only
/// a present state is ever handed to the rule, the rule is never applied again.
pub proof fn lemma_absorbing_termination<F: Transition>(f: F, st: Option<StateViewOf<F>>, n: nat)
    requires
        step(f, st).1 is None,
    ensures
        state_after(f, st, n) is None,
        step(f, state_after(f, st, n)).1 is None,
        forall|i: int| 0 <= i < n ==> outputs(f, st, n)[i] is None,
    decreases n,
{
    if n > 0 {
        lemma_absorbing_termination(f, st, (n - 1) as nat);
        lemma_outputs_len(f, st, (n - 1) as nat);
        assert forall|i: int| 0 <= i < n implies outputs(f, st, n)[i] is None by {
            if i < n - 1 {
                assert(outputs(f, st, n)[i] == outputs(f, st, (n - 1) as nat)[i]);
            }
        }
    }
}

/// Emit-then-terminate: a step whose rule returns no next state still emits
/// its item on the current pull; only the following pull reports termination.
pub proof fn lemma_emit_then_terminate<F: Transition>(f: F, s: StateViewOf<F>)
    requires
        f.next_state(s) is None,
    ensures
        step(f, Some(s)).1 == Some(f.output(s)),
        step(f, step(f, Some(s)).0).1 is None,
{
}

/// Laziness at creation: a freshly created sequence still holds the initial
/// state untouched, so its first pull emits the item computed from the initial
/// state itself.
pub proof fn lemma_first_pull_from_initial<F: Transition>(f: F, init: StateViewOf<F>)
    ensures
        outputs(f, Some(init), 1) == seq![Some(f.output(init))],
{
    lemma_outputs_len(f, Some(init), 1);
    assert(outputs(f, Some(init), 0) == Seq::<Option<ItemViewOf<F>>>::empty());
    assert(outputs(f, Some(init), 1) =~= seq![Some(f.output(init))]);
}

impl<F: Transition> StateIter<F> {
    /// The abstract value of the current state slot: `Some` while the sequence
    /// is active, `None` once it has terminated.
    pub closed spec fn state_spec(self) -> Option<StateViewOf<F>> {
        slot_view(self.state)
    }

    /// The transition rule the sequence was created with. It never changes.
    pub closed spec fn rule_spec(self) -> F {
        self.transition
    }

    /// Whether the sequence has terminated: no further pull will produce an item.
    pub open spec fn is_terminated(self) -> bool {
        self.state_spec() is None
    }

    /// Creates a sequence holding exactly `initial` — no transition is applied
    /// until the first pull.
    pub fn new(initial: F::State, transition: F) -> (r: Self)
        ensures
            r.state_spec() == Some(initial@),
            r.rule_spec() == transition,
    {
        StateIter { state: Some(initial), transition }
    }

    /// Advances the sequence by one step and returns the produced item, or
    /// `None` if the sequence had already terminated. The rule is applied only
    /// to a present state; a terminated sequence is left untouched.
    pub fn pull(&mut self) -> (r: Option<F::Item>)
        ensures
            final(self).rule_spec() == old(self).rule_spec(),
            final(self).state_spec() == step(old(self).rule_spec(), old(self).state_spec()).0,
            slot_view(r) == step(old(self).rule_spec(), old(self).state_spec()).1,
    {
        let st = self.state.take();
        match st {
            None => None,
            Some(s) => {
                let (next, item) = self.transition.apply(s);
                self.state = next;
                Some(item)
            },
        }
    }

    /// Pulls up to `n` items and returns them in order. Fewer than `n` items
    /// come back only when the sequence terminated during the consumption; the
    /// items are exactly the results of the pulls made.
    pub fn pull_up_to(&mut self, n: usize) -> (r: Vec<F::Item>)
        ensures
            final(self).rule_spec() == old(self).rule_spec(),
            r@.len() <= n,
            final(self).state_spec() == state_after(
                old(self).rule_spec(),
                old(self).state_spec(),
                r@.len() as nat,
            ),
            forall|i: int|
                0 <= i < r@.len() ==> outputs(
                    old(self).rule_spec(),
                    old(self).state_spec(),
                    r@.len() as nat,
                )[i] == Some(r@[i]@),
            r@.len() < n ==> final(self).is_terminated(),
    {
        let ghost f = old(self).rule_spec();
        let ghost st0 = old(self).state_spec();
        let mut r: Vec<F::Item> = Vec::new();
        let mut i: usize = 0;
        while i < n
            invariant_except_break
                i == r@.len(),
                i <= n,
                self.rule_spec() == f,
                self.state_spec() == state_after(f, st0, i as nat),
                forall|k: int| 0 <= k < i ==> outputs(f, st0, i as nat)[k] == Some(r@[k]@),
            ensures
                i == r@.len(),
                i <= n,
                self.rule_spec() == f,
                self.state_spec() == state_after(f, st0, i as nat),
                forall|k: int| 0 <= k < i ==> outputs(f, st0, i as nat)[k] == Some(r@[k]@),
                i < n ==> self.state_spec() is None,
            decreases n - i,
        {
            match self.pull() {
                Some(item) => {
                    proof {
                        lemma_outputs_len(f, st0, i as nat);
                    }
                    r.push(item);
                    assert(forall|k: int|
                        0 <= k < i ==> outputs(f, st0, (i + 1) as nat)[k] == outputs(
                            f,
                            st0,
                            i as nat,
                        )[k]);
                    i = i + 1;
                },
                None => {
                    break ;
                },
            }
        }
        r
    }
}

} // verus!
