//! The undo history of an open file: states of the document, plain data with
//! no clock and no interface in it. The application shows the history every
//! state the document passes through and says whether the change has settled;
//! the history turns that into steps.
//!
//! A change that is still under way (a slider being dragged, a handle in the
//! hand) is not a step yet. It becomes one step when it settles, however many
//! states it passed through, so one drag is one undo. A change that ends where
//! it began is no step at all.
//!
//! The history lives as long as the file is open. It is never written
//! anywhere.

use std::collections::VecDeque;
use vstd::prelude::*;
use vstd::std_specs::cmp::PartialEqSpec;

verus! {

/// The most steps a history keeps; the oldest is dropped past it.
pub const MAX_STEPS: usize = 500;

/// What [`History::observe`] saw.
#[derive(Clone, Copy, Debug, PartialEq, Eq, Structural)]
pub struct Observed {
    /// The state differs from the one shown to the history last time.
    pub changed: bool,
    /// A step was taken: the state is the new present.
    pub stepped: bool,
}

impl Default for Observed {
    fn default() -> (r: Self)
        ensures
            !r.changed && !r.stepped,
    {
        Observed { changed: false, stepped: false }
    }
}

/// The present state with the states before it and, after an undo, the
/// states after it.
#[derive(Clone, Debug)]
pub struct History<T: Clone + PartialEq> {
    present: T,
    /// The state last shown to [`observe`](Self::observe).
    seen: T,
    undo: VecDeque<T>,
    redo: Vec<T>,
    limit: usize,
}

/// What a history holds.
#[verifier::ext_equal]
pub struct HistoryView<T> {
    pub present: T,
    pub seen: T,
    /// The states an undo takes back, the newest last.
    pub undo: Seq<T>,
    /// The states a redo brings back, the next one last.
    pub redo: Seq<T>,
    pub limit: nat,
}

/// The newest `limit` of a run of states.
pub open spec fn capped<T>(states: Seq<T>, limit: nat) -> Seq<T> {
    if states.len() > limit {
        states.skip(states.len() - limit)
    } else {
        states
    }
}

/// A type whose equality tells every two different values apart and whose
/// clone is the value cloned.
pub open spec fn lawful<T: Clone + PartialEq>() -> bool {
    &&& T::obeys_eq_spec()
    &&& forall|a: T, b: T| #[trigger] a.eq_spec(&b) <==> a == b
    &&& forall|a: T, b: T| #[trigger] cloned(a, b) ==> a == b
}

/// Among these states equality is an equivalence, and the clone of a state is
/// one of them and equal to it. A state that holds a number that is not one is
/// in no such set, because it does not equal itself.
pub open spec fn tame<T: Clone + PartialEq>(states: Set<T>) -> bool {
    &&& T::obeys_eq_spec()
    &&& forall|a: T| states.contains(a) ==> #[trigger] a.eq_spec(&a)
    &&& forall|a: T, b: T|
        states.contains(a) && states.contains(b) && #[trigger] a.eq_spec(&b) ==> b.eq_spec(&a)
    &&& forall|a: T, b: T, c: T|
        states.contains(a) && states.contains(b) && states.contains(c)
            && #[trigger] a.eq_spec(&b) && #[trigger] b.eq_spec(&c) ==> a.eq_spec(&c)
    &&& forall|a: T, b: T|
        states.contains(a) && #[trigger] cloned(a, b) ==> states.contains(b) && a.eq_spec(&b)
}

/// The states that equal `state`: what a state is when equal states are one.
pub open spec fn alike<T: PartialEq>(states: Set<T>, state: T) -> Set<T> {
    Set::new(|other: T| states.contains(other) && state.eq_spec(&other))
}

/// Two tame states are alike as they are equal.
pub proof fn equal_states_are_alike<T: Clone + PartialEq>(states: Set<T>, a: T, b: T)
    requires
        tame(states),
        states.contains(a),
        states.contains(b),
    ensures
        (alike(states, a) == alike(states, b)) == a.eq_spec(&b),
{
    assert(b.eq_spec(&b));
    if a.eq_spec(&b) {
        assert(b.eq_spec(&a));
        assert forall|c: T| alike(states, a).contains(c) == alike(states, b).contains(c) by {
            if states.contains(c) {
                if a.eq_spec(&c) {
                    assert(b.eq_spec(&c));
                }
                if b.eq_spec(&c) {
                    assert(a.eq_spec(&c));
                }
            }
        }
        assert(alike(states, a) =~= alike(states, b));
    } else {
        assert(alike(states, b).contains(b));
        assert(!alike(states, a).contains(b));
    }
}

fn copy_of<T: Clone>(value: &T) -> (r: T)
    ensures
        cloned(*value, r),
{
    value.clone()
}

impl<T> HistoryView<T> {
    /// At least one step fits, and what is kept fits.
    pub open spec fn wf(self) -> bool {
        self.limit >= 1 && self.undo.len() + self.redo.len() <= self.limit
    }

    /// One step to `state`: the present goes onto the undo stack and the redo
    /// stack is cleared.
    pub open spec fn stepped(self, state: T) -> HistoryView<T> {
        HistoryView {
            present: state,
            undo: capped(self.undo.push(self.present), self.limit),
            redo: Seq::empty(),
            ..self
        }
    }

    /// The history after a state was shown to it.
    pub open spec fn observed(self, state: T, settled: bool) -> HistoryView<T> {
        let shown = HistoryView { seen: state, ..self };
        if settled && state != self.present {
            shown.stepped(state)
        } else {
            shown
        }
    }

    /// The history with a pending change taken as a step.
    pub open spec fn settled(self, current: T) -> HistoryView<T> {
        self.observed(current, true)
    }

    /// The history after an undo from `current`.
    pub open spec fn undone(self, current: T) -> HistoryView<T> {
        let base = self.settled(current);
        if base.undo.len() == 0 {
            base
        } else {
            HistoryView {
                present: base.undo.last(),
                seen: base.undo.last(),
                undo: base.undo.drop_last(),
                redo: base.redo.push(base.present),
                limit: base.limit,
            }
        }
    }

    /// The history after a redo from `current`.
    pub open spec fn redone(self, current: T) -> HistoryView<T> {
        let base = self.settled(current);
        if base.redo.len() == 0 {
            base
        } else {
            HistoryView {
                present: base.redo.last(),
                seen: base.redo.last(),
                undo: base.undo.push(base.present),
                redo: base.redo.drop_last(),
                limit: base.limit,
            }
        }
    }

    /// The history after a run of states that had not settled.
    pub open spec fn dragged(self, states: Seq<T>) -> HistoryView<T>
        decreases states.len(),
    {
        if states.len() == 0 {
            self
        } else {
            self.dragged(states.drop_last()).observed(states.last(), false)
        }
    }
}

impl<T: PartialEq> HistoryView<T> {
    /// Every state the history holds is one of these.
    pub open spec fn within(self, states: Set<T>) -> bool {
        &&& states.contains(self.present)
        &&& states.contains(self.seen)
        &&& forall|i: int| 0 <= i < self.undo.len() ==> states.contains(#[trigger] self.undo[i])
        &&& forall|i: int| 0 <= i < self.redo.len() ==> states.contains(#[trigger] self.redo[i])
    }

    /// The history when equal states are one.
    pub open spec fn up_to_equality(self, states: Set<T>) -> HistoryView<Set<T>> {
        HistoryView {
            present: alike(states, self.present),
            seen: alike(states, self.seen),
            undo: Seq::new(self.undo.len(), |i: int| alike(states, self.undo[i])),
            redo: Seq::new(self.redo.len(), |i: int| alike(states, self.redo[i])),
            limit: self.limit,
        }
    }
}

impl<T: Clone + PartialEq> View for History<T> {
    type V = HistoryView<T>;

    closed spec fn view(&self) -> HistoryView<T> {
        HistoryView {
            present: self.present,
            seen: self.seen,
            undo: self.undo@,
            redo: self.redo@,
            limit: self.limit as nat,
        }
    }
}

impl<T: Clone + PartialEq> History<T> {
    /// An empty history of a file as it was opened.
    pub fn new(state: T) -> (r: Self)
        ensures
            r@.wf(),
            r@.present == state,
            cloned(state, r@.seen),
            r@.undo.len() == 0,
            r@.redo.len() == 0,
            r@.limit == MAX_STEPS,
    {
        Self::with_limit(state, MAX_STEPS)
    }

    /// The same with another cap on the steps, at least one.
    pub fn with_limit(state: T, limit: usize) -> (r: Self)
        ensures
            r@.wf(),
            r@.present == state,
            cloned(state, r@.seen),
            r@.undo.len() == 0,
            r@.redo.len() == 0,
            r@.limit == if limit == 0 { 1 } else { limit as nat },
    {
        History {
            seen: copy_of(&state),
            present: state,
            undo: VecDeque::new(),
            redo: Vec::new(),
            limit: if limit == 0 { 1 } else { limit },
        }
    }

    /// Shows the history the state of the document. While `settled` is false
    /// a state that differs from the present is only pending. Once `settled`
    /// is true it becomes one step: the present goes onto the undo stack, the
    /// state becomes the present and the redo stack is cleared.
    pub fn observe(&mut self, state: &T, settled: bool) -> (r: Observed)
        requires
            T::obeys_eq_spec(),
            old(self)@.wf(),
        ensures
            final(self)@.wf(),
            final(self)@.limit == old(self)@.limit,
            r.changed == !state.eq_spec(&old(self)@.seen),
            r.stepped == (settled && !state.eq_spec(&old(self)@.present)),
            if r.changed {
                cloned(*state, final(self)@.seen)
            } else {
                final(self)@.seen == old(self)@.seen
            },
            if r.stepped {
                &&& cloned(*state, final(self)@.present)
                &&& final(self)@.undo == old(self)@.stepped(*state).undo
                &&& final(self)@.redo.len() == 0
            } else {
                &&& final(self)@.present == old(self)@.present
                &&& final(self)@.undo == old(self)@.undo
                &&& final(self)@.redo == old(self)@.redo
            },
            lawful::<T>() ==> final(self)@ == old(self)@.observed(*state, settled),
            forall|states: Set<T>|
                #[trigger] tame(states) && old(self)@.within(states) && states.contains(*state) ==> {
                    &&& final(self)@.within(states)
                    &&& final(self)@.up_to_equality(states) == old(self)@.up_to_equality(
                        states,
                    ).observed(alike(states, *state), settled)
                },
    {
        let changed: bool = *state != self.seen;
        if changed {
            self.seen = copy_of(state);
        }
        let stepped: bool = settled && *state != self.present;
        if stepped {
            self.step(copy_of(state));
        }
        assert(lawful::<T>() ==> self@ =~= old(self)@.observed(*state, settled));
        proof {
            assert forall|states: Set<T>|
                #[trigger] tame(states) && old(self)@.within(states) && states.contains(
                    *state,
                ) implies {
                &&& self@.within(states)
                &&& self@.up_to_equality(states) == old(self)@.up_to_equality(states).observed(
                    alike(states, *state),
                    settled,
                )
            } by {
                equal_states_are_alike(states, *state, old(self)@.present);
                equal_states_are_alike(states, *state, old(self)@.seen);
                equal_states_are_alike(states, *state, self@.present);
                equal_states_are_alike(states, *state, self@.seen);
                assert(self@.up_to_equality(states) =~= old(self)@.up_to_equality(states).observed(
                    alike(states, *state),
                    settled,
                ));
            }
        }
        Observed { changed, stepped }
    }

    fn step(&mut self, state: T)
        requires
            old(self)@.wf(),
        ensures
            final(self)@ == old(self)@.stepped(state),
            final(self)@.wf(),
    {
        let mut before: T = state;
        std::mem::swap(&mut self.present, &mut before);
        self.undo.push_back(before);
        let ghost all = self.undo@;
        while self.undo.len() > self.limit
            invariant
                self.undo@.len() <= all.len(),
                self.undo@ == all.skip(all.len() - self.undo@.len()),
                self.undo@.len() == all.len() || self.undo@.len() >= self.limit,
                self.limit == old(self).limit,
                self.seen == old(self).seen,
                self.present == state,
            decreases self.undo@.len(),
        {
            self.undo.pop_front();
            assert(self.undo@ =~= all.skip(all.len() - self.undo@.len()));
        }
        self.redo.clear();
        assert(self@ =~= old(self)@.stepped(state));
    }

    /// A pending change is a step before anything is taken back, so nothing
    /// a person did is lost to an undo that came before it settled.
    fn settle(&mut self, current: &T)
        requires
            T::obeys_eq_spec(),
            old(self)@.wf(),
        ensures
            final(self)@.wf(),
            final(self)@.limit == old(self)@.limit,
            cloned(*current, final(self)@.seen),
            if current.eq_spec(&old(self)@.present) {
                &&& final(self)@.present == old(self)@.present
                &&& final(self)@.undo == old(self)@.undo
                &&& final(self)@.redo == old(self)@.redo
            } else {
                &&& cloned(*current, final(self)@.present)
                &&& final(self)@.undo == old(self)@.stepped(*current).undo
                &&& final(self)@.redo.len() == 0
            },
            lawful::<T>() ==> final(self)@ == old(self)@.settled(*current),
            forall|states: Set<T>|
                #[trigger] tame(states) && old(self)@.within(states) && states.contains(
                    *current,
                ) ==> {
                    &&& final(self)@.within(states)
                    &&& final(self)@.up_to_equality(states) == old(self)@.up_to_equality(
                        states,
                    ).settled(alike(states, *current))
                },
    {
        if *current != self.present {
            self.step(copy_of(current));
        }
        self.seen = copy_of(current);
        assert(lawful::<T>() ==> self@ =~= old(self)@.settled(*current));
        proof {
            assert forall|states: Set<T>|
                #[trigger] tame(states) && old(self)@.within(states) && states.contains(
                    *current,
                ) implies {
                &&& self@.within(states)
                &&& self@.up_to_equality(states) == old(self)@.up_to_equality(states).settled(
                    alike(states, *current),
                )
            } by {
                equal_states_are_alike(states, *current, old(self)@.present);
                equal_states_are_alike(states, *current, self@.present);
                equal_states_are_alike(states, *current, self@.seen);
                assert(self@.up_to_equality(states) =~= old(self)@.up_to_equality(states).settled(
                    alike(states, *current),
                ));
            }
        }
    }

    /// The state to take for an undo, or `None` on an empty stack.
    /// `current` is the document as it is now.
    pub fn undo(&mut self, current: &T) -> (r: Option<T>)
        requires
            T::obeys_eq_spec(),
            old(self)@.wf(),
        ensures
            final(self)@.wf(),
            final(self)@.limit == old(self)@.limit,
            r is None <==> current.eq_spec(&old(self)@.present) && old(self)@.undo.len() == 0,
            match r {
                None => {
                    &&& final(self)@.present == old(self)@.present
                    &&& final(self)@.undo == old(self)@.undo
                    &&& final(self)@.redo == old(self)@.redo
                    &&& cloned(*current, final(self)@.seen)
                },
                Some(state) => {
                    let pending = !current.eq_spec(&old(self)@.present);
                    let undo = if pending {
                        old(self)@.stepped(*current).undo
                    } else {
                        old(self)@.undo
                    };
                    let redo = if pending {
                        Seq::empty()
                    } else {
                        old(self)@.redo
                    };
                    &&& cloned(final(self)@.present, state)
                    &&& cloned(final(self)@.present, final(self)@.seen)
                    &&& final(self)@.present == undo.last()
                    &&& final(self)@.undo == undo.drop_last()
                    &&& final(self)@.redo.len() == redo.len() + 1
                    &&& final(self)@.redo.drop_last() == redo
                    &&& if pending {
                        cloned(*current, final(self)@.redo.last())
                    } else {
                        final(self)@.redo.last() == old(self)@.present
                    }
                },
            },
            lawful::<T>() ==> {
                &&& final(self)@ == old(self)@.undone(*current)
                &&& r matches Some(state) ==> state == final(self)@.present
            },
            forall|states: Set<T>|
                #[trigger] tame(states) && old(self)@.within(states) && states.contains(
                    *current,
                ) ==> {
                    &&& final(self)@.within(states)
                    &&& final(self)@.up_to_equality(states) == old(self)@.up_to_equality(
                        states,
                    ).undone(alike(states, *current))
                    &&& r matches Some(state) ==> alike(states, state) == alike(
                        states,
                        final(self)@.present,
                    )
                },
    {
        self.settle(current);
        let ghost base = self@;
        match self.undo.pop_back() {
            None => None,
            Some(before) => {
                let mut undone: T = before;
                std::mem::swap(&mut self.present, &mut undone);
                self.redo.push(undone);
                self.seen = copy_of(&self.present);
                assert(self@.redo.drop_last() =~= base.redo);
                assert(lawful::<T>() ==> self@ =~= old(self)@.undone(*current));
                let state: T = copy_of(&self.present);
                proof {
                    assert forall|states: Set<T>|
                        #[trigger] tame(states) && old(self)@.within(states) && states.contains(
                            *current,
                        ) implies {
                        &&& self@.within(states)
                        &&& self@.up_to_equality(states) == old(self)@.up_to_equality(
                            states,
                        ).undone(alike(states, *current))
                        &&& alike(states, state) == alike(states, self@.present)
                    } by {
                        assert(base.within(states));
                        assert(states.contains(self@.present));
                        equal_states_are_alike(states, self@.present, self@.seen);
                        equal_states_are_alike(states, self@.present, state);
                        assert(self@.up_to_equality(states) =~= old(self)@.up_to_equality(
                            states,
                        ).undone(alike(states, *current)));
                    }
                }
                Some(state)
            },
        }
    }

    /// The state to take for a redo, or `None` when nothing was undone, or
    /// when a new step has cleared what was.
    pub fn redo(&mut self, current: &T) -> (r: Option<T>)
        requires
            T::obeys_eq_spec(),
            old(self)@.wf(),
        ensures
            final(self)@.wf(),
            final(self)@.limit == old(self)@.limit,
            r is Some <==> current.eq_spec(&old(self)@.present) && old(self)@.redo.len() > 0,
            match r {
                None => {
                    let pending = !current.eq_spec(&old(self)@.present);
                    &&& cloned(*current, final(self)@.seen)
                    &&& final(self)@.redo.len() == 0
                    &&& if pending {
                        &&& cloned(*current, final(self)@.present)
                        &&& final(self)@.undo == old(self)@.stepped(*current).undo
                    } else {
                        &&& final(self)@.present == old(self)@.present
                        &&& final(self)@.undo == old(self)@.undo
                    }
                },
                Some(state) => {
                    &&& cloned(final(self)@.present, state)
                    &&& cloned(final(self)@.present, final(self)@.seen)
                    &&& final(self)@.present == old(self)@.redo.last()
                    &&& final(self)@.redo == old(self)@.redo.drop_last()
                    &&& final(self)@.undo == old(self)@.undo.push(old(self)@.present)
                },
            },
            lawful::<T>() ==> {
                &&& final(self)@ == old(self)@.redone(*current)
                &&& r matches Some(state) ==> state == final(self)@.present
            },
            forall|states: Set<T>|
                #[trigger] tame(states) && old(self)@.within(states) && states.contains(
                    *current,
                ) ==> {
                    &&& final(self)@.within(states)
                    &&& final(self)@.up_to_equality(states) == old(self)@.up_to_equality(
                        states,
                    ).redone(alike(states, *current))
                    &&& r matches Some(state) ==> alike(states, state) == alike(
                        states,
                        final(self)@.present,
                    )
                },
    {
        self.settle(current);
        let ghost base = self@;
        match self.redo.pop() {
            None => None,
            Some(after) => {
                let mut before: T = after;
                std::mem::swap(&mut self.present, &mut before);
                self.undo.push_back(before);
                self.seen = copy_of(&self.present);
                assert(lawful::<T>() ==> self@ =~= old(self)@.redone(*current));
                let state: T = copy_of(&self.present);
                proof {
                    assert forall|states: Set<T>|
                        #[trigger] tame(states) && old(self)@.within(states) && states.contains(
                            *current,
                        ) implies {
                        &&& self@.within(states)
                        &&& self@.up_to_equality(states) == old(self)@.up_to_equality(
                            states,
                        ).redone(alike(states, *current))
                        &&& alike(states, state) == alike(states, self@.present)
                    } by {
                        assert(base.within(states));
                        assert(states.contains(self@.present));
                        equal_states_are_alike(states, self@.present, self@.seen);
                        equal_states_are_alike(states, self@.present, state);
                        assert(self@.up_to_equality(states) =~= old(self)@.up_to_equality(
                            states,
                        ).redone(alike(states, *current)));
                    }
                }
                Some(state)
            },
        }
    }

    /// Whether `state` differs from the one last shown to
    /// [`observe`](Self::observe): the document changed since then.
    pub fn changed(&self, state: &T) -> (r: bool)
        requires
            T::obeys_eq_spec(),
        ensures
            r == !state.eq_spec(&self@.seen),
    {
        *state != self.seen
    }

    /// The state the history holds as the present.
    pub fn present(&self) -> (r: &T)
        ensures
            *r == self@.present,
    {
        &self.present
    }

    /// How many steps an undo can take back.
    pub fn undo_steps(&self) -> (r: usize)
        ensures
            r == self@.undo.len(),
    {
        self.undo.len()
    }

    /// How many steps a redo can bring back.
    pub fn redo_steps(&self) -> (r: usize)
        ensures
            r == self@.redo.len(),
    {
        self.redo.len()
    }
}

/// A run of changes that had not settled takes no step, however long it is.
pub proof fn a_drag_takes_no_step<T>(history: HistoryView<T>, states: Seq<T>)
    ensures
        history.dragged(states).present == history.present,
        history.dragged(states).undo == history.undo,
        history.dragged(states).redo == history.redo,
        history.dragged(states).limit == history.limit,
    decreases states.len(),
{
    if states.len() > 0 {
        a_drag_takes_no_step(history, states.drop_last());
    }
}

/// A drag is one undo: whatever states it passed through, when it settles on
/// a new state one undo brings back the state before the drag.
pub proof fn a_drag_is_one_undo<T>(history: HistoryView<T>, states: Seq<T>, end: T)
    requires
        history.wf(),
        end != history.present,
    ensures
        history.dragged(states).observed(end, true).undo == capped(
            history.undo.push(history.present),
            history.limit,
        ),
        history.dragged(states).observed(end, true).undone(end).present == history.present,
{
    a_drag_takes_no_step(history, states);
}

/// A change that ends where it began is no step.
pub proof fn a_change_that_ends_where_it_began_is_no_step<T>(
    history: HistoryView<T>,
    states: Seq<T>,
)
    ensures
        history.dragged(states).observed(history.present, true).undo == history.undo,
        history.dragged(states).observed(history.present, true).redo == history.redo,
        history.dragged(states).observed(history.present, true).present == history.present,
{
    a_drag_takes_no_step(history, states);
}

/// A redo takes an undo back: the history is as it was before the undo.
pub proof fn redo_takes_an_undo_back<T>(history: HistoryView<T>)
    requires
        history.wf(),
        history.undo.len() > 0,
        history.seen == history.present,
    ensures
        history.undone(history.present).redone(history.undone(history.present).present) == history,
{
    let undone = history.undone(history.present);
    assert(undone.redo.drop_last() =~= history.redo);
    assert(undone.undo.push(undone.present) =~= history.undo);
    assert(undone.redone(undone.present) =~= history);
}

/// An undo takes a redo back.
pub proof fn undo_takes_a_redo_back<T>(history: HistoryView<T>)
    requires
        history.wf(),
        history.redo.len() > 0,
        history.seen == history.present,
    ensures
        history.redone(history.present).undone(history.redone(history.present).present) == history,
{
    let redone = history.redone(history.present);
    assert(redone.undo.drop_last() =~= history.undo);
    assert(redone.redo.push(redone.present) =~= history.redo);
    assert(redone.undone(redone.present) =~= history);
}

/// Nothing is lost to an undo that comes before a change has settled: the
/// change is a step of its own, the undo itself brings back the present, and
/// a redo brings the change back.
pub proof fn an_early_undo_loses_nothing<T>(history: HistoryView<T>, current: T)
    requires
        history.wf(),
        current != history.present,
    ensures
        history.undone(current).present == history.present,
        history.undone(current).redo == seq![current],
        history.undone(current).undo.len() == if history.undo.len() < history.limit {
            history.undo.len() as int
        } else {
            history.limit - 1
        },
        history.undone(current).redone(history.present).present == current,
{
    assert(history.undone(current).redo =~= seq![current]);
}

/// An undo and a redo walk both ways: after an undo from any state a redo
/// gives that state again, with one step more to undo and one fewer to redo,
/// and another undo is back at what the first gave.
pub proof fn undo_and_redo_walk_both_ways<T>(history: HistoryView<T>, current: T)
    requires
        history.wf(),
        history.settled(current).undo.len() > 0,
    ensures
        ({
            let undone = history.undone(current);
            let redone = undone.redone(undone.present);
            &&& redone.present == current
            &&& redone.undo.len() == undone.undo.len() + 1
            &&& redone.redo.len() == undone.redo.len() - 1
            &&& redone.undone(current) == undone
        }),
{
    let undone = history.undone(current);
    let redone = undone.redone(undone.present);
    assert(redone.undo.drop_last() =~= undone.undo);
    assert(redone.redo.push(current) =~= undone.redo);
    assert(redone.undone(current) =~= undone);
}

/// A state that was taken back or brought back is no step when it is shown to
/// the history, settled or not, and what can be undone and redone stays.
pub proof fn a_state_taken_back_is_no_step<T>(history: HistoryView<T>, current: T, settled: bool)
    ensures
        history.settled(current).undo.len() > 0 ==> history.undone(current).observed(
            history.undone(current).present,
            settled,
        ) == history.undone(current),
        history.settled(current).redo.len() > 0 ==> history.redone(current).observed(
            history.redone(current).present,
            settled,
        ) == history.redone(current),
{
}

/// What counts as changed is told from the state that was shown last, settled
/// or not, step or no step.
pub proof fn a_change_is_told_from_the_last_state_shown<T>(
    history: HistoryView<T>,
    state: T,
    settled: bool,
)
    ensures
        history.observed(state, settled).seen == state,
{
}

/// A new step clears what a redo could bring back.
pub proof fn a_new_step_clears_redo<T>(history: HistoryView<T>, state: T)
    requires
        history.wf(),
        state != history.present,
    ensures
        history.observed(state, true).redo.len() == 0,
        history.observed(state, true).redone(state) == history.observed(state, true),
{
    assert(history.observed(state, true).redone(state) =~= history.observed(state, true));
}

/// Every operation keeps the cap: never more steps than the limit in all.
pub proof fn the_cap_is_kept<T>(history: HistoryView<T>, state: T, settled: bool)
    requires
        history.wf(),
    ensures
        history.observed(state, settled).wf(),
        history.undone(state).wf(),
        history.redone(state).wf(),
{
}

/// A full history drops its oldest step and no other.
pub proof fn the_cap_drops_the_oldest_step<T>(history: HistoryView<T>, state: T)
    requires
        history.wf(),
        history.undo.len() == history.limit,
        state != history.present,
    ensures
        history.observed(state, true).undo == history.undo.drop_first().push(history.present),
{
    assert(history.observed(state, true).undo =~= history.undo.drop_first().push(history.present));
}

/// A change that settled is one step: it is the new present, the state before
/// it is the next one an undo gives, and every step before stays while there
/// is room for one more.
pub proof fn a_settled_change_is_one_step<T>(history: HistoryView<T>, state: T)
    requires
        history.wf(),
        state != history.present,
    ensures
        history.observed(state, true).present == state,
        history.observed(state, true).undo.len() > 0,
        history.observed(state, true).undo.last() == history.present,
        history.observed(state, true).limit == history.limit,
        history.undo.len() < history.limit ==> history.observed(state, true).undo
            == history.undo.push(history.present),
        history.observed(state, false).present == history.present,
        history.observed(state, false).undo == history.undo,
        history.observed(state, false).redo == history.redo,
{
}

/// An undo with nothing pending gives the newest step back and keeps the
/// present for a redo; with no step it changes nothing. A redo gives the
/// newest step that was undone.
pub proof fn an_undo_gives_the_newest_step<T>(history: HistoryView<T>)
    requires
        history.wf(),
        history.seen == history.present,
    ensures
        history.undo.len() > 0 ==> ({
            let now = history.undone(history.present);
            &&& now.present == history.undo[history.undo.len() - 1]
            &&& now.undo == history.undo.take(history.undo.len() - 1)
            &&& now.redo == history.redo.push(history.present)
        }),
        history.undo.len() == 0 ==> history.undone(history.present) == history,
        history.redo.len() > 0 ==> ({
            let now = history.redone(history.present);
            &&& now.present == history.redo[history.redo.len() - 1]
            &&& now.redo == history.redo.take(history.redo.len() - 1)
            &&& now.undo == history.undo.push(history.present)
        }),
        history.redo.len() == 0 ==> history.redone(history.present) == history,
{
    if history.undo.len() > 0 {
        assert(history.undo.drop_last() =~= history.undo.take(history.undo.len() - 1));
    }
    if history.redo.len() > 0 {
        assert(history.redo.drop_last() =~= history.redo.take(history.redo.len() - 1));
    }
    assert(history.undo.len() == 0 ==> history.undone(history.present) =~= history);
    assert(history.redo.len() == 0 ==> history.redone(history.present) =~= history);
}

/// A cap keeps the newest states, as many as it allows, in their order.
pub proof fn a_cap_keeps_the_newest<T>(states: Seq<T>, limit: nat, i: int)
    requires
        0 <= i < capped(states, limit).len(),
    ensures
        capped(states, limit).len() <= limit,
        states.len() <= limit ==> capped(states, limit) == states,
        states.len() > limit ==> capped(states, limit).len() == limit,
        capped(states, limit)[i] == states[states.len() - capped(states, limit).len() + i],
{
}

/// A history holds five hundred steps, both ways together.
pub proof fn a_history_holds_five_hundred_steps<T>(history: HistoryView<T>)
    requires
        history.wf(),
        history.limit == MAX_STEPS,
    ensures
        history.undo.len() <= 500,
        history.redo.len() <= 500,
        history.undo.len() + history.redo.len() <= 500,
        history.undo.len() == 500 ==> history.redo.len() == 0,
{
}

} // verus!
