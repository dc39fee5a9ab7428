//! Folding the events of a cart into the state that a decision reads.
//!
//! A state is folded from the events of its cart in log order. The fold is
//! defined once, for every state, over the models of the events.

use vstd::prelude::*;

use crate::domain::events::EventView;
use crate::domain::streams::CartStream;

verus! {

/// The model of a fold state over the `Cart` stream: what an event does to
/// it.
pub trait FoldState: Sized {
    /// Whether the event can follow the state: a count that it raises is not
    /// at its machine limit, and what it removes is there.
    spec fn can_apply(self, event: EventView) -> bool;

    /// The state after the event.
    spec fn apply(self, event: EventView) -> Self;
}

/// A fold state over the `Cart` stream.
pub trait StateMutate: Sized {
    /// The mathematical model of the state.
    type Model: FoldState;

    /// The model of this state.
    spec fn model(&self) -> Self::Model;

    /// Whether the event can follow the state.
    fn can_mutate(&self, event: &CartStream) -> (b: bool)
        ensures
            b == self.model().can_apply(event@),
    ;

    /// Folds one event into the state.
    fn mutate(&mut self, event: CartStream)
        requires
            old(self).model().can_apply(event@),
        ensures
            final(self).model() == old(self).model().apply(event@),
    ;
}

/// The state after the events, folded in order.
pub open spec fn fold<S: FoldState>(state: S, events: Seq<EventView>) -> S
    decreases events.len(),
{
    if events.len() == 0 {
        state
    } else {
        fold(state, events.drop_last()).apply(events.last())
    }
}

/// Whether each event can follow the state folded from those before it.
pub open spec fn can_fold<S: FoldState>(state: S, events: Seq<EventView>) -> bool
    decreases events.len(),
{
    events.len() == 0 || (can_fold(state, events.drop_last()) && fold(
        state,
        events.drop_last(),
    ).can_apply(events.last()))
}

/// Folding a log and then the events appended to it gives the state that
/// folding the whole log gives.
pub proof fn lemma_fold_concat<S: FoldState>(state: S, log: Seq<EventView>, tail: Seq<EventView>)
    ensures
        fold(state, log + tail) == fold(fold(state, log), tail),
        can_fold(state, log + tail) <==> can_fold(state, log) && can_fold(fold(state, log), tail),
    decreases tail.len(),
{
    if tail.len() == 0 {
        assert(log + tail == log);
    } else {
        assert((log + tail).drop_last() == log + tail.drop_last());
        assert((log + tail).last() == tail.last());
        lemma_fold_concat(state, log, tail.drop_last());
    }
}

/// Folds a list of events into the state, in order, as far as each event
/// can follow. Returns whether all of them could; if not, the state is left
/// where the fold stopped.
pub fn mutate_all<S: StateMutate>(state: &mut S, events: Vec<CartStream>) -> (done: bool)
    ensures
        done == can_fold(old(state).model(), events@.map_values(|e: CartStream| e@)),
        done ==> final(state).model() == fold(
            old(state).model(),
            events@.map_values(|e: CartStream| e@),
        ),
{
    let ghost models = events@.map_values(|e: CartStream| e@);
    let ghost start = state.model();
    let mut pending = events;
    let mut rest: Vec<CartStream> = Vec::new();
    // Reverse once so that events can be taken from the end in log order.
    while pending.len() > 0
        invariant
            state.model() == start,
            rest@.len() + pending@.len() == models.len(),
            forall|i: int| 0 <= i < pending@.len() ==> (#[trigger] pending@[i])@ == models[i],
            forall|i: int|
                0 <= i < rest@.len() ==> (#[trigger] rest@[i])@ == models[models.len() - 1 - i],
        decreases pending.len(),
    {
        let event = pending.pop().unwrap();
        rest.push(event);
    }
    let ghost mut done: int = 0;
    while rest.len() > 0
        invariant
            start == old(state).model(),
            models == events@.map_values(|e: CartStream| e@),
            0 <= done <= models.len(),
            rest@.len() + done == models.len(),
            forall|i: int|
                0 <= i < rest@.len() ==> (#[trigger] rest@[i])@ == models[models.len() - 1 - i],
            can_fold(start, models.take(done)),
            state.model() == fold(start, models.take(done)),
        decreases rest.len(),
    {
        let event = rest.pop().unwrap();
        proof {
            assert(event@ == models[done]);
            assert(models.take(done + 1).drop_last() == models.take(done));
            assert(models.take(done + 1).last() == models[done]);
        }
        if !state.can_mutate(&event) {
            proof {
                if can_fold(start, models) {
                    lemma_can_fold_prefix(start, models, done + 1);
                }
            }
            return false;
        }
        state.mutate(event);
        proof {
            done = done + 1;
        }
    }
    assert(models.take(done) == models);
    true
}

/// Every prefix of a list that can be folded can be folded.
pub proof fn lemma_can_fold_prefix<S: FoldState>(state: S, events: Seq<EventView>, n: int)
    requires
        can_fold(state, events),
        0 <= n <= events.len(),
    ensures
        can_fold(state, events.take(n)),
    decreases events.len(),
{
    if n == events.len() {
        assert(events.take(n) == events);
    } else {
        assert(events.drop_last().take(n) == events.take(n));
        lemma_can_fold_prefix(state, events.drop_last(), n);
    }
}

} // verus!
