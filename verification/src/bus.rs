//! The dispatch bus: the intake queue that carries actions to the reducer,
//! in submission order, and the registry of the observers that wait for
//! their outcomes.

use crate::action::{Action, ActionView};
use crate::observer::{
    delivery_views, kept, sent, watched, Delivery, Observer, ObserverView, Registry,
};
use crate::state::State;
use vstd::prelude::*;

verus! {

/// Intake queue and observer registry. `W` is the sending end of a caller's
/// one-shot channel.
pub struct DispatchBus<W> {
    intake: Vec<Action>,
    registry: Registry<W>,
}

impl<W> DispatchBus<W> {
    /// The actions that wait for the reducer, oldest first.
    pub closed spec fn queue(&self) -> Seq<ActionView> {
        Seq::new(self.intake@.len(), |at: int| self.intake@[at]@)
    }

    /// The registered observers, in the order of their registration.
    pub closed spec fn observers(&self) -> Seq<ObserverView<W>> {
        self.registry@
    }

    /// A bus with nothing queued and nobody waiting.
    pub fn new() -> (bus: DispatchBus<W>)
        ensures
            bus.queue() == Seq::<ActionView>::empty(),
            bus.observers() == Seq::<ObserverView<W>>::empty(),
    {
        let bus = DispatchBus { intake: Vec::new(), registry: Registry::new() };
        assert(bus.queue() =~= Seq::<ActionView>::empty());
        bus
    }

    /// How many actions wait for the reducer.
    pub fn queued(&self) -> (count: usize)
        ensures
            count == self.queue().len(),
    {
        self.intake.len()
    }

    /// How many observers are registered.
    pub fn waiting(&self) -> (count: usize)
        ensures
            count == self.observers().len(),
    {
        self.registry.len()
    }

    /// Whether `action` is queued or watched by a registered observer.
    pub fn holds(&self, action: &Action) -> (found: bool)
        ensures
            found == (self.queue().contains(action@) || watched(self.observers(), action@)),
    {
        let mut at: usize = 0;
        while at < self.intake.len()
            invariant
                at <= self.intake.len(),
                self.queue().len() == self.intake.len(),
                forall|j: int| 0 <= j < at ==> self.queue()[j] != action@,
            decreases self.intake.len() - at,
        {
            if self.intake[at].same(action) {
                assert(self.queue()[at as int] == action@);
                return true;
            }
            at = at + 1;
        }
        self.registry.watches(action)
    }

    /// Hands `action` to the reducer's queue and registers `observer`. The
    /// observer is evaluated against `current`, the snapshot in effect, before
    /// it is retained: an outcome that the table already holds is delivered
    /// at once. The call does not wait for anything.
    pub fn submit(&mut self, action: Action, observer: Observer<W>, current: &State) -> (delivery:
        Option<Delivery<W>>)
        ensures
            final(self).queue() == old(self).queue().push(action@),
            final(self).observers() == if observer@.pending(current@) {
                old(self).observers().push(observer@)
            } else {
                old(self).observers()
            },
            delivery is Some <==> observer@.due(current@),
            delivery matches Some(ready) ==> ready@ == observer@.delivery(current@),
    {
        self.intake.push(action);
        assert(self.queue() =~= old(self).queue().push(action@));
        self.registry.register(observer, current)
    }

    /// Takes the oldest queued action, for the reducer to apply.
    pub fn next_action(&mut self) -> (next: Option<Action>)
        ensures
            final(self).observers() == old(self).observers(),
            next is Some <==> old(self).queue().len() > 0,
            next matches Some(action) ==> action@ == old(self).queue()[0] && final(self).queue()
                == old(self).queue().drop_first(),
            next is None ==> final(self).queue() == old(self).queue(),
    {
        if self.intake.len() == 0 {
            None
        } else {
            let action = self.intake.remove(0);
            assert(self.queue() =~= old(self).queue().drop_first());
            Some(action)
        }
    }

    /// Announces a new snapshot to the observers. Every registered observer
    /// whose outcome the snapshot holds fires, once, and is retired; the
    /// deliveries come back in the observers' order. The queue is untouched.
    pub fn publish(&mut self, snapshot: &State) -> (deliveries: Vec<Delivery<W>>)
        ensures
            final(self).queue() == old(self).queue(),
            final(self).observers() == kept(old(self).observers(), snapshot@),
            delivery_views(deliveries@) == sent(old(self).observers(), snapshot@),
    {
        self.registry.broadcast(snapshot)
    }
}

} // verus!
