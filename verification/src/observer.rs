//! Observer synchronization: a caller registers interest in the outcome of
//! one action; each time the state changes, the registry hands out the
//! deliveries that are due and retires the observers that received theirs.

use crate::action::{Action, ActionOutcome, ActionView, OutcomeView};
use crate::ident::RequestId;
use crate::state::{extends, recorded, State, Table};
use vstd::prelude::*;

verus! {

/// An outcome on its way to the caller that waits for it. `W` is the sending
/// end of the caller's one-shot channel; the registry carries it and never
/// looks inside.
pub struct Delivery<W> {
    pub waiter: W,
    pub outcome: ActionOutcome,
}

/// A delivery as a mathematical value.
pub struct DeliveryView<W> {
    pub waiter: W,
    pub outcome: OutcomeView,
}

impl<W> View for Delivery<W> {
    type V = DeliveryView<W>;

    open spec fn view(&self) -> DeliveryView<W> {
        DeliveryView { waiter: self.waiter, outcome: self.outcome@ }
    }
}

/// A watch condition with the channel to signal: "fire when the table holds
/// an outcome for this action". It is Registered while it holds its waiter
/// and Fired, for good, once it has given the waiter away.
pub struct Observer<W> {
    watched: Action,
    waiter: Option<W>,
}

/// An observer as a mathematical value. `waiter` is `None` once it has fired.
pub struct ObserverView<W> {
    pub watched: ActionView,
    pub waiter: Option<W>,
}

impl<W> ObserverView<W> {
    /// The observer that a caller registers for the outcome of `action`.
    pub open spec fn registered(action: ActionView, waiter: W) -> ObserverView<W> {
        ObserverView { watched: action, waiter: Some(waiter) }
    }

    /// The observer has fired.
    pub open spec fn fired(self) -> bool {
        self.waiter is None
    }

    /// The observer is registered and `table` holds the outcome it waits for.
    pub open spec fn due(self, table: Table) -> bool {
        self.waiter is Some && table.contains_key(self.watched)
    }

    /// The observer is registered and `table` does not hold its outcome yet.
    pub open spec fn pending(self, table: Table) -> bool {
        self.waiter is Some && !table.contains_key(self.watched)
    }

    /// What is delivered when the observer fires on `table`.
    pub open spec fn delivery(self, table: Table) -> DeliveryView<W> {
        DeliveryView { waiter: self.waiter->0, outcome: table[self.watched] }
    }

    /// The observer after one evaluation against `table`.
    pub open spec fn evaluated(self, table: Table) -> ObserverView<W> {
        if self.due(table) {
            ObserverView { watched: self.watched, waiter: None }
        } else {
            self
        }
    }
}

impl<W> View for Observer<W> {
    type V = ObserverView<W>;

    closed spec fn view(&self) -> ObserverView<W> {
        ObserverView { watched: self.watched@, waiter: self.waiter }
    }
}

impl<W> Observer<W> {
    /// A registered observer that waits for the outcome of `watched`.
    pub fn new(watched: Action, waiter: W) -> (observer: Observer<W>)
        ensures
            observer@ == (ObserverView { watched: watched@, waiter: Some(waiter) }),
    {
        Observer { watched, waiter: Some(waiter) }
    }

    /// Whether the observer has fired.
    pub fn is_fired(&self) -> (fired: bool)
        ensures
            fired == self@.fired(),
    {
        self.waiter.is_none()
    }

    /// Whether an evaluation against `snapshot` would fire the observer.
    pub fn is_due(&self, snapshot: &State) -> (due: bool)
        ensures
            due == self@.due(snapshot@),
    {
        self.waiter.is_some() && snapshot.contains(&self.watched)
    }

    /// Evaluates the observer against `snapshot`. A registered observer whose
    /// outcome is in the table fires: it gives up its waiter together with
    /// that outcome. In every other case nothing is delivered and the
    /// observer stays as it was; a fired observer never delivers again.
    pub fn evaluate(&mut self, snapshot: &State) -> (delivery: Option<Delivery<W>>)
        ensures
            final(self)@ == old(self)@.evaluated(snapshot@),
            delivery is Some <==> old(self)@.due(snapshot@),
            delivery matches Some(sent) ==> sent@ == old(self)@.delivery(snapshot@),
    {
        if self.waiter.is_none() {
            return None;
        }
        match snapshot.lookup(&self.watched) {
            None => None,
            Some(found) => {
                let outcome = found.duplicate();
                match self.waiter.take() {
                    Some(waiter) => Some(Delivery { waiter, outcome }),
                    None => None,
                }
            },
        }
    }
}

/// The observers of a list that stay registered after a broadcast of `table`,
/// in their order.
pub open spec fn kept<W>(observers: Seq<ObserverView<W>>, table: Table) -> Seq<ObserverView<W>>
    decreases observers.len(),
{
    if observers.len() == 0 {
        Seq::empty()
    } else if observers.last().pending(table) {
        kept(observers.drop_last(), table).push(observers.last())
    } else {
        kept(observers.drop_last(), table)
    }
}

/// The deliveries that a broadcast of `table` makes to a list of observers,
/// in the observers' order.
pub open spec fn sent<W>(observers: Seq<ObserverView<W>>, table: Table) -> Seq<DeliveryView<W>>
    decreases observers.len(),
{
    if observers.len() == 0 {
        Seq::empty()
    } else if observers.last().due(table) {
        sent(observers.drop_last(), table).push(observers.last().delivery(table))
    } else {
        sent(observers.drop_last(), table)
    }
}

/// An observer fires at most once: after the evaluation on which it fired it
/// is Fired, it is due on no table whatever, and further evaluations neither
/// deliver nor change it.
pub proof fn lemma_fires_at_most_once<W>(observer: ObserverView<W>, first: Table, second: Table)
    ensures
        observer.due(first) ==> observer.evaluated(first).fired(),
        observer.evaluated(first).fired() ==> !observer.evaluated(first).due(second),
        observer.evaluated(first).fired() ==> observer.evaluated(first).evaluated(second)
            == observer.evaluated(first),
{
}

/// An observer that is registered only after its action was applied fires at
/// registration: it is due on the snapshot in effect, and what it delivers is
/// the outcome recorded for its action.
pub proof fn lemma_late_registration_fires<W>(
    table: Table,
    action: ActionView,
    outcome: OutcomeView,
    waiter: W,
)
    ensures
        ObserverView::registered(action, waiter).due(recorded(table, action, outcome)),
        !ObserverView::registered(action, waiter).pending(recorded(table, action, outcome)),
        !table.contains_key(action) ==> ObserverView::registered(action, waiter).delivery(
            recorded(table, action, outcome),
        ) == (DeliveryView { waiter, outcome }),
{
}

/// Two requests with the same payload and different identifiers are different
/// actions, and their observers do not cross: the outcome of the second never
/// makes the observer of the first due, never changes what it delivers, and
/// the observer of the first delivers the outcome recorded for the first.
pub proof fn lemma_requests_do_not_cross<W>(
    table: Table,
    key: Seq<char>,
    first: RequestId,
    second: RequestId,
    waiter: W,
    first_outcome: OutcomeView,
    second_outcome: OutcomeView,
)
    requires
        first != second,
    ensures
        (ActionView::Get { key, id: first }) != (ActionView::Get { key, id: second }),
        ObserverView::registered(ActionView::Get { key, id: first }, waiter).due(
            recorded(table, ActionView::Get { key, id: second }, second_outcome),
        ) == ObserverView::registered(ActionView::Get { key, id: first }, waiter).due(table),
        ObserverView::registered(ActionView::Get { key, id: first }, waiter).delivery(
            recorded(table, ActionView::Get { key, id: second }, second_outcome),
        ) == ObserverView::registered(ActionView::Get { key, id: first }, waiter).delivery(table),
        !table.contains_key(ActionView::Get { key, id: first }) ==> ObserverView::registered(
            ActionView::Get { key, id: first },
            waiter,
        ).delivery(
            recorded(
                recorded(table, ActionView::Get { key, id: second }, second_outcome),
                ActionView::Get { key, id: first },
                first_outcome,
            ),
        ) == (DeliveryView { waiter, outcome: first_outcome }),
{
}

/// A broadcast retires what it fires: the observers it keeps are all
/// registered and none of them is due on the same table, so repeating the
/// broadcast delivers nothing and keeps the same observers.
pub proof fn lemma_broadcast_retires<W>(observers: Seq<ObserverView<W>>, table: Table)
    ensures
        forall|at: int|
            0 <= at < kept(observers, table).len() ==> (#[trigger] kept(
                observers,
                table,
            )[at]).pending(table),
        sent(kept(observers, table), table) == Seq::<DeliveryView<W>>::empty(),
        kept(kept(observers, table), table) == kept(observers, table),
        kept(observers, table).len() + sent(observers, table).len() <= observers.len(),
    decreases observers.len(),
{
    if observers.len() > 0 {
        let before = observers.drop_last();
        lemma_broadcast_retires(before, table);
        if observers.last().pending(table) {
            let remaining = kept(observers, table);
            assert(remaining.drop_last() =~= kept(before, table));
            assert(remaining.last() == observers.last());
        }
    }
}

/// Over two snapshots of which the later extends the earlier, every observer
/// is delivered to once: what a broadcast of the later snapshot sends to the
/// observers kept by the earlier broadcast is what the later snapshot alone
/// would have sent, less what the earlier broadcast sent already.
pub proof fn lemma_each_observer_delivered_once<W>(
    observers: Seq<ObserverView<W>>,
    earlier: Table,
    later: Table,
)
    requires
        extends(later, earlier),
    ensures
        kept(kept(observers, earlier), later) == kept(observers, later),
        sent(observers, later).len() == sent(observers, earlier).len() + sent(
            kept(observers, earlier),
            later,
        ).len(),
    decreases observers.len(),
{
    if observers.len() > 0 {
        let before = observers.drop_last();
        let last = observers.last();
        lemma_each_observer_delivered_once(before, earlier, later);
        if last.waiter is Some && earlier.contains_key(last.watched) {
            assert(later.contains_key(last.watched));
        }
        if last.pending(earlier) {
            let remaining = kept(observers, earlier);
            assert(remaining.drop_last() =~= kept(before, earlier));
            assert(remaining.last() == last);
        }
    }
}

/// Whether one of `observers`, still registered, watches `action`.
pub open spec fn watched<W>(observers: Seq<ObserverView<W>>, action: ActionView) -> bool {
    exists|at: int|
        0 <= at < observers.len() && (#[trigger] observers[at]).waiter is Some
            && observers[at].watched == action
}

/// No two of `observers` that are still registered watch the same action.
pub open spec fn watches_apart<W>(observers: Seq<ObserverView<W>>) -> bool {
    forall|i: int, j: int|
        0 <= i < j < observers.len() && (#[trigger] observers[i]).waiter is Some && (
        #[trigger] observers[j]).waiter is Some ==> observers[i].watched != observers[j].watched
}

/// A request stays watched until its outcome is in the table: a broadcast
/// retires an observer only where the table holds the watched action.
pub proof fn lemma_watch_survives_broadcast<W>(
    observers: Seq<ObserverView<W>>,
    table: Table,
    action: ActionView,
)
    ensures
        watched(observers, action) ==> table.contains_key(action) || watched(
            kept(observers, table),
            action,
        ),
        watched(kept(observers, table), action) ==> watched(observers, action),
        watches_apart(observers) ==> watches_apart(kept(observers, table)),
    decreases observers.len(),
{
    if observers.len() > 0 {
        let before = observers.drop_last();
        let last = observers.last();
        let rest = kept(before, table);
        let remaining = kept(observers, table);
        lemma_watch_survives_broadcast(before, table, action);
        lemma_watch_survives_broadcast(before, table, last.watched);
        assert forall|at: int| 0 <= at < before.len() implies before[at] == observers[at] by {}
        assert forall|at: int| 0 <= at < rest.len() implies rest[at] == remaining[at] by {}
        assert(observers[observers.len() - 1] == last);
        if last.pending(table) {
            assert(remaining[remaining.len() - 1] == last);
        }
        if watched(before, action) && !table.contains_key(action) {
            assert(watched(rest, action));
        }
        if watches_apart(observers) {
            assert(watches_apart(before));
            if last.pending(table) && watched(rest, last.watched) {
                assert(watched(before, last.watched));
            }
        }
    }
}

/// The views of a list of deliveries.
pub open spec fn delivery_views<W>(deliveries: Seq<Delivery<W>>) -> Seq<DeliveryView<W>> {
    Seq::new(deliveries.len(), |at: int| deliveries[at]@)
}

/// The registered observers, in the order of their registration.
pub struct Registry<W> {
    observers: Vec<Observer<W>>,
}

impl<W> View for Registry<W> {
    type V = Seq<ObserverView<W>>;

    closed spec fn view(&self) -> Seq<ObserverView<W>> {
        Seq::new(self.observers@.len(), |at: int| self.observers@[at]@)
    }
}

impl<W> Registry<W> {
    /// A registry without observers.
    pub fn new() -> (registry: Registry<W>)
        ensures
            registry@ == Seq::<ObserverView<W>>::empty(),
    {
        let registry = Registry { observers: Vec::new() };
        assert(registry@ =~= Seq::<ObserverView<W>>::empty());
        registry
    }

    /// How many observers are registered.
    pub fn len(&self) -> (count: usize)
        ensures
            count == self@.len(),
    {
        self.observers.len()
    }

    /// Whether a registered observer watches `action`.
    pub fn watches(&self, action: &Action) -> (found: bool)
        ensures
            found == watched(self@, action@),
    {
        let mut at: usize = 0;
        while at < self.observers.len()
            invariant
                at <= self.observers.len(),
                self@.len() == self.observers.len(),
                forall|j: int|
                    0 <= j < at ==> !((#[trigger] self@[j]).waiter is Some && self@[j].watched
                        == action@),
            decreases self.observers.len() - at,
        {
            if !self.observers[at].is_fired() && self.observers[at].watched.same(action) {
                assert(self@[at as int].waiter is Some && self@[at as int].watched == action@);
                return true;
            }
            at = at + 1;
        }
        false
    }

    /// Registers `observer`, after evaluating it against the snapshot in
    /// effect: where `current` already holds its outcome, the delivery is
    /// handed back at once and the observer is not retained. An observer
    /// that has fired before is not retained either.
    pub fn register(&mut self, observer: Observer<W>, current: &State) -> (delivery: Option<
        Delivery<W>,
    >)
        ensures
            delivery is Some <==> observer@.due(current@),
            delivery matches Some(sent) ==> sent@ == observer@.delivery(current@),
            final(self)@ == if observer@.pending(current@) {
                old(self)@.push(observer@)
            } else {
                old(self)@
            },
    {
        let mut observer = observer;
        let delivery = observer.evaluate(current);
        if !observer.is_fired() {
            self.observers.push(observer);
            assert(self@ =~= old(self)@.push(observer@));
        } else {
            assert(self@ =~= old(self)@);
        }
        delivery
    }

    /// Evaluates every registered observer against the new snapshot. Those
    /// whose outcome it holds fire, each once, and leave the registry; the
    /// others stay, in their order.
    pub fn broadcast(&mut self, snapshot: &State) -> (deliveries: Vec<Delivery<W>>)
        ensures
            final(self)@ == kept(old(self)@, snapshot@),
            delivery_views(deliveries@) == sent(old(self)@, snapshot@),
    {
        let mut deliveries: Vec<Delivery<W>> = Vec::new();
        let mut at: usize = 0;
        let ghost mut seen: int = 0;
        let ghost before = self@;
        let ghost table = snapshot@;
        assert(self@.take(0) =~= kept(before.take(0), table));
        assert(delivery_views(deliveries@) =~= sent(before.take(0), table));
        assert(self@.skip(0) =~= before.skip(0));
        while at < self.observers.len()
            invariant
                table == snapshot@,
                at <= self.observers.len(),
                0 <= seen <= before.len(),
                self@.len() == self.observers.len(),
                self@.take(at as int) == kept(before.take(seen), table),
                self@.skip(at as int) == before.skip(seen),
                delivery_views(deliveries@) == sent(before.take(seen), table),
            decreases self.observers.len() - at,
        {
            let ghost earlier = self@;
            let ghost current = self@[at as int];
            assert(earlier.skip(at as int).len() == before.skip(seen).len());
            assert(current == earlier.skip(at as int)[0]);
            assert(before.skip(seen)[0] == before[seen]);
            assert(before.take(seen + 1).drop_last() =~= before.take(seen));
            assert(before.take(seen + 1).last() == current);
            if self.observers[at].is_due(snapshot) {
                let mut observer = self.observers.remove(at);
                let ghost sent_before = delivery_views(deliveries@);
                match observer.evaluate(snapshot) {
                    Some(delivery) => {
                        deliveries.push(delivery);
                        assert(delivery_views(deliveries@) =~= sent_before.push(delivery@));
                    },
                    None => {},
                }
                assert(self@.take(at as int) =~= earlier.take(at as int));
                assert(self@.skip(at as int) =~= earlier.skip(at as int).skip(1));
                assert(before.skip(seen).skip(1) =~= before.skip(seen + 1));
            } else if self.observers[at].is_fired() {
                let _ = self.observers.remove(at);
                assert(self@.take(at as int) =~= earlier.take(at as int));
                assert(self@.skip(at as int) =~= earlier.skip(at as int).skip(1));
                assert(before.skip(seen).skip(1) =~= before.skip(seen + 1));
            } else {
                assert(self@.take(at + 1) =~= earlier.take(at as int).push(current));
                assert(self@.skip(at + 1) =~= earlier.skip(at as int).skip(1));
                assert(before.skip(seen).skip(1) =~= before.skip(seen + 1));
                at = at + 1;
            }
            proof {
                seen = seen + 1;
            }
        }
        assert(self@.take(at as int) =~= self@);
        assert(self@.skip(at as int).len() == 0);
        assert(before.take(seen) =~= before);
        deliveries
    }
}

} // verus!
