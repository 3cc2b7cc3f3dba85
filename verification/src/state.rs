//! The state snapshot: the table of every action applied so far and its
//! outcome. An entry is written once and never changes; the table only grows.

use crate::action::{Action, ActionOutcome, ActionView, OutcomeView};
use vstd::prelude::*;

verus! {

/// The table of applied actions, as a mathematical map.
pub type Table = Map<ActionView, OutcomeView>;

/// `newer` holds every entry of `older`, with the same outcome.
pub open spec fn extends(newer: Table, older: Table) -> bool {
    forall|action: ActionView| #[trigger]
        older.contains_key(action) ==> newer.contains_key(action) && newer[action]
            == older[action]
}

/// What recording `outcome` for `action` makes of a table: a new entry where
/// the action had none, and no change where it had one.
pub open spec fn recorded(table: Table, action: ActionView, outcome: OutcomeView) -> Table {
    if table.contains_key(action) {
        table
    } else {
        table.insert(action, outcome)
    }
}

struct Entry {
    action: Action,
    outcome: ActionOutcome,
}

/// An immutable-by-convention snapshot of the application state.
pub struct State {
    entries: Vec<Entry>,
}

/// The table that a list of entries stands for. Where an action occurs twice,
/// its first entry counts.
spec fn table_of(entries: Seq<Entry>) -> Table
    decreases entries.len(),
{
    if entries.len() == 0 {
        Map::empty()
    } else {
        table_of(entries.drop_first()).insert(entries[0].action@, entries[0].outcome@)
    }
}

proof fn lemma_absent(entries: Seq<Entry>, action: ActionView)
    requires
        forall|j: int| 0 <= j < entries.len() ==> (#[trigger] entries[j]).action@ != action,
    ensures
        !table_of(entries).contains_key(action),
    decreases entries.len(),
{
    if entries.len() > 0 {
        let rest = entries.drop_first();
        assert forall|j: int| 0 <= j < rest.len() implies (#[trigger] rest[j]).action@ != action by {
            assert(rest[j] == entries[j + 1]);
        }
        lemma_absent(rest, action);
    }
}

proof fn lemma_first_match(entries: Seq<Entry>, at: int)
    requires
        0 <= at < entries.len(),
        forall|j: int| 0 <= j < at ==> (#[trigger] entries[j]).action@ != entries[at].action@,
    ensures
        table_of(entries).contains_key(entries[at].action@),
        table_of(entries)[entries[at].action@] == entries[at].outcome@,
    decreases at,
{
    if at > 0 {
        let rest = entries.drop_first();
        let target = entries[at].action@;
        assert(rest[at - 1] == entries[at]);
        assert forall|j: int| 0 <= j < at - 1 implies (#[trigger] rest[j]).action@ != target by {
            assert(rest[j] == entries[j + 1]);
        }
        lemma_first_match(rest, at - 1);
    }
}

proof fn lemma_push(entries: Seq<Entry>, entry: Entry)
    ensures
        table_of(entries.push(entry)) == recorded(
            table_of(entries),
            entry.action@,
            entry.outcome@,
        ),
    decreases entries.len(),
{
    let longer = entries.push(entry);
    if entries.len() == 0 {
        assert(longer.drop_first() =~= Seq::<Entry>::empty());
        assert(table_of(longer.drop_first()) == Table::empty());
        assert(table_of(longer) =~= Table::empty().insert(entry.action@, entry.outcome@));
    } else {
        let rest = entries.drop_first();
        assert(longer.drop_first() =~= rest.push(entry));
        assert(longer[0] == entries[0]);
        lemma_push(rest, entry);
        assert(table_of(longer) =~= recorded(table_of(entries), entry.action@, entry.outcome@));
    }
}

impl View for State {
    type V = Table;

    closed spec fn view(&self) -> Table {
        table_of(self.entries@)
    }
}

impl State {
    /// The state before any action was applied.
    pub fn new() -> (state: State)
        ensures
            state@ == Table::empty(),
    {
        State { entries: Vec::new() }
    }

    /// The outcome recorded for `action`, if it was applied.
    pub fn lookup(&self, action: &Action) -> (found: Option<&ActionOutcome>)
        ensures
            found is Some <==> self@.contains_key(action@),
            found matches Some(outcome) ==> outcome@ == self@[action@],
    {
        let mut at: usize = 0;
        while at < self.entries.len()
            invariant
                at <= self.entries.len(),
                forall|j: int| 0 <= j < at ==> (#[trigger] self.entries[j]).action@ != action@,
            decreases self.entries.len() - at,
        {
            if self.entries[at].action.same(action) {
                proof {
                    lemma_first_match(self.entries@, at as int);
                }
                return Some(&self.entries[at].outcome);
            }
            at = at + 1;
        }
        proof {
            lemma_absent(self.entries@, action@);
        }
        None
    }

    /// Whether `action` was applied.
    pub fn contains(&self, action: &Action) -> (applied: bool)
        ensures
            applied == self@.contains_key(action@),
    {
        self.lookup(action).is_some()
    }

    /// Records the outcome of applying `action`. An action that already has an
    /// entry keeps it: the call then changes nothing and returns `false`.
    pub fn record(&mut self, action: Action, outcome: ActionOutcome) -> (added: bool)
        ensures
            added == !old(self)@.contains_key(action@),
            final(self)@ == recorded(old(self)@, action@, outcome@),
            extends(final(self)@, old(self)@),
    {
        if self.contains(&action) {
            false
        } else {
            let entry = Entry { action, outcome };
            proof {
                lemma_push(self.entries@, entry);
            }
            self.entries.push(entry);
            true
        }
    }

    /// A copy of the snapshot.
    pub fn duplicate(&self) -> (copy: State)
        ensures
            copy@ == self@,
    {
        let mut entries: Vec<Entry> = Vec::new();
        let mut at: usize = 0;
        while at < self.entries.len()
            invariant
                at <= self.entries.len(),
                table_of(entries@) == table_of(self.entries@.take(at as int)),
            decreases self.entries.len() - at,
        {
            let entry = Entry {
                action: self.entries[at].action.duplicate(),
                outcome: self.entries[at].outcome.duplicate(),
            };
            proof {
                lemma_push(entries@, entry);
                lemma_push(self.entries@.take(at as int), self.entries[at as int]);
                assert(self.entries@.take(at as int).push(self.entries[at as int])
                    =~= self.entries@.take(at + 1));
            }
            entries.push(entry);
            at = at + 1;
        }
        assert(self.entries@.take(at as int) =~= self.entries@);
        State { entries }
    }
}

} // verus!
