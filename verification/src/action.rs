//! Actions and their outcomes: the vocabulary shared by callers, the reducer
//! and the observers.

use crate::ident::RequestId;
use vstd::prelude::*;

verus! {

/// A record found by a lookup.
#[derive(Debug)]
pub struct Record {
    pub content: String,
}

impl View for Record {
    type V = Seq<char>;

    open spec fn view(&self) -> Seq<char> {
        self.content@
    }
}

/// An intent to read or change the shared state. The identifier is part of
/// the action's identity: two actions with the same payload and different
/// identifiers are different actions.
#[derive(Debug)]
pub enum Action {
    Get { key: String, id: RequestId },
    Commit { content: String, id: RequestId },
}

/// What an action is, as a mathematical value.
pub enum ActionView {
    Get { key: Seq<char>, id: RequestId },
    Commit { content: Seq<char>, id: RequestId },
}

impl ActionView {
    /// The identifier the action carries.
    pub open spec fn id(self) -> RequestId {
        match self {
            ActionView::Get { id, .. } => id,
            ActionView::Commit { id, .. } => id,
        }
    }
}

impl View for Action {
    type V = ActionView;

    open spec fn view(&self) -> ActionView {
        match *self {
            Action::Get { key, id } => ActionView::Get { key: key@, id },
            Action::Commit { content, id } => ActionView::Commit { content: content@, id },
        }
    }
}

impl Action {
    /// A lookup of `key`, identified by `id`.
    pub fn get(key: String, id: RequestId) -> (action: Action)
        ensures
            action@ == (ActionView::Get { key: key@, id }),
    {
        Action::Get { key, id }
    }

    /// A commit of `content`, identified by `id`.
    pub fn commit(content: String, id: RequestId) -> (action: Action)
        ensures
            action@ == (ActionView::Commit { content: content@, id }),
    {
        Action::Commit { content, id }
    }

    /// The identifier the action carries.
    pub fn id(&self) -> (id: RequestId)
        ensures
            id == self@.id(),
    {
        match self {
            Action::Get { id, .. } => *id,
            Action::Commit { id, .. } => *id,
        }
    }

    /// Whether two actions are the same request: same kind, same payload and
    /// same identifier.
    pub fn same(&self, other: &Action) -> (same: bool)
        ensures
            same == (self@ == other@),
    {
        match self {
            Action::Get { key, id } => match other {
                Action::Get { key: other_key, id: other_id } => {
                    *key == *other_key && id.same(other_id)
                },
                Action::Commit { .. } => false,
            },
            Action::Commit { content, id } => match other {
                Action::Get { .. } => false,
                Action::Commit { content: other_content, id: other_id } => {
                    *content == *other_content && id.same(other_id)
                },
            },
        }
    }

    /// A copy of the action, identifier included.
    pub fn duplicate(&self) -> (copy: Action)
        ensures
            copy@ == self@,
    {
        match self {
            Action::Get { key, id } => Action::Get { key: key.clone(), id: *id },
            Action::Commit { content, id } => Action::Commit { content: content.clone(), id: *id },
        }
    }
}

/// The result of applying an action.
#[derive(Debug)]
pub enum ActionOutcome {
    /// Outcome of a lookup: the record, or nothing where the key is unknown.
    Get(Option<Record>),
    /// Outcome of a commit: the address of what was stored.
    Commit(String),
    /// The action was applied and failed.
    Failed(String),
}

/// What an outcome is, as a mathematical value.
pub enum OutcomeView {
    Get(Option<Seq<char>>),
    Commit(Seq<char>),
    Failed(Seq<char>),
}

impl View for ActionOutcome {
    type V = OutcomeView;

    open spec fn view(&self) -> OutcomeView {
        match *self {
            ActionOutcome::Get(Some(record)) => OutcomeView::Get(Some(record@)),
            ActionOutcome::Get(None) => OutcomeView::Get(None),
            ActionOutcome::Commit(address) => OutcomeView::Commit(address@),
            ActionOutcome::Failed(reason) => OutcomeView::Failed(reason@),
        }
    }
}

impl ActionOutcome {
    /// A copy of the outcome.
    pub fn duplicate(&self) -> (copy: ActionOutcome)
        ensures
            copy@ == self@,
    {
        match self {
            ActionOutcome::Get(Some(record)) => ActionOutcome::Get(
                Some(Record { content: record.content.clone() }),
            ),
            ActionOutcome::Get(None) => ActionOutcome::Get(None),
            ActionOutcome::Commit(address) => ActionOutcome::Commit(address.clone()),
            ActionOutcome::Failed(reason) => ActionOutcome::Failed(reason.clone()),
        }
    }
}

} // verus!
