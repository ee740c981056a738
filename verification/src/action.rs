//! What the indexer asks its surroundings to do.
use vstd::prelude::*;

use crate::sql::{Statement, StatementView};
use crate::value;
use crate::value::{Value, ValueView};

verus! {

/// The counters that are shown as progress bars.
#[derive(Clone, Copy, Debug, PartialEq, Eq, Structural)]
pub enum Counter {
    Accounts,
    TokenAccounts,
    MetaplexAccounts,
}

/// Something to do on the database, on a progress bar or in the log.
#[derive(Debug, PartialEq, Eq)]
pub enum Action {
    /// Run a statement.
    Execute(Statement),
    /// Set a pragma of the database.
    Pragma(&'static str, Value),
    /// Move a progress bar.
    SetPosition(Counter, u64),
    /// Log a warning.
    Warn(String),
}

/// What an [`Action`] asks for.
pub enum ActionView {
    Execute(StatementView),
    Pragma(Seq<char>, ValueView),
    SetPosition(Counter, u64),
    Warn(Seq<char>),
}

impl View for Action {
    type V = ActionView;

    open spec fn view(&self) -> ActionView {
        match self {
            Action::Execute(statement) => ActionView::Execute(statement@),
            Action::Pragma(name, value) => ActionView::Pragma(name@, value@),
            Action::SetPosition(counter, position) => ActionView::SetPosition(*counter, *position),
            Action::Warn(text) => ActionView::Warn(text@),
        }
    }
}

/// What the actions of a list ask for.
pub open spec fn actions_view(actions: Seq<Action>) -> Seq<ActionView> {
    actions.map_values(|action: Action| action@)
}

/// Actions are seen as they are, and lists of them in order.
pub proof fn law_actions_are_seen_as_they_are(action: Action, actions: Seq<Action>, i: int)
    ensures
        action matches Action::Execute(statement) ==> action@ == ActionView::Execute(
            StatementView {
                sql: statement.sql@,
                params: value::values_view(statement.params@),
            },
        ),
        action matches Action::Pragma(name, value) ==> action@ == ActionView::Pragma(
            name@,
            value@,
        ),
        action matches Action::SetPosition(counter, position) ==> action@
            == ActionView::SetPosition(counter, position),
        action matches Action::Warn(text) ==> action@ == ActionView::Warn(text@),
        actions_view(actions).len() == actions.len(),
        0 <= i < actions.len() ==> actions_view(actions)[i] == actions[i]@,
{
}

} // verus!
