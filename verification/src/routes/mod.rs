//! The decisions of the web services: what to look up, load or save next,
//! and what to answer, given what the spreadsheet returned so far.
pub mod leaderboard;
pub mod login;
pub mod transfer;

use vstd::prelude::*;
use crate::account::{Account, AccountView, HistoryEntry, history_view};

verus! {

/// The messages a service answers with.
#[derive(Debug, Clone, Copy, PartialEq, Eq, Structural)]
pub enum ReplyMessage {
    /// The spreadsheet could not be asked.
    Failed,
    /// No such user, or the wrong password.
    IncorrectCredentials,
    /// The spreadsheet could not be asked about the destination.
    SheetsUnavailable,
    /// The destination of a transfer names no sheet.
    InvalidDestination,
    /// A transfer of zero or fewer points.
    AmountNotPositive,
    /// A transfer of less than a hundredth of a point.
    AmountTooSmall,
}

/// The JSON body of a message.
pub open spec fn reply_message_json(m: ReplyMessage) -> Seq<char> {
    match m {
        ReplyMessage::Failed => "{\"message\": \"Failed\"}"@,
        ReplyMessage::IncorrectCredentials => "{\"message\": \"Username or password was incorrect\"}"@,
        ReplyMessage::SheetsUnavailable => "{\"message\": \"There is an issue with google sheets, please try again in a few moments!\"}"@,
        ReplyMessage::InvalidDestination => "{\"message\": \"The destination is not valid\"}"@,
        ReplyMessage::AmountNotPositive => "{\"message\": \"Transfer amount cannot be below 0! Nice try.\"}"@,
        ReplyMessage::AmountTooSmall => "{\"message\": \"Transfer amount cannot be below 0.01!\"}"@,
    }
}

impl ReplyMessage {
    /// The JSON body of the message.
    pub fn json(&self) -> (r: &'static str)
        ensures
            r@ == reply_message_json(*self),
    {
        match self {
            ReplyMessage::Failed => "{\"message\": \"Failed\"}",
            ReplyMessage::IncorrectCredentials => "{\"message\": \"Username or password was incorrect\"}",
            ReplyMessage::SheetsUnavailable => "{\"message\": \"There is an issue with google sheets, please try again in a few moments!\"}",
            ReplyMessage::InvalidDestination => "{\"message\": \"The destination is not valid\"}",
            ReplyMessage::AmountNotPositive => "{\"message\": \"Transfer amount cannot be below 0! Nice try.\"}",
            ReplyMessage::AmountTooSmall => "{\"message\": \"Transfer amount cannot be below 0.01!\"}",
        }
    }
}

/// What a service answers: a message, or an account shown to its owner.
pub enum Reply {
    Message(ReplyMessage),
    Account(Account),
}

pub enum ReplyView {
    Message(ReplyMessage),
    Account(AccountView),
}

impl View for Reply {
    type V = ReplyView;

    open spec fn view(&self) -> ReplyView {
        match self {
            Reply::Message(m) => ReplyView::Message(*m),
            Reply::Account(a) => ReplyView::Account(a@),
        }
    }
}

/// What a search for a sheet found.
#[derive(Debug, Clone, Copy, PartialEq, Eq, Structural)]
pub enum SheetLookup {
    Found,
    Missing,
    Failed,
}

/// The next thing a service asks of the spreadsheet, or its answer.
pub enum Action {
    /// Look for the sheet with this title.
    CheckSheet(String),
    /// Load the account of this name.
    LoadAccount(String),
    /// Store both accounts, the first one first.
    SaveAccounts(Account, Account),
    /// Answer and stop.
    Reply(Reply),
}

pub enum ActionView {
    CheckSheet(Seq<char>),
    LoadAccount(Seq<char>),
    SaveAccounts(AccountView, AccountView),
    Reply(ReplyView),
}

impl View for Action {
    type V = ActionView;

    open spec fn view(&self) -> ActionView {
        match self {
            Action::CheckSheet(s) => ActionView::CheckSheet(s@),
            Action::LoadAccount(s) => ActionView::LoadAccount(s@),
            Action::SaveAccounts(a, b) => ActionView::SaveAccounts(a@, b@),
            Action::Reply(r) => ActionView::Reply(r@),
        }
    }
}

/// What the spreadsheet answered to the last action.
pub enum Event {
    SheetChecked(SheetLookup),
    AccountLoaded(Account),
    Saved,
}

pub enum EventView {
    SheetChecked(SheetLookup),
    AccountLoaded(AccountView),
    Saved,
}

impl View for Event {
    type V = EventView;

    open spec fn view(&self) -> EventView {
        match self {
            Event::SheetChecked(l) => EventView::SheetChecked(*l),
            Event::AccountLoaded(a) => EventView::AccountLoaded(a@),
            Event::Saved => EventView::Saved,
        }
    }
}

/// An account as shown to its owner: without its password, newest change first.
pub open spec fn shown_account(a: AccountView) -> AccountView {
    AccountView { pass: Seq::empty(), history: a.history.reverse(), ..a }
}

/// An account shown to its owner keeps its name, points and currency, has
/// an empty password, and lists the same changes in the opposite order: the
/// `k`-th shown change is the `k`-th newest one.
pub proof fn law_shown_account_reverses_history(a: AccountView)
    ensures
        shown_account(a).name == a.name,
        shown_account(a).points == a.points,
        shown_account(a).currency == a.currency,
        shown_account(a).pass.len() == 0,
        shown_account(a).history.len() == a.history.len(),
        forall|k: int|
            0 <= k < a.history.len() ==> #[trigger] shown_account(a).history[k] == a.history[a.history.len()
                - 1 - k],
{
}

/// The account as shown to its owner: the password emptied, the history
/// reversed so that the newest change comes first.
pub fn show_account(a: Account) -> (r: Account)
    ensures
        r@ == shown_account(a@),
{
    let ghost given = a@;
    let Account { name, points, currency, pass: _, history } = a;
    let mut rest = history;
    let mut reversed: Vec<HistoryEntry> = Vec::new();
    while rest.len() > 0
        invariant
            history_view(reversed@) + history_view(rest@).reverse() == given.history.reverse(),
        decreases rest@.len(),
    {
        let ghost before_rest = rest@;
        let ghost before_rev = reversed@;
        let e = rest.pop().unwrap();
        reversed.push(e);
        proof {
            assert(before_rest =~= rest@.push(e));
            assert(history_view(before_rest) =~= history_view(rest@).push(e@));
            assert(history_view(before_rest).reverse() =~= seq![e@] + history_view(rest@).reverse());
            assert(history_view(reversed@) =~= history_view(before_rev).push(e@));
            assert(history_view(reversed@) + history_view(rest@).reverse() =~= history_view(before_rev)
                + history_view(before_rest).reverse());
        }
    }
    assert(history_view(rest@).reverse() =~= Seq::<crate::account::HistoryEntryView>::empty());
    assert(history_view(reversed@) =~= given.history.reverse());
    Account { name, points, currency, pass: String::new(), history: reversed }
}

} // verus!
