//! Logging in: the user's sheet must exist and the password must match;
//! the answer is the account as shown to its owner.
use vstd::prelude::*;
use crate::account::{AccountView, account_sheet};
use crate::text::with_account_suffix;
use super::{
    Action, ActionView, Event, EventView, Reply, ReplyMessage, ReplyView, SheetLookup, shown_account,
    show_account,
};

verus! {

/// The name and password a user logs in with.
pub struct LoginData {
    pub password: String,
    pub username: String,
}

pub struct LoginDataView {
    pub password: Seq<char>,
    pub username: Seq<char>,
}

impl View for LoginData {
    type V = LoginDataView;

    open spec fn view(&self) -> LoginDataView {
        LoginDataView { password: self.password@, username: self.username@ }
    }
}

/// How far a login has come.
#[derive(Debug, Clone, Copy, PartialEq, Eq, Structural)]
pub enum LoginState {
    /// Waiting to hear whether the user's sheet exists.
    AwaitSheet,
    /// Waiting for the user's account.
    AwaitAccount,
    /// Answered.
    Done,
}

/// The first action of a login: look for the sheet `username_ACCOUNT`.
pub open spec fn login_first(d: LoginDataView) -> (LoginState, ActionView) {
    (LoginState::AwaitSheet, ActionView::CheckSheet(account_sheet(d.username)))
}

/// Whether a login in `state` waits for `event`.
pub open spec fn login_waits_for(state: LoginState, event: EventView) -> bool {
    match state {
        LoginState::AwaitSheet => event is SheetChecked,
        LoginState::AwaitAccount => event is AccountLoaded,
        LoginState::Done => false,
    }
}

/// The next state and action of a login: a failed search answers `Failed`;
/// a missing sheet or a wrong password answers that the credentials were
/// incorrect; a found sheet loads the account; a matching password answers
/// the account as shown to its owner.
pub open spec fn login_next(d: LoginDataView, state: LoginState, event: EventView) -> (LoginState, ActionView) {
    match (state, event) {
        (LoginState::AwaitSheet, EventView::SheetChecked(SheetLookup::Failed)) =>
            (LoginState::Done, ActionView::Reply(ReplyView::Message(ReplyMessage::Failed))),
        (LoginState::AwaitSheet, EventView::SheetChecked(SheetLookup::Missing)) =>
            (LoginState::Done, ActionView::Reply(ReplyView::Message(ReplyMessage::IncorrectCredentials))),
        (LoginState::AwaitSheet, EventView::SheetChecked(SheetLookup::Found)) =>
            (LoginState::AwaitAccount, ActionView::LoadAccount(d.username)),
        (LoginState::AwaitAccount, EventView::AccountLoaded(a)) =>
            if a.pass != d.password {
                (LoginState::Done, ActionView::Reply(ReplyView::Message(ReplyMessage::IncorrectCredentials)))
            } else {
                (LoginState::Done, ActionView::Reply(ReplyView::Account(shown_account(a))))
            },
        _ => (LoginState::Done, ActionView::Reply(ReplyView::Message(ReplyMessage::Failed))),
    }
}

impl LoginState {
    /// Whether a login in this state waits for `event`.
    pub fn waits_for(&self, event: &Event) -> (b: bool)
        ensures
            b == login_waits_for(*self, event@),
    {
        match (self, event) {
            (LoginState::AwaitSheet, Event::SheetChecked(_)) => true,
            (LoginState::AwaitAccount, Event::AccountLoaded(_)) => true,
            _ => false,
        }
    }
}

impl LoginData {
    /// Starts a login.
    pub fn begin_login(&self) -> (r: (LoginState, Action))
        ensures
            (r.0, r.1@) == login_first(self@),
    {
        (LoginState::AwaitSheet, Action::CheckSheet(with_account_suffix(self.username.as_str())))
    }

    /// The next state and action of a login, given what the last action found.
    pub fn login_step(&self, state: LoginState, event: Event) -> (r: (LoginState, Action))
        requires
            login_waits_for(state, event@),
        ensures
            (r.0, r.1@) == login_next(self@, state, event@),
    {
        match event {
            Event::SheetChecked(SheetLookup::Failed) => {
                (LoginState::Done, Action::Reply(Reply::Message(ReplyMessage::Failed)))
            },
            Event::SheetChecked(SheetLookup::Missing) => {
                (LoginState::Done, Action::Reply(Reply::Message(ReplyMessage::IncorrectCredentials)))
            },
            Event::SheetChecked(SheetLookup::Found) => {
                (LoginState::AwaitAccount, Action::LoadAccount(self.username.clone()))
            },
            Event::AccountLoaded(a) => {
                if a.pass != self.password {
                    (LoginState::Done, Action::Reply(Reply::Message(ReplyMessage::IncorrectCredentials)))
                } else {
                    (LoginState::Done, Action::Reply(Reply::Account(show_account(a))))
                }
            },
            Event::Saved => {
                (LoginState::Done, Action::Reply(Reply::Message(ReplyMessage::Failed)))
            },
        }
    }
}

/// A login shows an account only to the holder of its password, and never
/// shows the password: whenever a step answers with an account, the account
/// loaded had the password given, and the answer's password is empty.
pub proof fn law_login_shows_account_only_to_owner(d: LoginDataView, state: LoginState, event: EventView)
    requires
        login_waits_for(state, event),
    ensures
        login_next(d, state, event).1 matches ActionView::Reply(ReplyView::Account(shown)) ==> {
            &&& event matches EventView::AccountLoaded(a)
            &&& a.pass == d.password
            &&& shown == shown_account(a)
            &&& shown.pass.len() == 0
        },
{
}

/// A login always takes the spreadsheet's answer to what it asked: after a
/// sheet search it takes every search result, after a load every loaded
/// account; and once it answers it is done.
pub proof fn law_login_takes_every_answer(d: LoginDataView, state: LoginState, event: EventView)
    requires
        login_waits_for(state, event),
    ensures
        forall|l: SheetLookup|
            #![trigger login_waits_for(login_first(d).0, EventView::SheetChecked(l))]
            login_waits_for(login_first(d).0, EventView::SheetChecked(l)),
        ({
            let (next, action) = login_next(d, state, event);
            &&& action is CheckSheet ==> forall|l: SheetLookup|
                #![trigger login_waits_for(next, EventView::SheetChecked(l))]
                login_waits_for(next, EventView::SheetChecked(l))
            &&& action is LoadAccount ==> forall|a: AccountView|
                #![trigger login_waits_for(next, EventView::AccountLoaded(a))]
                login_waits_for(next, EventView::AccountLoaded(a))
            &&& action is Reply ==> next == LoginState::Done
        }),
{
}

/// A login ends after at most two answers from the spreadsheet, and it saves nothing.
pub proof fn law_login_never_saves(d: LoginDataView, state: LoginState, event: EventView)
    requires
        login_waits_for(state, event),
    ensures
        !(login_next(d, state, event).1 is SaveAccounts),
        state == LoginState::AwaitAccount ==> login_next(d, state, event).0 == LoginState::Done,
{
}

} // verus!
