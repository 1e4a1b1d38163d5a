//! Transferring points: the sender must log in, the destination sheet must
//! exist; when it is an account's sheet, the points move and both accounts
//! record the change.
use vstd::prelude::*;
use crate::account::{Account, AccountView, HistoryEntry, HistoryEntryView, account_sheet, history_view};
use crate::text::{
    drop_eight_bytes, drop_last_eight_bytes, ends_with_account_suffix, has_account_suffix,
    lemma_drop_account_suffix, lemma_split_account_suffix, with_account_suffix,
};
use vstd::utf8::encode_utf8;
use super::login::{LoginData, LoginDataView};
use super::{
    Action, ActionView, Event, EventView, Reply, ReplyMessage, ReplyView, SheetLookup, shown_account,
    show_account,
};

verus! {

/// A request to move `amount` points from the authenticated user to the
/// sheet titled `destination`.
pub struct TransferData {
    pub amount: i32,
    pub destination: String,
    pub authentication: LoginData,
}

pub struct TransferDataView {
    pub amount: i32,
    pub destination: Seq<char>,
    pub authentication: LoginDataView,
}

impl View for TransferData {
    type V = TransferDataView;

    open spec fn view(&self) -> TransferDataView {
        TransferDataView {
            amount: self.amount,
            destination: self.destination@,
            authentication: self.authentication@,
        }
    }
}

/// The name of the account whose points never decrease when it sends.
pub open spec fn unlimited_sender() -> Seq<char> {
    "rudy"@
}

/// The event names of the two sides of a transfer.
pub open spec fn send_event() -> Seq<char> {
    "transfer_send"@
}

pub open spec fn receive_event() -> Seq<char> {
    "transfer_receive"@
}

/// Whether moving `amount` points stays within `i32`: the destination's new
/// points, the sender's new points (unless the sender is unlimited), and the
/// sender's recorded difference `-amount`.
pub open spec fn transfer_fits(source: AccountView, dest: AccountView, amount: i32) -> bool {
    &&& i32::MIN <= dest.points + amount <= i32::MAX
    &&& amount != i32::MIN
    &&& (source.name != unlimited_sender() ==> i32::MIN <= source.points - amount <= i32::MAX)
}

/// The sender after a transfer: `amount` fewer points unless it is the
/// unlimited sender, and a `transfer_send` entry of `-amount` from its old to
/// its new points.
pub open spec fn sender_after(source: AccountView, amount: i32) -> AccountView {
    let points = if source.name == unlimited_sender() { source.points as int } else { source.points - amount };
    AccountView {
        points: points as i32,
        history: source.history.push(
            HistoryEntryView {
                event_name: send_event(),
                difference: (-amount) as i32,
                prev_bal: source.points,
                post_bal: points as i32,
            },
        ),
        ..source
    }
}

/// The destination after a transfer: `amount` more points, and a
/// `transfer_receive` entry of `amount` from its old to its new points.
pub open spec fn receiver_after(dest: AccountView, amount: i32) -> AccountView {
    let points = (dest.points + amount) as i32;
    AccountView {
        points: points,
        history: dest.history.push(
            HistoryEntryView {
                event_name: receive_event(),
                difference: amount,
                prev_bal: dest.points,
                post_bal: points,
            },
        ),
        ..dest
    }
}

/// Whether `amount` points can move from `source` to `dest` within `i32`.
pub fn transfer_fits_exec(source: &Account, dest: &Account, amount: i32) -> (b: bool)
    ensures
        b == transfer_fits(source@, dest@, amount),
{
    let rudy = String::from_str("rudy");
    let d = dest.points as i64 + amount as i64;
    if d < i32::MIN as i64 || d > i32::MAX as i64 || amount == i32::MIN {
        return false;
    }
    if source.name != rudy {
        let s = source.points as i64 - amount as i64;
        if s < i32::MIN as i64 || s > i32::MAX as i64 {
            return false;
        }
    }
    true
}

/// Moves `amount` points from `source` to `dest`, and records the change in
/// both histories.
pub fn apply_transfer(source: &mut Account, dest: &mut Account, amount: i32)
    requires
        transfer_fits(old(source)@, old(dest)@, amount),
    ensures
        final(source)@ == sender_after(old(source)@, amount),
        final(dest)@ == receiver_after(old(dest)@, amount),
{
    let prev_bal = source.points;
    let dest_prev_bal = dest.points;
    dest.points = dest.points + amount;
    let rudy = String::from_str("rudy");
    if source.name != rudy {
        source.points = source.points - amount;
    }
    let received = HistoryEntry {
        event_name: String::from_str("transfer_receive"),
        prev_bal: dest_prev_bal,
        post_bal: dest.points,
        difference: amount,
    };
    let ghost dest_history = dest.history@;
    dest.history.push(received);
    let sent = HistoryEntry {
        event_name: String::from_str("transfer_send"),
        prev_bal,
        post_bal: source.points,
        difference: -amount,
    };
    let ghost source_history = source.history@;
    source.history.push(sent);
    proof {
        assert(history_view(dest.history@) =~= history_view(dest_history).push(received@));
        assert(history_view(source.history@) =~= history_view(source_history).push(sent@));
    }
}


/// How far a transfer has come; the states after the sender logged in hold
/// the sender's account.
pub enum TransferState {
    /// Waiting to hear whether the sender's sheet exists.
    AwaitSourceSheet,
    /// Waiting for the sender's account.
    AwaitSource,
    /// Waiting to hear whether the destination's sheet exists.
    AwaitDestinationSheet(Account),
    /// Waiting for the destination's account.
    AwaitDestination(Account),
    /// Waiting for both accounts to be stored.
    AwaitSaved(Account),
    /// Answered.
    Done,
}

pub enum TransferStateView {
    AwaitSourceSheet,
    AwaitSource,
    AwaitDestinationSheet(AccountView),
    AwaitDestination(AccountView),
    AwaitSaved(AccountView),
    Done,
}

impl View for TransferState {
    type V = TransferStateView;

    open spec fn view(&self) -> TransferStateView {
        match self {
            TransferState::AwaitSourceSheet => TransferStateView::AwaitSourceSheet,
            TransferState::AwaitSource => TransferStateView::AwaitSource,
            TransferState::AwaitDestinationSheet(a) => TransferStateView::AwaitDestinationSheet(a@),
            TransferState::AwaitDestination(a) => TransferStateView::AwaitDestination(a@),
            TransferState::AwaitSaved(a) => TransferStateView::AwaitSaved(a@),
            TransferState::Done => TransferStateView::Done,
        }
    }
}

/// The first action of a transfer: look for the sheet `username_ACCOUNT` of the sender.
pub open spec fn transfer_first(d: TransferDataView) -> (TransferStateView, ActionView) {
    (TransferStateView::AwaitSourceSheet, ActionView::CheckSheet(account_sheet(d.authentication.username)))
}

/// Whether a transfer in `state` waits for `event`; the destination's account
/// must leave the moved points within `i32`.
pub open spec fn transfer_waits_for(d: TransferDataView, state: TransferStateView, event: EventView) -> bool {
    match state {
        TransferStateView::AwaitSourceSheet => event is SheetChecked,
        TransferStateView::AwaitSource => event is AccountLoaded,
        TransferStateView::AwaitDestinationSheet(_) => event is SheetChecked,
        TransferStateView::AwaitDestination(source) => match event {
            EventView::AccountLoaded(dest) => transfer_fits(source, dest, d.amount),
            _ => false,
        },
        TransferStateView::AwaitSaved(_) => event is Saved,
        TransferStateView::Done => false,
    }
}

/// The next state and action of a transfer.
pub open spec fn transfer_next(d: TransferDataView, state: TransferStateView, event: EventView) -> (
    TransferStateView,
    ActionView,
) {
    match (state, event) {
        (TransferStateView::AwaitSourceSheet, EventView::SheetChecked(SheetLookup::Failed)) =>
            (TransferStateView::Done, ActionView::Reply(ReplyView::Message(ReplyMessage::Failed))),
        (TransferStateView::AwaitSourceSheet, EventView::SheetChecked(SheetLookup::Missing)) =>
            (TransferStateView::Done, ActionView::Reply(ReplyView::Message(ReplyMessage::IncorrectCredentials))),
        (TransferStateView::AwaitSourceSheet, EventView::SheetChecked(SheetLookup::Found)) =>
            (TransferStateView::AwaitSource, ActionView::LoadAccount(d.authentication.username)),
        (TransferStateView::AwaitSource, EventView::AccountLoaded(a)) =>
            if a.pass != d.authentication.password {
                (TransferStateView::Done, ActionView::Reply(ReplyView::Message(ReplyMessage::IncorrectCredentials)))
            } else {
                (TransferStateView::AwaitDestinationSheet(a), ActionView::CheckSheet(d.destination))
            },
        (TransferStateView::AwaitDestinationSheet(_), EventView::SheetChecked(SheetLookup::Failed)) =>
            (TransferStateView::Done, ActionView::Reply(ReplyView::Message(ReplyMessage::SheetsUnavailable))),
        (TransferStateView::AwaitDestinationSheet(_), EventView::SheetChecked(SheetLookup::Missing)) =>
            (TransferStateView::Done, ActionView::Reply(ReplyView::Message(ReplyMessage::InvalidDestination))),
        (TransferStateView::AwaitDestinationSheet(source), EventView::SheetChecked(SheetLookup::Found)) =>
            if has_account_suffix(d.destination) {
                (TransferStateView::AwaitDestination(source), ActionView::LoadAccount(drop_eight_bytes(d.destination)))
            } else {
                (TransferStateView::Done, ActionView::Reply(ReplyView::Account(shown_account(source))))
            },
        (TransferStateView::AwaitDestination(source), EventView::AccountLoaded(dest)) =>
            (
                TransferStateView::AwaitSaved(sender_after(source, d.amount)),
                ActionView::SaveAccounts(sender_after(source, d.amount), receiver_after(dest, d.amount)),
            ),
        (TransferStateView::AwaitSaved(source), EventView::Saved) =>
            (TransferStateView::Done, ActionView::Reply(ReplyView::Account(shown_account(source)))),
        _ => (TransferStateView::Done, ActionView::Reply(ReplyView::Message(ReplyMessage::Failed))),
    }
}

impl TransferData {
    /// Starts a transfer.
    pub fn begin_transfer(&self) -> (r: (TransferState, Action))
        ensures
            (r.0@, r.1@) == transfer_first(self@),
    {
        (
            TransferState::AwaitSourceSheet,
            Action::CheckSheet(with_account_suffix(self.authentication.username.as_str())),
        )
    }

    /// Whether a transfer in `state` waits for `event`.
    pub fn transfer_waits_for(&self, state: &TransferState, event: &Event) -> (b: bool)
        ensures
            b == transfer_waits_for(self@, state@, event@),
    {
        match (state, event) {
            (TransferState::AwaitSourceSheet, Event::SheetChecked(_)) => true,
            (TransferState::AwaitSource, Event::AccountLoaded(_)) => true,
            (TransferState::AwaitDestinationSheet(_), Event::SheetChecked(_)) => true,
            (TransferState::AwaitDestination(source), Event::AccountLoaded(dest)) =>
                transfer_fits_exec(source, dest, self.amount),
            (TransferState::AwaitSaved(_), Event::Saved) => true,
            _ => false,
        }
    }

    /// The next state and action of a transfer, given what the last action found.
    pub fn transfer_step(&self, state: TransferState, event: Event) -> (r: (TransferState, Action))
        requires
            transfer_waits_for(self@, state@, event@),
            encode_utf8(self.destination@).len() <= usize::MAX,
        ensures
            (r.0@, r.1@) == transfer_next(self@, state@, event@),
    {
        match state {
            TransferState::AwaitSourceSheet => match event {
                Event::SheetChecked(SheetLookup::Failed) =>
                    (TransferState::Done, Action::Reply(Reply::Message(ReplyMessage::Failed))),
                Event::SheetChecked(SheetLookup::Missing) =>
                    (TransferState::Done, Action::Reply(Reply::Message(ReplyMessage::IncorrectCredentials))),
                _ => (TransferState::AwaitSource, Action::LoadAccount(self.authentication.username.clone())),
            },
            TransferState::AwaitSource => match event {
                Event::AccountLoaded(a) => {
                    if a.pass != self.authentication.password {
                        (TransferState::Done, Action::Reply(Reply::Message(ReplyMessage::IncorrectCredentials)))
                    } else {
                        (TransferState::AwaitDestinationSheet(a), Action::CheckSheet(self.destination.clone()))
                    }
                },
                _ => (TransferState::Done, Action::Reply(Reply::Message(ReplyMessage::Failed))),
            },
            TransferState::AwaitDestinationSheet(source) => match event {
                Event::SheetChecked(SheetLookup::Failed) =>
                    (TransferState::Done, Action::Reply(Reply::Message(ReplyMessage::SheetsUnavailable))),
                Event::SheetChecked(SheetLookup::Missing) =>
                    (TransferState::Done, Action::Reply(Reply::Message(ReplyMessage::InvalidDestination))),
                _ => {
                    if ends_with_account_suffix(self.destination.as_str()) {
                        proof {
                            lemma_split_account_suffix(self.destination@);
                            lemma_drop_account_suffix(
                                self.destination@.subrange(0, self.destination@.len() - 8),
                            );
                        }
                        let name = drop_last_eight_bytes(self.destination.as_str());
                        (TransferState::AwaitDestination(source), Action::LoadAccount(name))
                    } else {
                        (TransferState::Done, Action::Reply(Reply::Account(show_account(source))))
                    }
                },
            },
            TransferState::AwaitDestination(source) => match event {
                Event::AccountLoaded(dest) => {
                    let mut source = source;
                    let mut dest = dest;
                    apply_transfer(&mut source, &mut dest, self.amount);
                    let kept = source.duplicate();
                    (TransferState::AwaitSaved(kept), Action::SaveAccounts(source, dest))
                },
                _ => (TransferState::Done, Action::Reply(Reply::Message(ReplyMessage::Failed))),
            },
            TransferState::AwaitSaved(source) =>
                (TransferState::Done, Action::Reply(Reply::Account(show_account(source)))),
            TransferState::Done => (TransferState::Done, Action::Reply(Reply::Message(ReplyMessage::Failed))),
        }
    }
}


/// A transfer between two accounts neither creates nor destroys points,
/// unless the sender is the unlimited sender: the two balances add up to
/// what they added up to before.
pub proof fn law_transfer_conserves_points(source: AccountView, dest: AccountView, amount: i32)
    requires
        transfer_fits(source, dest, amount),
        source.name != unlimited_sender(),
    ensures
        sender_after(source, amount).points + receiver_after(dest, amount).points == source.points
            + dest.points,
{
}

/// A transfer keeps both histories and appends one entry to each, whose new
/// balance is the old balance plus the difference and is the account's new
/// balance (for the sender, unless it is the unlimited sender, whose balance
/// stays).
pub proof fn law_transfer_records_balances(source: AccountView, dest: AccountView, amount: i32)
    requires
        transfer_fits(source, dest, amount),
    ensures
        ({
            let s = sender_after(source, amount);
            let r = receiver_after(dest, amount);
            &&& s.history.drop_last() == source.history
            &&& r.history.drop_last() == dest.history
            &&& r.history.last().prev_bal == dest.points
            &&& r.history.last().post_bal == r.points
            &&& r.history.last().post_bal == r.history.last().prev_bal + r.history.last().difference
            &&& s.history.last().prev_bal == source.points
            &&& s.history.last().post_bal == s.points
            &&& (source.name != unlimited_sender() ==> s.history.last().post_bal
                == s.history.last().prev_bal + s.history.last().difference)
            &&& (source.name == unlimited_sender() ==> s.points == source.points)
            &&& s.name == source.name && s.pass == source.pass && s.currency == source.currency
            &&& r.name == dest.name && r.pass == dest.pass && r.currency == dest.currency
        }),
{
    assert(sender_after(source, amount).history.drop_last() =~= source.history);
    assert(receiver_after(dest, amount).history.drop_last() =~= dest.history);
}

/// A transfer moves exactly `amount` points: the destination gains
/// `amount` and records a `transfer_receive` of `amount` from its old to its
/// new balance; the sender loses `amount` (the sender `rudy` loses nothing)
/// and records a `transfer_send` of `-amount` from its old to its new balance.
pub proof fn law_transfer_moves_the_amount(source: AccountView, dest: AccountView, amount: i32)
    requires
        transfer_fits(source, dest, amount),
    ensures
        receiver_after(dest, amount).points == dest.points + amount,
        receiver_after(dest, amount).history.len() == dest.history.len() + 1,
        receiver_after(dest, amount).history.last().event_name == "transfer_receive"@,
        receiver_after(dest, amount).history.last().difference == amount,
        receiver_after(dest, amount).history.last().prev_bal == dest.points,
        receiver_after(dest, amount).history.last().post_bal == dest.points + amount,
        source.name != "rudy"@ ==> sender_after(source, amount).points == source.points - amount,
        source.name == "rudy"@ ==> sender_after(source, amount).points == source.points,
        sender_after(source, amount).history.len() == source.history.len() + 1,
        sender_after(source, amount).history.last().event_name == "transfer_send"@,
        sender_after(source, amount).history.last().difference == -amount,
        sender_after(source, amount).history.last().prev_bal == source.points,
        sender_after(source, amount).history.last().post_bal == sender_after(source, amount).points,
{
}

/// A transfer always takes the spreadsheet's answer to what it asked: after
/// a sheet search it takes every search result, after a load every loaded
/// account (for the destination, every one whose balances stay within
/// `i32` after the move), after a save the save; and once it answers it is done.
pub proof fn law_transfer_takes_every_answer(d: TransferDataView, state: TransferStateView, event: EventView)
    requires
        transfer_waits_for(d, state, event),
    ensures
        forall|l: SheetLookup|
            #![trigger transfer_waits_for(d, transfer_first(d).0, EventView::SheetChecked(l))]
            transfer_waits_for(d, transfer_first(d).0, EventView::SheetChecked(l)),
        ({
            let (next, action) = transfer_next(d, state, event);
            &&& action is CheckSheet ==> forall|l: SheetLookup|
                #![trigger transfer_waits_for(d, next, EventView::SheetChecked(l))]
                transfer_waits_for(d, next, EventView::SheetChecked(l))
            &&& action is LoadAccount && !(next is AwaitDestination) ==> forall|a: AccountView|
                #![trigger transfer_waits_for(d, next, EventView::AccountLoaded(a))]
                transfer_waits_for(d, next, EventView::AccountLoaded(a))
            &&& action is LoadAccount ==> (next is AwaitSource || next is AwaitDestination)
            &&& next matches TransferStateView::AwaitDestination(src) ==> forall|a: AccountView|
                #![trigger transfer_waits_for(d, next, EventView::AccountLoaded(a))]
                (i32::MIN <= a.points + d.amount <= i32::MAX && d.amount != i32::MIN && (src.name
                    != "rudy"@ ==> i32::MIN <= src.points - d.amount <= i32::MAX)) ==> transfer_waits_for(
                    d,
                    next,
                    EventView::AccountLoaded(a),
                )
            &&& action is SaveAccounts ==> transfer_waits_for(d, next, EventView::Saved)
            &&& action is Reply ==> next is Done
        }),
{
}

/// Whether the account a transfer holds was loaded with the password of the request.
pub open spec fn transfer_authenticated(d: TransferDataView, state: TransferStateView) -> bool {
    match state {
        TransferStateView::AwaitDestinationSheet(source) => source.pass == d.authentication.password,
        TransferStateView::AwaitDestination(source) => source.pass == d.authentication.password,
        TransferStateView::AwaitSaved(source) => source.pass == d.authentication.password,
        _ => true,
    }
}

/// Only an authenticated sender moves points, and an answer never shows a
/// password: every step keeps the held account that of the request's
/// password; a save stores a sender that had that password; a sender with
/// another password is answered that the credentials were incorrect, with
/// nothing saved; and an answered account has an empty password.
pub proof fn law_transfer_requires_authentication(d: TransferDataView, state: TransferStateView, event: EventView)
    requires
        transfer_authenticated(d, state),
        transfer_waits_for(d, state, event),
    ensures
        transfer_authenticated(d, transfer_next(d, state, event).0),
        transfer_next(d, state, event).1 matches ActionView::SaveAccounts(sender, _) ==> sender.pass
            == d.authentication.password,
        transfer_next(d, state, event).1 matches ActionView::Reply(ReplyView::Account(shown))
            ==> shown.pass.len() == 0,
        state is AwaitSource ==> (event matches EventView::AccountLoaded(a) ==> (a.pass
            != d.authentication.password ==> transfer_next(d, state, event) == (
            TransferStateView::Done,
            ActionView::Reply(ReplyView::Message(ReplyMessage::IncorrectCredentials)),
        ))),
{
}

/// The first step of a transfer holds no account.
pub proof fn law_transfer_starts_authenticated(d: TransferDataView)
    ensures
        transfer_authenticated(d, transfer_first(d).0),
{
}

/// Points move only into the account of a sheet whose title ends with
/// `_ACCOUNT`, and only that account is loaded: the name loaded is the
/// destination without that ending.
pub proof fn law_transfer_destination_is_account_sheet(d: TransferDataView, source: AccountView)
    ensures
        ({
            let next = transfer_next(
                d,
                TransferStateView::AwaitDestinationSheet(source),
                EventView::SheetChecked(SheetLookup::Found),
            );
            &&& has_account_suffix(d.destination) ==> next.1 == ActionView::LoadAccount(
                d.destination.subrange(0, d.destination.len() - 8),
            ) && account_sheet(d.destination.subrange(0, d.destination.len() - 8)) == d.destination
            &&& !has_account_suffix(d.destination) ==> next == (
                TransferStateView::Done,
                ActionView::Reply(ReplyView::Account(shown_account(source))),
            )
        }),
{
    if has_account_suffix(d.destination) {
        lemma_split_account_suffix(d.destination);
        lemma_drop_account_suffix(d.destination.subrange(0, d.destination.len() - 8));
    }
}

} // verus!
