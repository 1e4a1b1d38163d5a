use sheet_accounts::account::{Account, HistoryEntry};
use sheet_accounts::routes::leaderboard::{account_names_from_titles, leaderboard_entries};
use sheet_accounts::routes::login::{LoginData, LoginState};
use sheet_accounts::routes::transfer::{apply_transfer, transfer_fits_exec, TransferData, TransferState};
use sheet_accounts::routes::{show_account, Action, Event, Reply, ReplyMessage, SheetLookup};

fn account(name: &str, points: i32, pass: &str) -> Account {
    Account {
        name: name.to_string(),
        points,
        currency: "Points".to_string(),
        pass: pass.to_string(),
        history: vec![HistoryEntry {
            event_name: "acct_create".to_string(),
            difference: points,
            prev_bal: 0,
            post_bal: points,
        }],
    }
}

fn login(user: &str, pass: &str) -> LoginData {
    LoginData { username: user.to_string(), password: pass.to_string() }
}

fn request(amount: i32, destination: &str, pass: &str) -> TransferData {
    TransferData { amount, destination: destination.to_string(), authentication: login("ann", pass) }
}

fn reply_message(a: &Action) -> Option<ReplyMessage> {
    match a {
        Action::Reply(Reply::Message(m)) => Some(*m),
        _ => None,
    }
}

#[test]
fn reply_messages_are_json() {
    assert_eq!(ReplyMessage::Failed.json(), "{\"message\": \"Failed\"}");
    assert_eq!(
        ReplyMessage::IncorrectCredentials.json(),
        "{\"message\": \"Username or password was incorrect\"}"
    );
    assert_eq!(
        ReplyMessage::SheetsUnavailable.json(),
        "{\"message\": \"There is an issue with google sheets, please try again in a few moments!\"}"
    );
    assert_eq!(ReplyMessage::InvalidDestination.json(), "{\"message\": \"The destination is not valid\"}");
    assert_eq!(
        ReplyMessage::AmountNotPositive.json(),
        "{\"message\": \"Transfer amount cannot be below 0! Nice try.\"}"
    );
    assert_eq!(ReplyMessage::AmountTooSmall.json(), "{\"message\": \"Transfer amount cannot be below 0.01!\"}");
}

#[test]
fn shown_account_hides_password_and_reverses_history() {
    let mut a = account("ann", 5, "secret");
    a.history.push(HistoryEntry { event_name: "later".to_string(), difference: 1, prev_bal: 5, post_bal: 6 });
    let shown = show_account(a);
    assert_eq!(shown.pass, "");
    assert_eq!(shown.name, "ann");
    assert_eq!(shown.history[0].event_name, "later");
    assert_eq!(shown.history[1].event_name, "acct_create");
}

#[test]
fn login_with_right_password_shows_account() {
    let d = login("ann", "secret");
    let (state, action) = d.begin_login();
    assert!(matches!(&action, Action::CheckSheet(t) if t == "ann_ACCOUNT"));
    let ev = Event::SheetChecked(SheetLookup::Found);
    assert!(state.waits_for(&ev));
    let (state, action) = d.login_step(state, ev);
    assert!(matches!(&action, Action::LoadAccount(n) if n == "ann"));
    let (state, action) = d.login_step(state, Event::AccountLoaded(account("ann", 9, "secret")));
    assert_eq!(state, LoginState::Done);
    match action {
        Action::Reply(Reply::Account(a)) => {
            assert_eq!(a.pass, "");
            assert_eq!(a.points, 9);
        },
        _ => panic!("expected the account"),
    }
}

#[test]
fn login_refusals() {
    let d = login("ann", "secret");
    let (state, _) = d.begin_login();
    let (_, action) = d.login_step(state, Event::SheetChecked(SheetLookup::Failed));
    assert_eq!(reply_message(&action), Some(ReplyMessage::Failed));
    let (_, action) = d.login_step(state, Event::SheetChecked(SheetLookup::Missing));
    assert_eq!(reply_message(&action), Some(ReplyMessage::IncorrectCredentials));
    let (state, _) = d.login_step(state, Event::SheetChecked(SheetLookup::Found));
    let (state, action) = d.login_step(state, Event::AccountLoaded(account("ann", 9, "other")));
    assert_eq!(reply_message(&action), Some(ReplyMessage::IncorrectCredentials));
    assert!(!state.waits_for(&Event::Saved));
}

fn run_to_destination(d: &TransferData, source: Account) -> TransferState {
    let (state, action) = d.begin_transfer();
    assert!(matches!(&action, Action::CheckSheet(t) if t == "ann_ACCOUNT"));
    let (state, action) = d.transfer_step(state, Event::SheetChecked(SheetLookup::Found));
    assert!(matches!(&action, Action::LoadAccount(n) if n == "ann"));
    let (state, action) = d.transfer_step(state, Event::AccountLoaded(source));
    assert!(matches!(&action, Action::CheckSheet(t) if *t == d.destination));
    state
}

#[test]
fn transfer_moves_points_and_records_them() {
    let d = request(4, "bob_ACCOUNT", "secret");
    let state = run_to_destination(&d, account("ann", 10, "secret"));
    let (state, action) = d.transfer_step(state, Event::SheetChecked(SheetLookup::Found));
    assert!(matches!(&action, Action::LoadAccount(n) if n == "bob"));
    let ev = Event::AccountLoaded(account("bob", 3, "pw"));
    assert!(d.transfer_waits_for(&state, &ev));
    let (state, action) = d.transfer_step(state, ev);
    match &action {
        Action::SaveAccounts(src, dest) => {
            assert_eq!(src.points, 6);
            assert_eq!(dest.points, 7);
            assert_eq!(src.points + dest.points, 13);
            let s = src.history.last().unwrap();
            assert_eq!((s.event_name.as_str(), s.difference, s.prev_bal, s.post_bal), ("transfer_send", -4, 10, 6));
            let r = dest.history.last().unwrap();
            assert_eq!((r.event_name.as_str(), r.difference, r.prev_bal, r.post_bal), ("transfer_receive", 4, 3, 7));
            assert_eq!(src.pass, "secret");
        },
        _ => panic!("expected a save"),
    }
    let (_, action) = d.transfer_step(state, Event::Saved);
    match action {
        Action::Reply(Reply::Account(a)) => {
            assert_eq!(a.pass, "");
            assert_eq!(a.points, 6);
            assert_eq!(a.history[0].event_name, "transfer_send");
        },
        _ => panic!("expected the account"),
    }
}

#[test]
fn transfer_refusals() {
    let d = request(4, "bob_ACCOUNT", "secret");
    let (state, _) = d.begin_transfer();
    let (_, action) = d.transfer_step(state, Event::SheetChecked(SheetLookup::Failed));
    assert_eq!(reply_message(&action), Some(ReplyMessage::Failed));
    let (state, _) = d.begin_transfer();
    let (_, action) = d.transfer_step(state, Event::SheetChecked(SheetLookup::Missing));
    assert_eq!(reply_message(&action), Some(ReplyMessage::IncorrectCredentials));
    let (state, _) = d.begin_transfer();
    let (state, _) = d.transfer_step(state, Event::SheetChecked(SheetLookup::Found));
    let (_, action) = d.transfer_step(state, Event::AccountLoaded(account("ann", 10, "guess")));
    assert_eq!(reply_message(&action), Some(ReplyMessage::IncorrectCredentials));
    let state = run_to_destination(&d, account("ann", 10, "secret"));
    let (_, action) = d.transfer_step(state, Event::SheetChecked(SheetLookup::Failed));
    assert_eq!(reply_message(&action), Some(ReplyMessage::SheetsUnavailable));
    let state = run_to_destination(&d, account("ann", 10, "secret"));
    let (_, action) = d.transfer_step(state, Event::SheetChecked(SheetLookup::Missing));
    assert_eq!(reply_message(&action), Some(ReplyMessage::InvalidDestination));
}

#[test]
fn transfer_to_other_sheet_moves_nothing() {
    let d = request(4, "Sheet1", "secret");
    let state = run_to_destination(&d, account("ann", 10, "secret"));
    let (_, action) = d.transfer_step(state, Event::SheetChecked(SheetLookup::Found));
    match action {
        Action::Reply(Reply::Account(a)) => {
            assert_eq!(a.points, 10);
            assert_eq!(a.history.len(), 1);
            assert_eq!(a.pass, "");
        },
        _ => panic!("expected the account"),
    }
}

#[test]
fn unlimited_sender_keeps_points() {
    let mut src = account("rudy", 100, "pw");
    let mut dest = account("bob", 1, "pw");
    apply_transfer(&mut src, &mut dest, 30);
    assert_eq!(src.points, 100);
    assert_eq!(dest.points, 31);
    let s = src.history.last().unwrap();
    assert_eq!((s.difference, s.prev_bal, s.post_bal), (-30, 100, 100));
}

#[test]
fn transfer_fits_in_i32() {
    let big = account("ann", 5, "pw");
    let full = account("bob", i32::MAX - 1, "pw");
    assert!(transfer_fits_exec(&big, &full, 1));
    assert!(!transfer_fits_exec(&big, &full, 2));
    let low = account("ann", i32::MIN + 1, "pw");
    let zero = account("bob", 0, "pw");
    assert!(transfer_fits_exec(&low, &zero, 1));
    assert!(!transfer_fits_exec(&low, &zero, 2));
    let rudy = account("rudy", i32::MIN + 1, "pw");
    assert!(transfer_fits_exec(&rudy, &zero, 2));
    assert!(!transfer_fits_exec(&rudy, &zero, i32::MIN));
}

#[test]
fn leaderboard_names_and_entries() {
    let titles = vec![
        "Sheet1".to_string(),
        "ann_ACCOUNT".to_string(),
        "notes".to_string(),
        "élan_ACCOUNT".to_string(),
        "_ACCOUNT".to_string(),
    ];
    assert_eq!(account_names_from_titles(&titles), vec!["ann".to_string(), "élan".to_string(), String::new()]);
    let accounts = vec![account("ann", 3, "x"), account("bob", 8, "y")];
    let entries = leaderboard_entries(&accounts);
    assert_eq!(entries.len(), 2);
    assert_eq!((entries[1].points, entries[1].username.as_str()), (8, "bob"));
    assert_eq!((entries[0].points, entries[0].username.as_str()), (3, "ann"));
}
