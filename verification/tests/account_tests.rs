use sheet_accounts::account::{Account, HistoryEntry};
use sheet_accounts::sheet_serialize::{SerializeArgs, SerializeError};

fn entry(name: &str, difference: i32, prev_bal: i32, post_bal: i32) -> HistoryEntry {
    HistoryEntry { event_name: name.to_string(), difference, prev_bal, post_bal }
}

fn sample() -> Account {
    Account {
        name: "Michael_Wu".to_string(),
        points: 20,
        currency: "Programming Points".to_string(),
        pass: "Password".to_string(),
        history: vec![entry("acct_create", 20, 0, 20), entry("transfer_send", -5, 25, 20)],
    }
}

fn grid(rows: &[&[&str]]) -> Vec<Vec<String>> {
    rows.iter().map(|r| r.iter().map(|c| c.to_string()).collect()).collect()
}

fn same(a: &Account, b: &Account) -> bool {
    a.name == b.name
        && a.points == b.points
        && a.currency == b.currency
        && a.pass == b.pass
        && a.history.len() == b.history.len()
        && a.history.iter().zip(b.history.iter()).all(|(x, y)| {
            x.event_name == y.event_name
                && x.difference == y.difference
                && x.prev_bal == y.prev_bal
                && x.post_bal == y.post_bal
        })
}

#[test]
fn writes_lay_out_header_then_history_rows() {
    let writes = sample().sheet_writes();
    assert_eq!(writes.len(), 3);
    assert_eq!(writes[0].range.a1_notation(), "Michael_Wu_ACCOUNT!A:E");
    assert_eq!(writes[0].values, grid(&[&["20"], &["Programming Points"], &["Password"]]));
    assert_eq!(writes[1].range.a1_notation(), "Michael_Wu_ACCOUNT!A4:D4");
    assert_eq!(writes[1].values, grid(&[&["acct_create", "20", "0", "20"]]));
    assert_eq!(writes[2].range.a1_notation(), "Michael_Wu_ACCOUNT!A5:D5");
    assert_eq!(writes[2].values, grid(&[&["transfer_send", "-5", "25", "20"]]));
}

#[test]
fn written_account_reads_back() {
    let acc = sample();
    let mut rows: Vec<Vec<String>> = Vec::new();
    for w in acc.sheet_writes() {
        for r in w.values {
            rows.push(r);
        }
    }
    assert!(Account::is_readable_sheet("Michael_Wu_ACCOUNT", &rows));
    let back = Account::from_sheet_values("Michael_Wu_ACCOUNT", &rows);
    assert!(same(&back, &acc));
}

#[test]
fn history_stops_at_first_empty_event_name() {
    let rows = grid(&[
        &["7"],
        &["Coins"],
        &["pw"],
        &["a", "1", "6", "7"],
        &["", "x", "y", "z"],
        &["b", "2", "7", "9"],
    ]);
    assert!(Account::is_readable_sheet("Ann_ACCOUNT", &rows));
    let acc = Account::from_sheet_values("Ann_ACCOUNT", &rows);
    assert_eq!(acc.name, "Ann");
    assert_eq!(acc.points, 7);
    assert_eq!(acc.currency, "Coins");
    assert_eq!(acc.pass, "pw");
    assert_eq!(acc.history.len(), 1);
    assert_eq!(acc.history[0].event_name, "a");
    assert_eq!(acc.history[0].post_bal, 7);
}

#[test]
fn unreadable_sheets_are_recognised() {
    let good = grid(&[&["7"], &["Coins"], &["pw"]]);
    assert!(Account::is_readable_sheet("Ann_ACCOUNT", &good));
    // title shorter than eight bytes
    assert!(!Account::is_readable_sheet("Ann", &good));
    // cut inside a character
    assert!(!Account::is_readable_sheet("xé_ACCOUN", &good));
    // points that are not a number
    assert!(!Account::is_readable_sheet("Ann_ACCOUNT", &grid(&[&["7.5"], &["Coins"], &["pw"]])));
    // too few rows
    assert!(!Account::is_readable_sheet("Ann_ACCOUNT", &grid(&[&["7"], &["Coins"]])));
    // a history row with too few cells
    assert!(!Account::is_readable_sheet(
        "Ann_ACCOUNT",
        &grid(&[&["7"], &["Coins"], &["pw"], &["a", "1", "6"]])
    ));
    // a history row with no cells at all
    assert!(!Account::is_readable_sheet("Ann_ACCOUNT", &grid(&[&["7"], &["Coins"], &["pw"], &[]])));
}

#[test]
fn history_entry_write_needs_sheet_and_row() {
    let e = entry("transfer_receive", 3, 4, 7);
    let mut args = SerializeArgs::new();
    assert_eq!(e.sheet_write(&args).err(), Some(SerializeError::SheetNotProvided));
    args.start_idx = Some(9);
    assert_eq!(e.sheet_write(&args).err(), Some(SerializeError::SheetNotProvided));
    args.sheet = Some("Kim_ACCOUNT".to_string());
    args.start_idx = None;
    assert_eq!(e.sheet_write(&args).err(), Some(SerializeError::IndexNotProvided));
    args.start_idx = Some(9);
    let w = e.sheet_write(&args).ok().unwrap();
    assert_eq!(w.range.a1_notation(), "Kim_ACCOUNT!A9:D9");
    assert_eq!(w.values, grid(&[&["transfer_receive", "3", "4", "7"]]));
    assert_eq!(HistoryEntry::read_range(&args).ok().unwrap().a1_notation(), "Kim_ACCOUNT!A9:D9");
}

#[test]
fn history_entry_reads_first_row() {
    let e = HistoryEntry::from_sheet_values(&grid(&[&["bonus", "+10", "-3", "7"]]));
    assert_eq!(e.event_name, "bonus");
    assert_eq!(e.difference, 10);
    assert_eq!(e.prev_bal, -3);
    assert_eq!(e.post_bal, 7);
}

#[test]
fn account_read_range_and_args() {
    let args = Account::account_args("Bo");
    assert_eq!(args.sheet.as_deref(), Some("Bo_ACCOUNT"));
    assert!(args.start_idx.is_none());
    assert_eq!(Account::read_range(&args).ok().unwrap().a1_notation(), "Bo_ACCOUNT!A:D");
    assert_eq!(Account::read_range(&SerializeArgs::new()).err(), Some(SerializeError::SheetNotProvided));
}

#[test]
fn duplicate_copies_everything() {
    let a = sample();
    assert!(same(&a.duplicate(), &a));
    let e = a.history[1].duplicate();
    assert_eq!(e.event_name, "transfer_send");
    assert_eq!(e.difference, -5);
}

#[test]
fn written_history_entry_reads_back() {
    for e in [entry("", -7, 3, -4), entry("transfer_receive", 2147483647, -2147483648, -1)] {
        let mut args = SerializeArgs::new();
        args.sheet = Some("Z_ACCOUNT".to_string());
        args.start_idx = Some(12);
        let w = e.sheet_write(&args).ok().unwrap();
        assert!(HistoryEntry::is_readable_values(&w.values));
        let back = HistoryEntry::from_sheet_values(&w.values);
        assert_eq!(back.event_name, e.event_name);
        assert_eq!((back.difference, back.prev_bal, back.post_bal), (e.difference, e.prev_bal, e.post_bal));
    }
    assert!(!HistoryEntry::is_readable_values(&vec![]));
    assert!(!HistoryEntry::is_readable_values(&grid(&[&["a", "1", "2", "x"]])));
}
