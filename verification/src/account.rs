//! Accounts of points and the history of their changes, how they are laid
//! out in the cells of a sheet, and how they are read back from them.
use vstd::prelude::*;
use vstd::utf8::encode_utf8;
use vstd::string::StringSliceAdditionalSpecFns;
use crate::text::{
    account_suffix, can_drop_eight_bytes, drop_eight_bytes, drop_last_eight_bytes, i32_to_text,
    int_text, lemma_drop_account_suffix, law_int_text_parses_back, parse_i32, parse_i32_text,
    with_account_suffix,
};
use crate::sheet_helper::{
    CellRange, CellRangeView, SheetWrite, SheetWriteView, apply_write, apply_writes, read_rows,
    row_cells, write_top, writes_cell,
};
use crate::sheet_serialize::{SerializeArgs, SerializeError};

verus! {

/// One change of an account's points.
#[derive(Debug)]
pub struct HistoryEntry {
    pub event_name: String,
    pub difference: i32,
    pub prev_bal: i32,
    pub post_bal: i32,
}

/// A change of points, with its event name as text.
pub struct HistoryEntryView {
    pub event_name: Seq<char>,
    pub difference: i32,
    pub prev_bal: i32,
    pub post_bal: i32,
}

impl View for HistoryEntry {
    type V = HistoryEntryView;

    open spec fn view(&self) -> HistoryEntryView {
        HistoryEntryView {
            event_name: self.event_name@,
            difference: self.difference,
            prev_bal: self.prev_bal,
            post_bal: self.post_bal,
        }
    }
}

/// An account: its owner's name, its points, the name of its currency, its
/// password and the changes of its points, oldest first.
#[derive(Debug)]
pub struct Account {
    pub name: String,
    pub points: i32,
    pub currency: String,
    pub pass: String,
    pub history: Vec<HistoryEntry>,
}

/// An account with its texts and history as views.
pub struct AccountView {
    pub name: Seq<char>,
    pub points: i32,
    pub currency: Seq<char>,
    pub pass: Seq<char>,
    pub history: Seq<HistoryEntryView>,
}

/// The views of a list of history entries.
pub open spec fn history_view(h: Seq<HistoryEntry>) -> Seq<HistoryEntryView> {
    h.map_values(|e: HistoryEntry| e@)
}

impl View for Account {
    type V = AccountView;

    open spec fn view(&self) -> AccountView {
        AccountView {
            name: self.name@,
            points: self.points,
            currency: self.currency@,
            pass: self.pass@,
            history: history_view(self.history@),
        }
    }
}

/// The title of the sheet that holds the account of `name`.
pub open spec fn account_sheet(name: Seq<char>) -> Seq<char> {
    name + account_suffix()
}

/// The cells of one history entry: its event name, difference, previous and
/// new balance.
pub open spec fn entry_row(e: HistoryEntryView) -> Seq<Seq<char>> {
    seq![e.event_name, int_text(e.difference as int), int_text(e.prev_bal as int), int_text(e.post_bal as int)]
}

/// The first rows of an account's sheet: points, currency and password, one per row.
pub open spec fn header_rows(a: AccountView) -> Seq<Seq<Seq<char>>> {
    seq![seq![int_text(a.points as int)], seq![a.currency], seq![a.pass]]
}

/// All rows of an account's sheet: the header, then one row per history entry.
pub open spec fn account_rows(a: AccountView) -> Seq<Seq<Seq<char>>> {
    header_rows(a) + a.history.map_values(|e: HistoryEntryView| entry_row(e))
}

/// The write of a history entry into row `row` (counted from 1) of `sheet`, columns `A` to `D`.
pub open spec fn entry_write(sheet: Seq<char>, row: u32, e: HistoryEntryView) -> SheetWriteView {
    SheetWriteView {
        range: CellRangeView { sheet: sheet, first_column: 0, last_column: 3, row: Some(row) },
        values: seq![entry_row(e)],
    }
}

/// The write of an account's header into columns `A` to `E` of its sheet.
pub open spec fn header_write(a: AccountView) -> SheetWriteView {
    SheetWriteView {
        range: CellRangeView { sheet: account_sheet(a.name), first_column: 0, last_column: 4, row: None },
        values: header_rows(a),
    }
}

/// The row (counted from 1) of the `k`-th history entry: the entries start in row 4.
pub open spec fn history_row(k: int) -> u32 {
    (k + 4) as u32
}

/// The writes that store an account: its header, then each history entry in its row.
pub open spec fn account_writes(a: AccountView) -> Seq<SheetWriteView> {
    seq![header_write(a)] + Seq::new(
        a.history.len(),
        |k: int| entry_write(account_sheet(a.name), history_row(k), a.history[k]),
    )
}

/// Whether a row holds a history entry that can be read: four cells, the
/// last three of them numbers.
pub open spec fn entry_row_readable(row: Seq<Seq<char>>) -> bool {
    &&& row.len() >= 4
    &&& parse_i32_text(row[1]) is Some
    &&& parse_i32_text(row[2]) is Some
    &&& parse_i32_text(row[3]) is Some
}

/// The history entry a row holds.
pub open spec fn entry_of_row(row: Seq<Seq<char>>) -> HistoryEntryView {
    HistoryEntryView {
        event_name: row[0],
        difference: parse_i32_text(row[1])->Some_0,
        prev_bal: parse_i32_text(row[2])->Some_0,
        post_bal: parse_i32_text(row[3])->Some_0,
    }
}

/// Whether the history from row `i` (counted from 0) on can be read: every
/// row up to the first whose first cell is empty has a first cell, and holds
/// a readable entry.
pub open spec fn history_readable_from(rows: Seq<Seq<Seq<char>>>, i: int) -> bool
    decreases rows.len() - i,
{
    if i < 0 || i >= rows.len() {
        true
    } else if rows[i].len() == 0 {
        false
    } else if rows[i][0].len() == 0 {
        true
    } else {
        entry_row_readable(rows[i]) && history_readable_from(rows, i + 1)
    }
}

/// The history entries held by the rows from `i` on, up to the first row
/// whose first cell is empty.
pub open spec fn history_of_rows(rows: Seq<Seq<Seq<char>>>, i: int) -> Seq<HistoryEntryView>
    decreases rows.len() - i,
{
    if i < 0 || i >= rows.len() || rows[i].len() == 0 || rows[i][0].len() == 0 {
        Seq::empty()
    } else {
        seq![entry_of_row(rows[i])] + history_of_rows(rows, i + 1)
    }
}

/// Whether the first three rows hold points, currency and password.
pub open spec fn header_readable(rows: Seq<Seq<Seq<char>>>) -> bool {
    &&& rows.len() >= 3
    &&& rows[0].len() >= 1
    &&& parse_i32_text(rows[0][0]) is Some
    &&& rows[1].len() >= 1
    &&& rows[2].len() >= 1
}

/// Whether an account can be read from the rows of the sheet titled `sheet`.
pub open spec fn account_readable(sheet: Seq<char>, rows: Seq<Seq<Seq<char>>>) -> bool {
    &&& can_drop_eight_bytes(sheet)
    &&& header_readable(rows)
    &&& history_readable_from(rows, 3)
}

/// The account read from the rows of the sheet titled `sheet`: the owner's
/// name is the title without its last eight bytes.
pub open spec fn read_account(sheet: Seq<char>, rows: Seq<Seq<Seq<char>>>) -> AccountView {
    AccountView {
        name: drop_eight_bytes(sheet),
        points: parse_i32_text(rows[0][0])->Some_0,
        currency: rows[1][0],
        pass: rows[2][0],
        history: history_of_rows(rows, 3),
    }
}

impl HistoryEntry {
    /// A copy of the entry.
    pub fn duplicate(&self) -> (r: HistoryEntry)
        ensures
            r@ == self@,
    {
        HistoryEntry {
            event_name: self.event_name.clone(),
            difference: self.difference,
            prev_bal: self.prev_bal,
            post_bal: self.post_bal,
        }
    }

    /// The cells of the entry: event name, difference, previous and new balance.
    pub fn row_values(&self) -> (r: Vec<String>)
        ensures
            r.deep_view() == entry_row(self@),
    {
        let mut r: Vec<String> = Vec::new();
        r.push(self.event_name.clone());
        r.push(i32_to_text(self.difference));
        r.push(i32_to_text(self.prev_bal));
        r.push(i32_to_text(self.post_bal));
        assert(r.deep_view() =~= entry_row(self@));
        r
    }

    /// The write that stores the entry in the row that `args` names, columns
    /// `A` to `D` of the sheet that `args` names.
    pub fn sheet_write(&self, args: &SerializeArgs) -> (r: Result<SheetWrite, SerializeError>)
        ensures
            args.sheet is None ==> r == Err::<SheetWrite, SerializeError>(SerializeError::SheetNotProvided),
            args.sheet is Some && args.start_idx is None ==> r == Err::<SheetWrite, SerializeError>(
                SerializeError::IndexNotProvided,
            ),
            args.sheet is Some && args.start_idx is Some ==> r is Ok && r->Ok_0@ == entry_write(
                args.sheet->Some_0@,
                args.start_idx->Some_0,
                self@,
            ),
    {
        let range = match HistoryEntry::read_range(args) {
            Ok(range) => range,
            Err(e) => return Err(e),
        };
        let mut values: Vec<Vec<String>> = Vec::new();
        values.push(self.row_values());
        let w = SheetWrite { range, values };
        assert(w@.values =~= seq![entry_row(self@)]);
        Ok(w)
    }

    /// The range that holds the entry: columns `A` to `D` of the row and
    /// sheet that `args` name.
    pub fn read_range(args: &SerializeArgs) -> (r: Result<CellRange, SerializeError>)
        ensures
            args.sheet is None ==> r == Err::<CellRange, SerializeError>(SerializeError::SheetNotProvided),
            args.sheet is Some && args.start_idx is None ==> r == Err::<CellRange, SerializeError>(
                SerializeError::IndexNotProvided,
            ),
            args.sheet is Some && args.start_idx is Some ==> r is Ok && r->Ok_0@ == (CellRangeView {
                sheet: args.sheet->Some_0@,
                first_column: 0,
                last_column: 3,
                row: Some(args.start_idx->Some_0),
            }),
    {
        let sheet = match &args.sheet {
            Some(s) => s.clone(),
            None => return Err(SerializeError::SheetNotProvided),
        };
        let idx = match args.start_idx {
            Some(i) => i,
            None => return Err(SerializeError::IndexNotProvided),
        };
        Ok(CellRange { sheet, first_column: 0, last_column: 3, row: Some(idx) })
    }

    /// The entry held by the first row of the values read from its range.
    pub fn from_sheet_values(values: &Vec<Vec<String>>) -> (r: HistoryEntry)
        requires
            values@.len() >= 1,
            entry_row_readable(values.deep_view()[0]),
        ensures
            r@ == entry_of_row(values.deep_view()[0]),
    {
        HistoryEntry::from_row(&values[0])
    }

    /// The entry held by a row of cells.
    fn from_row(row: &Vec<String>) -> (r: HistoryEntry)
        requires
            entry_row_readable(row.deep_view()),
        ensures
            r@ == entry_of_row(row.deep_view()),
    {
        HistoryEntry {
            event_name: row[0].clone(),
            difference: parse_i32(row[1].as_str()).unwrap(),
            prev_bal: parse_i32(row[2].as_str()).unwrap(),
            post_bal: parse_i32(row[3].as_str()).unwrap(),
        }
    }

    /// Whether an entry can be read from the values read from its range;
    /// reading it from values where this fails would stop the service.
    pub fn is_readable_values(values: &Vec<Vec<String>>) -> (b: bool)
        ensures
            b == (values@.len() >= 1 && entry_row_readable(values.deep_view()[0])),
    {
        values.len() >= 1 && HistoryEntry::row_readable(&values[0])
    }

    /// Whether a row of cells holds an entry that can be read.
    fn row_readable(row: &Vec<String>) -> (b: bool)
        ensures
            b == entry_row_readable(row.deep_view()),
    {
        row.len() >= 4 && parse_i32(row[1].as_str()).is_some() && parse_i32(row[2].as_str()).is_some()
            && parse_i32(row[3].as_str()).is_some()
    }
}


impl Account {
    /// A copy of the account.
    pub fn duplicate(&self) -> (r: Account)
        ensures
            r@ == self@,
    {
        let mut history: Vec<HistoryEntry> = Vec::new();
        let mut i: usize = 0;
        while i < self.history.len()
            invariant
                i <= self.history@.len(),
                history@.len() == i,
                forall|k: int| 0 <= k < i ==> #[trigger] history@[k]@ == self.history@[k]@,
            decreases self.history@.len() - i,
        {
            let e = self.history[i].duplicate();
            let ghost before = history@;
            history.push(e);
            assert(history@ =~= before.push(e));
            i = i + 1;
        }
        assert(history_view(history@) =~= history_view(self.history@));
        Account {
            name: self.name.clone(),
            points: self.points,
            currency: self.currency.clone(),
            pass: self.pass.clone(),
            history,
        }
    }

    /// Where the account of `name` is read from: the sheet titled `name_ACCOUNT`.
    pub fn account_args(name: &str) -> (r: SerializeArgs)
        ensures
            r.sheet is Some,
            r.sheet->Some_0@ == account_sheet(name@),
            r.start_idx is None,
    {
        SerializeArgs { sheet: Some(with_account_suffix(name)), start_idx: None }
    }

    /// The write of the header: points, currency and password, one per row,
    /// into columns `A` to `E` of the account's sheet.
    pub fn header_write(&self) -> (r: SheetWrite)
        ensures
            r@ == header_write(self@),
    {
        let sheet = with_account_suffix(self.name.as_str());
        let mut values: Vec<Vec<String>> = Vec::new();
        let mut row: Vec<String> = Vec::new();
        row.push(i32_to_text(self.points));
        values.push(row);
        let mut row: Vec<String> = Vec::new();
        row.push(self.currency.clone());
        values.push(row);
        let mut row: Vec<String> = Vec::new();
        row.push(self.pass.clone());
        values.push(row);
        let w = SheetWrite {
            range: CellRange { sheet, first_column: 0, last_column: 4, row: None },
            values,
        };
        assert(w@.values =~~= header_rows(self@));
        w
    }

    /// The writes that store the account: the header first, then each
    /// history entry in row 4, 5, ... of the account's sheet.
    pub fn sheet_writes(&self) -> (r: Vec<SheetWrite>)
        ensures
            r@.map_values(|w: SheetWrite| w@) == account_writes(self@),
    {
        let sheet = with_account_suffix(self.name.as_str());
        let mut r: Vec<SheetWrite> = Vec::new();
        r.push(self.header_write());
        let ghost writes = account_writes(self@);
        let mut idx: usize = 0;
        while idx < self.history.len()
            invariant
                idx <= self.history@.len(),
                sheet@ == account_sheet(self.name@),
                writes == account_writes(self@),
                r@.len() == idx + 1,
                forall|k: int| 0 <= k < r@.len() ==> #[trigger] r@[k]@ == writes[k],
            decreases self.history@.len() - idx,
        {
            let mut args = SerializeArgs::new();
            args.sheet = Some(sheet.clone());
            args.start_idx = Some(((idx as u128) + 4) as u32);
            let w = self.history[idx].sheet_write(&args).unwrap();
            assert(history_view(self.history@)[idx as int] == self.history@[idx as int]@);
            r.push(w);
            idx = idx + 1;
        }
        assert(r@.map_values(|w: SheetWrite| w@) =~= writes);
        r
    }

    /// Whether an account can be read from the values of the sheet titled
    /// `sheet_name`; reading it from values where this fails would stop the
    /// service.
    pub fn is_readable_sheet(sheet_name: &str, values: &Vec<Vec<String>>) -> (b: bool)
        requires
            encode_utf8(sheet_name@).len() <= usize::MAX,
        ensures
            b == account_readable(sheet_name@, values.deep_view()),
    {
        let ghost rows = values.deep_view();
        assert(sheet_name.spec_bytes() == encode_utf8(sheet_name@));
        let n = sheet_name.len();
        if n < 8 || !sheet_name.is_char_boundary(n - 8) {
            return false;
        }
        if values.len() < 3 || values[0].len() < 1 || values[1].len() < 1 || values[2].len() < 1 {
            return false;
        }
        if parse_i32(values[0][0].as_str()).is_none() {
            return false;
        }
        assert(values[0].deep_view() == rows[0]);
        assert(header_readable(rows));
        assert(can_drop_eight_bytes(sheet_name@));
        let mut i: usize = 3;
        while i < values.len()
            invariant
                rows == values.deep_view(),
                3 <= i <= rows.len(),
                header_readable(rows),
                can_drop_eight_bytes(sheet_name@),
                history_readable_from(rows, 3) == history_readable_from(rows, i as int),
            decreases rows.len() - i,
        {
            let row = &values[i];
            assert(row.deep_view() == rows[i as int]);
            if row.len() == 0 {
                return false;
            }
            if row[0].as_str().is_empty() {
                return true;
            }
            if !HistoryEntry::row_readable(row) {
                return false;
            }
            i = i + 1;
        }
        true
    }

    /// The account read from the values of the sheet titled `sheet_name`:
    /// points, currency and password from the first cells of the first three
    /// rows, then one history entry per row up to the first row whose first
    /// cell is empty; the owner's name is the title without its last eight bytes.
    pub fn from_sheet_values(sheet_name: &str, values: &Vec<Vec<String>>) -> (r: Account)
        requires
            account_readable(sheet_name@, values.deep_view()),
            encode_utf8(sheet_name@).len() <= usize::MAX,
        ensures
            r@ == read_account(sheet_name@, values.deep_view()),
    {
        let ghost rows = values.deep_view();
        assert(values[0].deep_view() == rows[0]);
        assert(values[1].deep_view() == rows[1]);
        assert(values[2].deep_view() == rows[2]);
        let name = drop_last_eight_bytes(sheet_name);
        let points = parse_i32(values[0][0].as_str()).unwrap();
        let mut acc = Account {
            name,
            points,
            currency: values[1][0].clone(),
            pass: values[2][0].clone(),
            history: Vec::new(),
        };
        let ghost target = read_account(sheet_name@, rows);
        assert(history_view(acc.history@) =~= Seq::<HistoryEntryView>::empty());
        let mut i: usize = 3;
        while i < values.len()
            invariant
                rows == values.deep_view(),
                3 <= i <= rows.len(),
                history_readable_from(rows, i as int),
                target == read_account(sheet_name@, rows),
                acc.name@ == target.name,
                acc.points == target.points,
                acc.currency@ == target.currency,
                acc.pass@ == target.pass,
                target.history == history_view(acc.history@) + history_of_rows(rows, i as int),
            decreases rows.len() - i,
        {
            let row = &values[i];
            assert(row.deep_view() == rows[i as int]);
            if row[0].as_str().is_empty() {
                assert(history_of_rows(rows, i as int) =~= Seq::<HistoryEntryView>::empty());
                assert(target.history =~= history_view(acc.history@));
                return acc;
            }
            let e = HistoryEntry::from_row(row);
            let ghost before = acc.history@;
            acc.history.push(e);
            proof {
                assert(acc.history@ =~= before.push(e));
                assert(history_view(acc.history@) =~= history_view(before).push(e@));
                assert(history_of_rows(rows, i as int) =~= seq![e@] + history_of_rows(rows, i + 1));
                assert(target.history =~= history_view(acc.history@) + history_of_rows(rows, i + 1));
            }
            i = i + 1;
        }
        assert(history_of_rows(rows, i as int) =~= Seq::<HistoryEntryView>::empty());
        assert(target.history =~= history_view(acc.history@));
        acc
    }

    /// How storing an account ends when its `index`-th write fails: a failed
    /// header write (the first) ends it with `WriteFailed`; a failed history
    /// write is only reported, and the storing goes on.
    pub fn failed_write_outcome(index: usize) -> (r: Option<SerializeError>)
        ensures
            index == 0 ==> r == Some(SerializeError::WriteFailed),
            index != 0 ==> r is None,
    {
        if index == 0 {
            Some(SerializeError::WriteFailed)
        } else {
            None
        }
    }

    /// The range an account is read from: columns `A` to `D` of the sheet
    /// that `args` names.
    pub fn read_range(args: &SerializeArgs) -> (r: Result<CellRange, SerializeError>)
        ensures
            args.sheet is None ==> r == Err::<CellRange, SerializeError>(SerializeError::SheetNotProvided),
            args.sheet is Some ==> r is Ok && r->Ok_0@ == (CellRangeView {
                sheet: args.sheet->Some_0@,
                first_column: 0,
                last_column: 3,
                row: None,
            }),
    {
        match &args.sheet {
            Some(s) => Ok(CellRange { sheet: s.clone(), first_column: 0, last_column: 3, row: None }),
            None => Err(SerializeError::SheetNotProvided),
        }
    }
}


/// What a history entry's write stores in its row, reading that row gives
/// back: the row can always be read, and holds the entry.
pub proof fn law_history_entry_reads_back(e: HistoryEntryView)
    ensures
        entry_row_readable(entry_row(e)),
        entry_of_row(entry_row(e)) == e,
{
    law_int_text_parses_back(e.difference);
    law_int_text_parses_back(e.prev_bal);
    law_int_text_parses_back(e.post_bal);
}

/// Whether every history entry of an account has an event name.
pub open spec fn event_names_present(a: AccountView) -> bool {
    forall|k: int| 0 <= k < a.history.len() ==> (#[trigger] a.history[k]).event_name.len() > 0
}

/// The cells of an account's sheet after its first `m` writes: the header
/// cells once the header is written, and one row of four cells per entry
/// written since.
spec fn cells_after_writes(a: AccountView, m: int) -> Map<(int, int), Seq<char>> {
    Map::new(
        |p: (int, int)| (m >= 1 && 0 <= p.0 < 3 && p.1 == 0) || (3 <= p.0 < 2 + m && 0 <= p.1 < 4),
        |p: (int, int)| account_rows(a)[p.0][p.1],
    )
}

proof fn lemma_account_rows(a: AccountView)
    ensures
        account_rows(a).len() == 3 + a.history.len(),
        forall|i: int| 0 <= i < 3 ==> (#[trigger] account_rows(a)[i]) == header_rows(a)[i],
        forall|i: int| 0 <= i < 3 ==> (#[trigger] account_rows(a)[i]).len() == 1,
        forall|k: int|
            0 <= k < a.history.len() ==> #[trigger] account_rows(a)[k + 3] == entry_row(a.history[k]),
        forall|k: int| 0 <= k < a.history.len() ==> (#[trigger] account_rows(a)[k + 3]).len() == 4,
{
}

proof fn lemma_cells_after_writes(a: AccountView, m: int)
    requires
        0 <= m <= a.history.len() + 1,
        a.history.len() + 4 <= u32::MAX,
    ensures
        apply_writes(Map::empty(), account_writes(a).take(m)) == cells_after_writes(a, m),
    decreases m,
{
    lemma_account_rows(a);
    let ws = account_writes(a);
    if m == 0 {
        assert(ws.take(0) =~= Seq::<SheetWriteView>::empty());
        assert(apply_writes(Map::empty(), ws.take(0)) =~= cells_after_writes(a, 0));
    } else {
        lemma_cells_after_writes(a, m - 1);
        assert(ws.take(m).drop_last() =~= ws.take(m - 1));
        assert(ws.take(m).last() == ws[m - 1]);
        let before = apply_writes(Map::empty(), ws.take(m - 1));
        let w = ws[m - 1];
        let after = apply_write(before, w);
        assert(apply_writes(Map::empty(), ws.take(m)) == after);
        if m == 1 {
            assert(w == header_write(a));
            assert forall|p: (int, int)| #[trigger] writes_cell(w, p) <==> (0 <= p.0 < 3 && p.1 == 0) by {
                if 0 <= p.0 < 3 {
                    assert(w.values[p.0].len() == 1);
                }
            }
        } else {
            let k = m - 2;
            assert(w == entry_write(account_sheet(a.name), history_row(k), a.history[k]));
            assert(history_row(k) == k + 4);
            assert(write_top(w) == k + 3);
            assert forall|p: (int, int)| #[trigger] writes_cell(w, p) <==> (p.0 == k + 3 && 0 <= p.1 < 4) by {
            }
        }
        assert(after =~= cells_after_writes(a, m));
    }
}

/// The cells that the writes of an account leave in an empty sheet read
/// back, four columns wide from column `A`, as the rows of the account.
proof fn lemma_rows_after_writes(a: AccountView)
    requires
        a.history.len() + 4 <= u32::MAX,
    ensures
        read_rows(
            apply_writes(Map::empty(), account_writes(a)),
            (3 + a.history.len()) as nat,
            0,
            4,
        ) == account_rows(a),
        forall|p: (int, int)|
            #[trigger] apply_writes(Map::empty(), account_writes(a)).dom().contains(p) ==> 0 <= p.0 < 3
                + a.history.len() && 0 <= p.1 < 4,
{
    lemma_account_rows(a);
    let ws = account_writes(a);
    let n = a.history.len() + 1;
    lemma_cells_after_writes(a, n as int);
    assert(ws.take(n as int) =~= ws);
    let cells = cells_after_writes(a, n as int);
    let rows = read_rows(cells, (3 + a.history.len()) as nat, 0, 4);
    assert forall|i: int| 0 <= i < rows.len() implies #[trigger] rows[i] == account_rows(a)[i] by {
        reveal_with_fuel(row_cells, 5);
        if i < 3 {
            assert(!cells.dom().contains((i, 1)));
            assert(row_cells(cells, i, 1, 3) =~= Seq::<Seq<char>>::empty());
            assert(rows[i] =~= account_rows(a)[i]);
        } else {
            assert(row_cells(cells, i, 4, 0) =~= Seq::<Seq<char>>::empty());
            assert(rows[i] =~= account_rows(a)[i]);
        }
    }
    assert(rows =~= account_rows(a));
}

/// Reading the rows of an account from row `i` on gives back its history from
/// entry `i - 3` on.
proof fn lemma_history_reads_back(a: AccountView, i: int)
    requires
        event_names_present(a),
        3 <= i <= 3 + a.history.len(),
    ensures
        history_readable_from(account_rows(a), i),
        history_of_rows(account_rows(a), i) == a.history.subrange(i - 3, a.history.len() as int),
    decreases 3 + a.history.len() - i,
{
    lemma_account_rows(a);
    let rows = account_rows(a);
    if i == 3 + a.history.len() {
        assert(a.history.subrange(i - 3, a.history.len() as int) =~= Seq::<HistoryEntryView>::empty());
    } else {
        lemma_history_reads_back(a, i + 1);
        let e = a.history[i - 3];
        assert(rows[i] == entry_row(e));
        assert(e.event_name.len() > 0);
        law_int_text_parses_back(e.difference);
        law_int_text_parses_back(e.prev_bal);
        law_int_text_parses_back(e.post_bal);
        assert(entry_of_row(rows[i]) == e);
        assert(a.history.subrange(i - 3, a.history.len() as int) =~= seq![e] + a.history.subrange(
            i - 2,
            a.history.len() as int,
        ));
    }
}

/// What an account's writes store, its read gives back: the writes all go to
/// the sheet titled `name_ACCOUNT`; they leave in an empty sheet exactly the
/// rows of the account (points, currency, password, then one row per history
/// entry); and reading those rows from that sheet gives back the account,
/// provided every history entry has an event name (an empty one ends the
/// history when read) and the rows of the entries stay within `u32`.
pub proof fn law_written_account_reads_back(a: AccountView)
    requires
        event_names_present(a),
        a.history.len() + 4 <= u32::MAX,
    ensures
        forall|k: int|
            0 <= k < account_writes(a).len() ==> (#[trigger] account_writes(a)[k]).range.sheet
                == account_sheet(a.name),
        read_rows(
            apply_writes(Map::empty(), account_writes(a)),
            (3 + a.history.len()) as nat,
            0,
            4,
        ) == account_rows(a),
        forall|p: (int, int)|
            #[trigger] apply_writes(Map::empty(), account_writes(a)).dom().contains(p) ==> 0 <= p.0 < 3
                + a.history.len() && 0 <= p.1 < 4,
        account_readable(account_sheet(a.name), account_rows(a)),
        read_account(account_sheet(a.name), account_rows(a)) == a,
{
    lemma_account_rows(a);
    lemma_rows_after_writes(a);
    lemma_drop_account_suffix(a.name);
    law_int_text_parses_back(a.points);
    lemma_history_reads_back(a, 3);
    assert(a.history.subrange(0, a.history.len() as int) =~= a.history);
    let r = read_account(account_sheet(a.name), account_rows(a));
    assert(r.history =~= a.history);
}

} // verus!
