//! Cells of a spreadsheet: JSON cell values, ranges in A1 notation, the
//! writes of a record and a model of the cells they leave.
use vstd::prelude::*;
use crate::text::{nat_digits, push_char, push_decimal};

verus! {

/// Why the spreadsheet client could not serve a request.
#[derive(Debug, Clone, Copy, PartialEq, Eq, Structural)]
pub enum AppError {
    NotInitialized,
    NoValues,
}

/// The name by which an error is shown.
pub open spec fn app_error_text(e: AppError) -> Seq<char> {
    match e {
        AppError::NotInitialized => "NotInitialized"@,
        AppError::NoValues => "NoValues"@,
    }
}

impl AppError {
    /// The name by which the error is shown.
    pub fn name(&self) -> (r: &'static str)
        ensures
            r@ == app_error_text(*self),
    {
        match self {
            AppError::NotInitialized => "NotInitialized",
            AppError::NoValues => "NoValues",
        }
    }
}

#[verifier::external_type_specification]
#[verifier::external_body]
pub struct ExJsonValue(serde_json::Value);

/// The text of a JSON value when it is a JSON string, `None` for any other value.
pub uninterp spec fn json_text(v: serde_json::Value) -> Option<Seq<char>>;

/// `serde_json::Value::as_str`: the text of a JSON string, `None` for every
/// other kind of value.
#[verifier::external_body]
fn json_as_str(v: &serde_json::Value) -> (r: Option<&str>)
    ensures
        r is None <==> json_text(*v) is None,
        r matches Some(s) ==> json_text(*v) == Some(s@),
{
    v.as_str()
}

/// `serde_json::Value::from(String)`: the JSON string with the given text,
/// of which `as_str` gives back that text.
#[verifier::external_body]
fn json_from_string(s: String) -> (v: serde_json::Value)
    ensures
        json_text(v) == Some(s@),
{
    serde_json::Value::from(s)
}

/// The text shown for a cell: that of a JSON string, empty for any other value.
pub open spec fn cell_text(v: serde_json::Value) -> Seq<char> {
    match json_text(v) {
        Some(t) => t,
        None => Seq::empty(),
    }
}

/// The cell texts of a grid of JSON values, row by row.
pub fn to_string_vec(json_vec: Vec<Vec<serde_json::Value>>) -> (r: Vec<Vec<String>>)
    ensures
        r@.len() == json_vec@.len(),
        forall|i: int| 0 <= i < r@.len() ==> #[trigger] r@[i]@.len() == json_vec@[i]@.len(),
        forall|i: int, j: int|
            0 <= i < r@.len() && 0 <= j < r@[i]@.len() ==> #[trigger] r@[i]@[j]@ == cell_text(
                json_vec@[i]@[j],
            ),
{
    let mut r: Vec<Vec<String>> = Vec::new();
    let mut i: usize = 0;
    while i < json_vec.len()
        invariant
            i <= json_vec@.len(),
            r@.len() == i,
            forall|k: int| 0 <= k < i ==> #[trigger] r@[k]@.len() == json_vec@[k]@.len(),
            forall|k: int, j: int|
                0 <= k < i && 0 <= j < r@[k]@.len() ==> #[trigger] r@[k]@[j]@ == cell_text(
                    json_vec@[k]@[j],
                ),
        decreases json_vec@.len() - i,
    {
        let row = &json_vec[i];
        let mut out: Vec<String> = Vec::new();
        let mut j: usize = 0;
        while j < row.len()
            invariant
                j <= row@.len(),
                out@.len() == j,
                forall|m: int| 0 <= m < j ==> #[trigger] out@[m]@ == cell_text(row@[m]),
            decreases row@.len() - j,
        {
            let text = match json_as_str(&row[j]) {
                Some(s) => String::from_str(s),
                None => String::new(),
            };
            out.push(text);
            j = j + 1;
        }
        r.push(out);
        i = i + 1;
    }
    r
}

/// A grid of texts as a grid of JSON strings.
pub fn to_json_vec(string_vec: Vec<Vec<String>>) -> (r: Vec<Vec<serde_json::Value>>)
    ensures
        r@.len() == string_vec@.len(),
        forall|i: int| 0 <= i < r@.len() ==> #[trigger] r@[i]@.len() == string_vec@[i]@.len(),
        forall|i: int, j: int|
            0 <= i < r@.len() && 0 <= j < r@[i]@.len() ==> json_text(#[trigger] r@[i]@[j])
                == Some(string_vec@[i]@[j]@),
{
    let mut r: Vec<Vec<serde_json::Value>> = Vec::new();
    let mut i: usize = 0;
    while i < string_vec.len()
        invariant
            i <= string_vec@.len(),
            r@.len() == i,
            forall|k: int| 0 <= k < i ==> #[trigger] r@[k]@.len() == string_vec@[k]@.len(),
            forall|k: int, j: int|
                0 <= k < i && 0 <= j < r@[k]@.len() ==> json_text(#[trigger] r@[k]@[j])
                    == Some(string_vec@[k]@[j]@),
        decreases string_vec@.len() - i,
    {
        let row = &string_vec[i];
        let mut out: Vec<serde_json::Value> = Vec::new();
        let mut j: usize = 0;
        while j < row.len()
            invariant
                j <= row@.len(),
                out@.len() == j,
                forall|m: int| 0 <= m < j ==> json_text(#[trigger] out@[m]) == Some(row@[m]@),
            decreases row@.len() - j,
        {
            out.push(json_from_string(row[j].clone()));
            j = j + 1;
        }
        r.push(out);
        i = i + 1;
    }
    r
}

/// Turning texts into JSON strings and reading the cells back gives the texts.
pub proof fn law_json_cells_round_trip(texts: Seq<Seq<Seq<char>>>, json: Seq<Seq<serde_json::Value>>)
    requires
        json.len() == texts.len(),
        forall|i: int| 0 <= i < json.len() ==> #[trigger] json[i].len() == texts[i].len(),
        forall|i: int, j: int|
            0 <= i < json.len() && 0 <= j < json[i].len() ==> json_text(#[trigger] json[i][j])
                == Some(texts[i][j]),
    ensures
        forall|i: int, j: int|
            0 <= i < json.len() && 0 <= j < json[i].len() ==> cell_text(#[trigger] json[i][j])
                == texts[i][j],
{
}


/// A block of cells: whole columns `first_column..=last_column` (counted
/// from 0 for `A`), or only the cells of those columns in one row, counted
/// from 1 as A1 notation does.
pub struct CellRange {
    pub sheet: String,
    pub first_column: u32,
    pub last_column: u32,
    pub row: Option<u32>,
}

/// A block of cells, with the sheet's title as text.
pub struct CellRangeView {
    pub sheet: Seq<char>,
    pub first_column: u32,
    pub last_column: u32,
    pub row: Option<u32>,
}

impl View for CellRange {
    type V = CellRangeView;

    open spec fn view(&self) -> CellRangeView {
        CellRangeView {
            sheet: self.sheet@,
            first_column: self.first_column,
            last_column: self.last_column,
            row: self.row,
        }
    }
}

/// The letter of a column among the first 26.
pub open spec fn column_letter(c: int) -> char {
    "ABCDEFGHIJKLMNOPQRSTUVWXYZ"@[c]
}

/// The letters of a column in A1 notation: `A` to `Z`, then `AA`, `AB`, ...
pub open spec fn column_letters(c: nat) -> Seq<char>
    decreases c,
{
    if c < 26 {
        seq![column_letter(c as int)]
    } else {
        column_letters((c / 26 - 1) as nat).push(column_letter((c % 26) as int))
    }
}

/// The row number of a range in A1 notation, empty for whole columns.
pub open spec fn row_text(row: Option<u32>) -> Seq<char> {
    match row {
        Some(n) => nat_digits(n as nat),
        None => Seq::empty(),
    }
}

/// A range in A1 notation: `Sheet!A:E` for whole columns, `Sheet!A5:D5` for one row.
pub open spec fn a1_text(r: CellRangeView) -> Seq<char> {
    r.sheet + seq!['!'] + column_letters(r.first_column as nat) + row_text(r.row) + seq![':']
        + column_letters(r.last_column as nat) + row_text(r.row)
}

fn push_column_letters(s: &mut String, c: u32)
    ensures
        final(s)@ == old(s)@ + column_letters(c as nat),
    decreases c,
{
    let letters = "ABCDEFGHIJKLMNOPQRSTUVWXYZ";
    proof {
        reveal_strlit("ABCDEFGHIJKLMNOPQRSTUVWXYZ");
    }
    if c >= 26 {
        push_column_letters(s, c / 26 - 1);
    }
    let k = c % 26;
    let letter = letters.get_char(k as usize);
    push_char(s, letter);
    proof {
        if c < 26 {
            assert(k == c);
        }
    }
}

impl CellRange {
    /// The range in A1 notation, as the spreadsheet service takes it.
    pub fn a1_notation(&self) -> (r: String)
        ensures
            r@ == a1_text(self@),
    {
        let mut r = self.sheet.clone();
        push_char(&mut r, '!');
        push_column_letters(&mut r, self.first_column);
        if let Some(n) = self.row {
            push_decimal(&mut r, n);
        }
        push_char(&mut r, ':');
        push_column_letters(&mut r, self.last_column);
        if let Some(n) = self.row {
            push_decimal(&mut r, n);
        }
        proof {
            let v = self@;
            assert(r@ =~= a1_text(v));
        }
        r
    }
}

/// Texts to be written into a block of cells: `values[i][j]` goes to the
/// `i`-th row and `j`-th column of the range.
pub struct SheetWrite {
    pub range: CellRange,
    pub values: Vec<Vec<String>>,
}

/// A write with its range and texts as views.
pub struct SheetWriteView {
    pub range: CellRangeView,
    pub values: Seq<Seq<Seq<char>>>,
}

impl View for SheetWrite {
    type V = SheetWriteView;

    open spec fn view(&self) -> SheetWriteView {
        SheetWriteView { range: self.range@, values: self.values.deep_view() }
    }
}

/// The row (counted from 0) where the texts of a write start.
pub open spec fn write_top(w: SheetWriteView) -> int {
    match w.range.row {
        Some(n) => n - 1,
        None => 0,
    }
}

/// Whether a write puts a text into the cell at `(row, column)`, both counted from 0.
pub open spec fn writes_cell(w: SheetWriteView, p: (int, int)) -> bool {
    let i = p.0 - write_top(w);
    let j = p.1 - w.range.first_column;
    0 <= i < w.values.len() && 0 <= j < w.values[i].len()
}

/// The cells of a sheet after a write: the written cells hold their new
/// texts, the others keep theirs.
pub open spec fn apply_write(cells: Map<(int, int), Seq<char>>, w: SheetWriteView) -> Map<
    (int, int),
    Seq<char>,
> {
    Map::new(
        |p: (int, int)| cells.dom().contains(p) || writes_cell(w, p),
        |p: (int, int)|
            if writes_cell(w, p) {
                w.values[p.0 - write_top(w)][p.1 - w.range.first_column]
            } else {
                cells[p]
            },
    )
}

/// The cells of a sheet after a sequence of writes, in order.
pub open spec fn apply_writes(cells: Map<(int, int), Seq<char>>, ws: Seq<SheetWriteView>) -> Map<
    (int, int),
    Seq<char>,
>
    decreases ws.len(),
{
    if ws.len() == 0 {
        cells
    } else {
        apply_write(apply_writes(cells, ws.drop_last()), ws.last())
    }
}

/// The texts of one row read from `column` on, at most `width` of them,
/// up to the first empty cell.
pub open spec fn row_cells(cells: Map<(int, int), Seq<char>>, row: int, column: int, width: nat) -> Seq<
    Seq<char>,
>
    decreases width,
{
    if width == 0 || !cells.dom().contains((row, column)) {
        Seq::empty()
    } else {
        seq![cells[(row, column)]] + row_cells(cells, row, column + 1, (width - 1) as nat)
    }
}

/// The first `rows` rows of a block `width` columns wide from `column` on.
pub open spec fn read_rows(cells: Map<(int, int), Seq<char>>, rows: nat, column: int, width: nat) -> Seq<
    Seq<Seq<char>>,
> {
    Seq::new(rows, |i: int| row_cells(cells, i, column, width))
}

/// Whether one of the titles is `name`, as a search of a spreadsheet's sheets tells.
pub fn sheet_titles_contain(titles: &Vec<String>, name: &str) -> (b: bool)
    ensures
        b == exists|i: int| 0 <= i < titles@.len() && #[trigger] titles@[i]@ == name@,
{
    let target = String::from_str(name);
    let mut i: usize = 0;
    while i < titles.len()
        invariant
            target@ == name@,
            i <= titles@.len(),
            forall|k: int| 0 <= k < i ==> #[trigger] titles@[k]@ != name@,
        decreases titles@.len() - i,
    {
        if titles[i] == target {
            return true;
        }
        i = i + 1;
    }
    false
}

} // verus!
