//! Statement import: a fold over the rows of a brokerage CSV export that
//! finds the trade table's header, carries the current ticker forward and
//! turns each complete detail row into a [`Position`].
use crate::date::{date_field, date_field_of, date_le, date_le_exec, CivilDate};
use crate::decimal::{
    is_missing, is_missing_exec, number_field, number_field_of, Decimal, NumberField,
};
use crate::form::fault_text;
use crate::header::{detect_header, detect_header_exec, HeaderMap};
use crate::position::{positions_view, Position, PositionView};
use crate::text::{
    append_lit, chars_of, contains, contains_exec, eq_lit, lower, matches_at_exec, nat_text,
    push_numeral, slice_of, starts_with, string_of, to_lower, to_upper, trim, trimmed, upper,
};
use vstd::prelude::*;

verus! {

/// Which field of a trade row a fault is about.
#[derive(Clone, Copy, Debug, PartialEq, Eq, Structural)]
pub enum FieldLabel {
    CostPerShare,
    Quantity,
    SalePrice,
    PurchaseDate,
    SaleDate,
}

/// Why a row cannot become a trade.
#[derive(Clone, Copy, Debug, PartialEq, Eq, Structural)]
pub enum RowFault {
    InvalidNumber(FieldLabel),
    InvalidDate(FieldLabel),
    EmptyTicker,
    /// The sale date precedes the purchase date.
    DateOrder,
}

/// Why an import failed.
#[derive(Clone, Debug)]
pub enum ImportError {
    /// A row (1-based `line`) holds a malformed required value.
    Row { line: usize, fault: RowFault },
    /// The CSV reader failed on the record that follows the first `after` ones.
    Reader { after: usize, message: String },
    /// No row anywhere in the input was a trade.
    NoRows,
}

/// How an import names a row fault; a date-order fault reads in lower case.
pub open spec fn import_fault_text(f: RowFault) -> Seq<char> {
    match f {
        RowFault::DateOrder => "sale date cannot be before purchase date"@,
        _ => fault_text(f),
    }
}

/// The message that reports a failed import outcome.
pub open spec fn outcome_error_text(o: Outcome) -> Seq<char> {
    match o {
        Outcome::Fault(line, fault) => "Line "@ + nat_text(line as nat) + ": "@
            + import_fault_text(fault),
        Outcome::Reader(after, message) => "Line "@ + nat_text((after + 1) as nat) + ": "@
            + message,
        _ => "No rows found to import"@,
    }
}

/// The message that reports an import error.
pub open spec fn import_error_text(e: ImportError) -> Seq<char> {
    outcome_error_text(outcome_of(Err(e)))
}

impl ImportError {
    /// The message that reports the error: `Line <n>: <reason>` for a row or
    /// reader failure.
    pub fn message(&self) -> (r: String)
        ensures
            r@ == import_error_text(*self),
    {
        let mut v: Vec<char> = Vec::new();
        match self {
            ImportError::Row { line, fault } => {
                append_lit(&mut v, "Line ");
                push_numeral(&mut v, *line as u128);
                append_lit(&mut v, ": ");
                if *fault == RowFault::DateOrder {
                    append_lit(&mut v, "sale date cannot be before purchase date");
                } else {
                    let m = fault.message();
                    append_lit(&mut v, m.as_str());
                }
            },
            ImportError::Reader { after, message } => {
                append_lit(&mut v, "Line ");
                push_numeral(&mut v, *after as u128 + 1);
                append_lit(&mut v, ": ");
                append_lit(&mut v, message.as_str());
            },
            ImportError::NoRows => append_lit(&mut v, "No rows found to import"),
        }
        assert(v@ =~= import_error_text(*self));
        string_of(&v)
    }
}

/// The model of what an import returns.
pub enum Outcome {
    Records(Seq<PositionView>),
    /// The 1-based number of the faulty row, and its fault.
    Fault(int, RowFault),
    /// How many rows the reader produced before failing, and its message.
    Reader(int, Seq<char>),
    NoRows,
}

/// What the fold carries from row to row. Rows ahead of the first section
/// marker are searched for a header like any other row, so being inside the
/// trade section needs no flag of its own: a marker only drops the header.
pub struct ParseState {
    pub header: Option<HeaderMap>,
    /// Whether any row so far was recognised as a header.
    pub header_seen: bool,
    pub ticker: Option<Seq<char>>,
    pub records: Seq<PositionView>,
}

pub open spec fn initial_state() -> ParseState {
    ParseState { header: None, header_seen: false, ticker: None, records: Seq::empty() }
}

/// The `i`-th cell of a row, or the empty text past its end.
pub open spec fn cell(row: Seq<Seq<char>>, i: int) -> Seq<char> {
    if 0 <= i < row.len() {
        row[i]
    } else {
        Seq::empty()
    }
}

/// The cells joined by single spaces.
pub open spec fn join_cells(row: Seq<Seq<char>>) -> Seq<char>
    decreases row.len(),
{
    if row.len() == 0 {
        Seq::empty()
    } else if row.len() == 1 {
        row[0]
    } else {
        join_cells(row.drop_last()) + seq![' '] + row.last()
    }
}

/// The row announces the trade-detail table.
pub open spec fn is_section_marker(row: Seq<Seq<char>>) -> bool {
    contains(lower(join_cells(row)), "taxable g&l details"@)
}

/// A summary line: the first cell is `total` or `subtotal`, in any case.
pub open spec fn is_total_row(row: Seq<Seq<char>>) -> bool {
    row.len() > 0 && (lower(trim(row[0])) == "total"@ || lower(trim(row[0])) == "subtotal"@)
}

/// A ticker cell that names the symbol for the rows that follow.
pub open spec fn is_context_ticker(raw: Seq<char>) -> bool {
    let t = trim(raw);
    t.len() > 0 && t != "--"@ && !starts_with(lower(t), "sell"@)
}

/// The fixed layout used when no header is ever recognised.
pub open spec fn positional_header() -> HeaderMap {
    HeaderMap { ticker: 0, cost: 1, qty: 2, sale_price: 3, buy_date: 4, sale_date: 5 }
}

pub open spec fn amount_field(raw: Seq<char>, label: FieldLabel) -> Result<Decimal, RowFault> {
    match number_field(raw) {
        NumberField::Value(d) => Ok(d),
        _ => Err(RowFault::InvalidNumber(label)),
    }
}

pub open spec fn date_of_field(raw: Seq<char>, label: FieldLabel) -> Result<CivilDate, RowFault> {
    match date_field(raw) {
        Some(d) => Ok(d),
        None => Err(RowFault::InvalidDate(label)),
    }
}

/// The trade that a complete row describes, or its first fault.
pub open spec fn trade_of(row: Seq<Seq<char>>, h: HeaderMap, ticker: Seq<char>) -> Result<
    PositionView,
    RowFault,
> {
    match amount_field(cell(row, h.cost as int), FieldLabel::CostPerShare) {
        Err(f) => Err(f),
        Ok(c) => match amount_field(cell(row, h.qty as int), FieldLabel::Quantity) {
            Err(f) => Err(f),
            Ok(q) => match amount_field(cell(row, h.sale_price as int), FieldLabel::SalePrice) {
                Err(f) => Err(f),
                Ok(s) => match date_of_field(cell(row, h.buy_date as int), FieldLabel::PurchaseDate) {
                    Err(f) => Err(f),
                    Ok(b) => match date_of_field(cell(row, h.sale_date as int), FieldLabel::SaleDate) {
                        Err(f) => Err(f),
                        Ok(d) => if date_le(b, d) {
                            Ok(
                                PositionView {
                                    ticker,
                                    cost_per_share: c,
                                    quantity: q,
                                    sale_price: s,
                                    purchase_date: b,
                                    sale_date: d,
                                },
                            )
                        } else {
                            Err(RowFault::DateOrder)
                        },
                    },
                },
            },
        },
    }
}

/// Some required field of the row is blank or `--`.
pub open spec fn lacks_required(row: Seq<Seq<char>>, h: HeaderMap) -> bool {
    is_missing(cell(row, h.cost as int)) || is_missing(cell(row, h.qty as int)) || is_missing(
        cell(row, h.sale_price as int),
    ) || is_missing(cell(row, h.buy_date as int)) || is_missing(cell(row, h.sale_date as int))
}

/// A row read under header `h`: it may name the current ticker, and it
/// becomes a trade when all required fields are there and a ticker is known.
pub open spec fn data_step(st: ParseState, row: Seq<Seq<char>>, h: HeaderMap) -> Result<
    ParseState,
    RowFault,
> {
    let raw = cell(row, h.ticker as int);
    let st1 = if is_context_ticker(raw) {
        ParseState { ticker: Some(upper(trim(raw))), ..st }
    } else {
        st
    };
    if lacks_required(row, h) {
        Ok(st1)
    } else {
        match st1.ticker {
            None => Ok(st1),
            Some(t) => match trade_of(row, h, t) {
                Ok(p) => Ok(ParseState { records: st1.records.push(p), ..st1 }),
                Err(f) => Err(f),
            },
        }
    }
}

/// One row of the fold; `fallback` reads every row in the fixed layout.
pub open spec fn row_step(st: ParseState, row: Seq<Seq<char>>, fallback: bool) -> Result<
    ParseState,
    RowFault,
> {
    if row.len() == 0 {
        Ok(st)
    } else if is_section_marker(row) {
        if fallback {
            Ok(st)
        } else {
            Ok(ParseState { header: None, ..st })
        }
    } else if is_total_row(row) {
        Ok(st)
    } else if fallback {
        if row.len() < 6 {
            Ok(st)
        } else {
            data_step(st, row, positional_header())
        }
    } else {
        match st.header {
            None => match detect_header(row) {
                Some(h) => Ok(ParseState { header: Some(h), header_seen: true, ..st }),
                None => Ok(st),
            },
            Some(h) => data_step(st, row, h),
        }
    }
}

/// The fold over the first `n` rows; a fault carries its 1-based row number.
pub open spec fn parse_fold(rows: Seq<Seq<Seq<char>>>, n: int, fallback: bool) -> Result<
    ParseState,
    (int, RowFault),
>
    decreases n,
{
    if n <= 0 {
        Ok(initial_state())
    } else {
        match parse_fold(rows, n - 1, fallback) {
            Err(e) => Err(e),
            Ok(st) => match row_step(st, rows[n - 1], fallback) {
                Ok(s) => Ok(s),
                Err(f) => Err((n, f)),
            },
        }
    }
}

pub open spec fn finish(records: Seq<PositionView>) -> Outcome {
    if records.len() == 0 {
        Outcome::NoRows
    } else {
        Outcome::Records(records)
    }
}

/// The result of importing `rows`, where the reader stopped with
/// `reader_error` after them, if it did.
pub open spec fn statement_outcome(rows: Seq<Seq<Seq<char>>>, reader_error: Option<Seq<char>>) -> Outcome {
    let n = rows.len() as int;
    match parse_fold(rows, n, false) {
        Err((l, f)) => Outcome::Fault(l, f),
        Ok(st) => match reader_error {
            Some(m) => Outcome::Reader(n, m),
            None => if st.header_seen {
                finish(st.records)
            } else {
                match parse_fold(rows, n, true) {
                    Err((l, f)) => Outcome::Fault(l, f),
                    Ok(st2) => finish(st2.records),
                }
            },
        },
    }
}

/// Once the fold has failed, it fails the same way on every longer prefix.
pub(crate) proof fn lemma_fold_fault_persists(rows: Seq<Seq<Seq<char>>>, k: int, n: int, fallback: bool)
    requires
        0 <= k <= n,
        parse_fold(rows, k, fallback) is Err,
    ensures
        parse_fold(rows, n, fallback) == parse_fold(rows, k, fallback),
    decreases n - k,
{
    if n > k {
        lemma_fold_fault_persists(rows, k, n - 1, fallback);
    }
}

/// The model of an import's result.
pub open spec fn outcome_of(r: Result<Vec<Position>, ImportError>) -> Outcome {
    match r {
        Ok(v) => Outcome::Records(positions_view(v@)),
        Err(ImportError::Row { line, fault }) => Outcome::Fault(line as int, fault),
        Err(ImportError::Reader { after, message }) => Outcome::Reader(after as int, message@),
        Err(ImportError::NoRows) => Outcome::NoRows,
    }
}

pub open spec fn opt_text(o: Option<String>) -> Option<Seq<char>> {
    match o {
        Some(s) => Some(s@),
        None => None,
    }
}

/// The rows and the reader error, if any, that the csv crate's reader yields
/// for `data`, configured without headers, trimming cells and accepting rows
/// of any length.
pub uninterp spec fn csv_scan_of(data: Seq<char>) -> (Seq<Seq<Seq<char>>>, Option<Seq<char>>);

/// Relies on the csv crate's `Reader::records`: splits `data` into records up
/// to the first error, and reports that error's text.
#[verifier::external_body]
fn read_csv_rows(data: &str) -> (r: (Vec<Vec<String>>, Option<String>))
    ensures
        (r.0.deep_view(), opt_text(r.1)) == csv_scan_of(data@),
{
    let mut rdr = csv::ReaderBuilder::new().has_headers(false).trim(csv::Trim::All).flexible(
        true,
    ).from_reader(data.as_bytes());
    let mut rows = Vec::new();
    for rec in rdr.records() {
        match rec {
            Ok(r) => rows.push(r.iter().map(|s| s.to_string()).collect()),
            Err(e) => return (rows, Some(e.to_string())),
        }
    }
    (rows, None)
}

struct State {
    header: Option<HeaderMap>,
    header_seen: bool,
    ticker: Option<Vec<char>>,
    records: Vec<Position>,
}

impl State {
    spec fn model(&self) -> ParseState {
        ParseState {
            header: self.header,
            header_seen: self.header_seen,
            ticker: match self.ticker {
                Some(t) => Some(t@),
                None => None,
            },
            records: positions_view(self.records@),
        }
    }
}

spec fn cells_model(cells: Seq<Vec<char>>) -> Seq<Seq<char>> {
    cells.map_values(|c: Vec<char>| c@)
}

fn cells_of(row: &Vec<String>) -> (r: Vec<Vec<char>>)
    ensures
        cells_model(r@) == row.deep_view(),
{
    let mut r: Vec<Vec<char>> = Vec::new();
    let mut i: usize = 0;
    while i < row.len()
        invariant
            i <= row@.len(),
            cells_model(r@) =~= row.deep_view().subrange(0, i as int),
        decreases row@.len() - i,
    {
        let c = chars_of(row[i].as_str());
        assert(row.deep_view()[i as int] == row@[i as int]@);
        let ghost before = r@;
        r.push(c);
        assert(cells_model(r@) =~= cells_model(before).push(c@));
        assert(row.deep_view().subrange(0, i + 1) =~= row.deep_view().subrange(0, i as int).push(
            c@,
        ));
        i += 1;
        assert(cells_model(r@) =~= row.deep_view().subrange(0, i as int));
    }
    assert(row.deep_view().subrange(0, i as int) =~= row.deep_view());
    r
}

fn cell_exec(cells: &Vec<Vec<char>>, i: usize) -> (r: Vec<char>)
    ensures
        r@ == cell(cells_model(cells@), i as int),
{
    if i < cells.len() {
        slice_of(&cells[i], 0, cells[i].len())
    } else {
        Vec::new()
    }
}

fn join_exec(cells: &Vec<Vec<char>>) -> (r: Vec<char>)
    ensures
        r@ == join_cells(cells_model(cells@)),
{
    let ghost cm = cells_model(cells@);
    let mut r: Vec<char> = Vec::new();
    let mut i: usize = 0;
    while i < cells.len()
        invariant
            i <= cells@.len() == cm.len(),
            cm == cells_model(cells@),
            r@ == join_cells(cm.subrange(0, i as int)),
        decreases cells@.len() - i,
    {
        assert(cm.subrange(0, i + 1).drop_last() =~= cm.subrange(0, i as int));
        if i > 0 {
            r.push(' ');
        }
        let c = &cells[i];
        let mut j: usize = 0;
        let ghost base = r@;
        while j < c.len()
            invariant
                j <= c@.len(),
                r@ == base + c@.subrange(0, j as int),
            decreases c@.len() - j,
        {
            r.push(c[j]);
            j += 1;
            assert(r@ =~= base + c@.subrange(0, j as int));
        }
        assert(c@.subrange(0, j as int) =~= c@);
        i += 1;
        if i == 1 {
            assert(r@ =~= cm.subrange(0, 1)[0]);
        }
    }
    assert(cm.subrange(0, i as int) =~= cm);
    r
}

fn is_section_marker_exec(cells: &Vec<Vec<char>>) -> (r: bool)
    ensures
        r == is_section_marker(cells_model(cells@)),
{
    let joined = join_exec(cells);
    let low = to_lower(&joined);
    let marker = chars_of("taxable g&l details");
    contains_exec(&low, &marker)
}

fn is_total_row_exec(cells: &Vec<Vec<char>>) -> (r: bool)
    ensures
        r == is_total_row(cells_model(cells@)),
{
    if cells.len() == 0 {
        return false;
    }
    let first = to_lower(&trimmed(&cells[0]));
    eq_lit(&first, "total") || eq_lit(&first, "subtotal")
}

fn is_context_ticker_exec(raw: &Vec<char>) -> (r: bool)
    ensures
        r == is_context_ticker(raw@),
{
    let t = trimmed(raw);
    if t.len() == 0 || eq_lit(&t, "--") {
        return false;
    }
    let low = to_lower(&t);
    let sell = chars_of("sell");
    !matches_at_exec(&low, &sell, 0)
}

pub(crate) fn amount_field_exec(raw: &Vec<char>, label: FieldLabel) -> (r: Result<Decimal, RowFault>)
    ensures
        r == amount_field(raw@, label),
        r matches Ok(d) ==> d.wf(),
{
    match number_field_of(raw) {
        NumberField::Value(d) => Ok(d),
        _ => Err(RowFault::InvalidNumber(label)),
    }
}

pub(crate) fn date_of_field_exec(raw: &Vec<char>, label: FieldLabel) -> (r: Result<CivilDate, RowFault>)
    ensures
        r == date_of_field(raw@, label),
        r matches Ok(d) ==> d.wf(),
{
    match date_field_of(raw) {
        Some(d) => Ok(d),
        None => Err(RowFault::InvalidDate(label)),
    }
}

fn trade_exec(cells: &Vec<Vec<char>>, h: HeaderMap, ticker: &Vec<char>) -> (r: Result<
    Position,
    RowFault,
>)
    ensures
        match trade_of(cells_model(cells@), h, ticker@) {
            Ok(p) => r matches Ok(q) && q@ == p,
            Err(f) => r == Err::<Position, RowFault>(f),
        },
        r matches Ok(q) ==> q@.wf(),
{
    let c = amount_field_exec(&cell_exec(cells, h.cost), FieldLabel::CostPerShare)?;
    let q = amount_field_exec(&cell_exec(cells, h.qty), FieldLabel::Quantity)?;
    let s = amount_field_exec(&cell_exec(cells, h.sale_price), FieldLabel::SalePrice)?;
    let b = date_of_field_exec(&cell_exec(cells, h.buy_date), FieldLabel::PurchaseDate)?;
    let d = date_of_field_exec(&cell_exec(cells, h.sale_date), FieldLabel::SaleDate)?;
    if !date_le_exec(b, d) {
        return Err(RowFault::DateOrder);
    }
    Ok(
        Position {
            ticker: string_of(ticker),
            cost_per_share: c,
            quantity: q,
            sale_price: s,
            purchase_date: b,
            sale_date: d,
        },
    )
}

fn data_step_exec(st: State, cells: &Vec<Vec<char>>, h: HeaderMap) -> (r: Result<State, RowFault>)
    requires
        forall|i: int| 0 <= i < st.records@.len() ==> (#[trigger] st.records@[i])@.wf(),
    ensures
        match data_step(st.model(), cells_model(cells@), h) {
            Ok(s) => r matches Ok(n) && n.model() == s,
            Err(f) => r matches Err(g) && g == f,
        },
        r matches Ok(n) ==> forall|i: int|
            0 <= i < n.records@.len() ==> (#[trigger] n.records@[i])@.wf(),
{
    let mut st = st;
    let raw = cell_exec(cells, h.ticker);
    if is_context_ticker_exec(&raw) {
        st.ticker = Some(to_upper(&trimmed(&raw)));
    }
    if is_missing_exec(&cell_exec(cells, h.cost)) || is_missing_exec(&cell_exec(cells, h.qty))
        || is_missing_exec(&cell_exec(cells, h.sale_price)) || is_missing_exec(
        &cell_exec(cells, h.buy_date),
    ) || is_missing_exec(&cell_exec(cells, h.sale_date)) {
        return Ok(st);
    }
    match &st.ticker {
        None => Ok(st),
        Some(t) => {
            let p = trade_exec(cells, h, t)?;
            let ghost before = st.records@;
            st.records.push(p);
            assert(positions_view(st.records@) =~= positions_view(before).push(p@));
            Ok(st)
        },
    }
}

fn row_step_exec(st: State, row: &Vec<String>, fallback: bool) -> (r: Result<State, RowFault>)
    requires
        forall|i: int| 0 <= i < st.records@.len() ==> (#[trigger] st.records@[i])@.wf(),
    ensures
        match row_step(st.model(), row.deep_view(), fallback) {
            Ok(s) => r matches Ok(n) && n.model() == s,
            Err(f) => r matches Err(g) && g == f,
        },
        r matches Ok(n) ==> forall|i: int|
            0 <= i < n.records@.len() ==> (#[trigger] n.records@[i])@.wf(),
{
    let cells = cells_of(row);
    let mut st = st;
    if cells.len() == 0 {
        return Ok(st);
    }
    if is_section_marker_exec(&cells) {
        if !fallback {
            st.header = None;
        }
        return Ok(st);
    }
    if is_total_row_exec(&cells) {
        return Ok(st);
    }
    if fallback {
        if cells.len() < 6 {
            return Ok(st);
        }
        let h = HeaderMap { ticker: 0, cost: 1, qty: 2, sale_price: 3, buy_date: 4, sale_date: 5 };
        return data_step_exec(st, &cells, h);
    }
    match st.header {
        None => {
            match detect_header_exec(&cells) {
                Some(h) => {
                    st.header = Some(h);
                    st.header_seen = true;
                },
                None => {},
            }
            Ok(st)
        },
        Some(h) => data_step_exec(st, &cells, h),
    }
}

fn run_fold(rows: &Vec<Vec<String>>, fallback: bool) -> (r: Result<State, ImportError>)
    ensures
        match parse_fold(rows.deep_view(), rows@.len() as int, fallback) {
            Ok(s) => r matches Ok(n) && n.model() == s,
            Err((l, f)) => r matches Err(ImportError::Row { line, fault }) && line == l && fault
                == f,
        },
        r matches Ok(n) ==> forall|i: int|
            0 <= i < n.records@.len() ==> (#[trigger] n.records@[i])@.wf(),
{
    let ghost rv = rows.deep_view();
    let mut st = State { header: None, header_seen: false, ticker: None, records: Vec::new() };
    assert(positions_view(st.records@) =~= Seq::<PositionView>::empty());
    let mut i: usize = 0;
    while i < rows.len()
        invariant
            i <= rows@.len() == rv.len(),
            rv == rows.deep_view(),
            parse_fold(rv, i as int, fallback) == Ok::<ParseState, (int, RowFault)>(st.model()),
            forall|k: int| 0 <= k < st.records@.len() ==> (#[trigger] st.records@[k])@.wf(),
        decreases rows@.len() - i,
    {
        assert(rv[i as int] == rows@[i as int].deep_view());
        match row_step_exec(st, &rows[i], fallback) {
            Ok(n) => st = n,
            Err(f) => {
                proof {
                    lemma_fold_fault_persists(rv, i + 1, rv.len() as int, fallback);
                }
                return Err(ImportError::Row { line: i + 1, fault: f });
            },
        }
        i += 1;
    }
    Ok(st)
}

/// Imports the rows that a CSV reader produced, in order; `reader_error` is
/// the error on which the reader stopped after them, if it did.
pub fn parse_rows(rows: &Vec<Vec<String>>, reader_error: &Option<String>) -> (r: Result<
    Vec<Position>,
    ImportError,
>)
    ensures
        outcome_of(r) == statement_outcome(rows.deep_view(), opt_text(*reader_error)),
        r matches Ok(v) ==> v@.len() > 0 && forall|i: int|
            0 <= i < v@.len() ==> (#[trigger] v@[i])@.wf(),
{
    let first = run_fold(rows, false)?;
    if let Some(m) = reader_error {
        return Err(ImportError::Reader { after: rows.len(), message: m.clone() });
    }
    let st = if first.header_seen {
        first
    } else {
        run_fold(rows, true)?
    };
    if st.records.len() == 0 {
        Err(ImportError::NoRows)
    } else {
        Ok(st.records)
    }
}

/// Imports the trades of a statement's text: its CSV rows, read leniently,
/// go through [`parse_rows`].
pub fn parse_statement(data: &str) -> (r: Result<Vec<Position>, ImportError>)
    ensures
        outcome_of(r) == statement_outcome(csv_scan_of(data@).0, csv_scan_of(data@).1),
        r matches Ok(v) ==> v@.len() > 0 && forall|i: int|
            0 <= i < v@.len() ==> (#[trigger] v@[i])@.wf(),
{
    let (rows, err) = read_csv_rows(data);
    parse_rows(&rows, &err)
}

} // verus!
