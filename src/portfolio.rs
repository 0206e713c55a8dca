//! The portfolio screen's state: the trades, the selected row, the ticker
//! filter, and the screen being shown.
use crate::form::{fault_text, form_trade, AddForm, ImportForm, FORM_FIELDS};
use crate::date::{date_le_exec, day_number, days_before, CivilDate};
use crate::decimal::Decimal;
use crate::position::{positions_view, Position, PositionView};
use crate::statement::{
    csv_scan_of, outcome_error_text, parse_statement, statement_outcome, Outcome,
};
use crate::text::{
    append_lit, chars_of, contains, contains_exec, nat_text, pop_char, push_char, push_numeral,
    string_of, to_upper, trim, trimmed, upper,
};
use vstd::prelude::*;

verus! {

/// The screen being shown.
#[derive(Clone, Copy, Debug, PartialEq, Eq, Structural)]
pub enum Mode {
    Portfolio,
    Detail,
    AddForm,
    Import,
    Help,
}

/// Whether a ticker passes a filter: an empty filter passes everything,
/// otherwise the filter must occur in the ticker, ignoring ASCII case.
pub open spec fn ticker_matches(filter: Seq<char>, ticker: Seq<char>) -> bool {
    filter.len() == 0 || contains(upper(ticker), upper(filter))
}

/// Indices among the first `n` positions whose ticker passes the filter.
pub open spec fn matching_indices(positions: Seq<Position>, filter: Seq<char>, n: int) -> Seq<usize>
    decreases n,
{
    if n <= 0 {
        Seq::empty()
    } else if ticker_matches(filter, positions[n - 1].ticker@) {
        matching_indices(positions, filter, n - 1).push((n - 1) as usize)
    } else {
        matching_indices(positions, filter, n - 1)
    }
}

/// The first index at which `x` occurs in `s`.
pub open spec fn first_index(s: Seq<usize>, x: usize) -> Option<int>
    decreases s.len(),
{
    if s.len() == 0 {
        None
    } else {
        match first_index(s.drop_last(), x) {
            Some(i) => Some(i),
            None => if s.last() == x {
                Some(s.len() - 1)
            } else {
                None
            },
        }
    }
}

pub open spec fn index_or_first(s: Seq<usize>, x: usize) -> int {
    match first_index(s, x) {
        Some(i) => i,
        None => 0,
    }
}

/// The selection after moving forward through the filtered indices `f`.
pub open spec fn next_selected(f: Seq<usize>, selected: usize) -> usize {
    if f.len() == 0 {
        0
    } else {
        f[(index_or_first(f, selected) + 1) % (f.len() as int)]
    }
}

/// The selection after moving backward through the filtered indices `f`.
pub open spec fn prev_selected(f: Seq<usize>, selected: usize) -> usize {
    let cur = index_or_first(f, selected);
    if f.len() == 0 {
        0
    } else if cur == 0 {
        f[f.len() - 1]
    } else {
        f[cur - 1]
    }
}

/// The selection kept on a trade that passes the filter: `selected` itself
/// when it is among the filtered indices `f`, else the first of them, and 0
/// when there are none.
pub open spec fn visible_selection(f: Seq<usize>, selected: usize) -> usize {
    if f.len() == 0 {
        0
    } else if f.contains(selected) {
        selected
    } else {
        f[0]
    }
}

/// The whole state of the interactive application.
pub struct App {
    pub positions: Vec<Position>,
    pub selected: usize,
    pub mode: Mode,
    pub form: AddForm,
    pub import_form: ImportForm,
    /// The index of the trade that the form edits, if it edits one.
    pub editing: Option<usize>,
    pub filter_text: String,
    pub filter_editing: bool,
}

impl App {
    /// The selection is a trade when there are trades, and 0 otherwise; the
    /// trade being edited exists; the form has its six fields.
    pub open spec fn wf(&self) -> bool {
        &&& (self.positions@.len() == 0 ==> self.selected == 0)
        &&& (self.positions@.len() > 0 ==> self.selected < self.positions@.len())
        &&& (self.editing matches Some(i) ==> i < self.positions@.len())
        &&& (self.mode != Mode::AddForm ==> self.editing is None)
        &&& self.form.wf()
        &&& forall|i: int| 0 <= i < self.positions@.len() ==> (#[trigger] self.positions@[i])@.wf()
    }

    pub open spec fn filtered(&self) -> Seq<usize> {
        matching_indices(self.positions@, self.filter_text@, self.positions@.len() as int)
    }

    /// The portfolio screen over `positions`, with the last trade selected.
    pub fn new(positions: Vec<Position>) -> (r: Self)
        requires
            forall|i: int| 0 <= i < positions@.len() ==> (#[trigger] positions@[i])@.wf(),
        ensures
            r.wf(),
            r.positions == positions,
            r.selected == if positions@.len() == 0 {
                0
            } else {
                positions@.len() - 1
            },
            r.mode == Mode::Portfolio,
            r.editing is None,
            r.filter_text@.len() == 0,
            !r.filter_editing,
    {
        let selected = if positions.len() == 0 {
            0
        } else {
            positions.len() - 1
        };
        Self {
            positions,
            selected,
            mode: Mode::Portfolio,
            form: AddForm::new(),
            import_form: ImportForm::new(),
            editing: None,
            filter_text: String::new(),
            filter_editing: false,
        }
    }

    /// Whether a trade passes the ticker filter.
    pub fn filter_matches(&self, pos: &Position) -> (r: bool)
        ensures
            r == ticker_matches(self.filter_text@, pos.ticker@),
    {
        let filter = chars_of(self.filter_text.as_str());
        if filter.len() == 0 {
            return true;
        }
        let needle = to_upper(&filter);
        let hay = to_upper(&chars_of(pos.ticker.as_str()));
        contains_exec(&hay, &needle)
    }

    /// Indices of the trades that pass the filter, in order.
    pub fn filtered_indices(&self) -> (r: Vec<usize>)
        ensures
            r@ == self.filtered(),
            forall|k: int| 0 <= k < r@.len() ==> r@[k] < self.positions@.len(),
    {
        let mut r: Vec<usize> = Vec::new();
        let mut i: usize = 0;
        while i < self.positions.len()
            invariant
                i <= self.positions@.len(),
                r@ == matching_indices(self.positions@, self.filter_text@, i as int),
                forall|k: int| 0 <= k < r@.len() ==> r@[k] < i,
            decreases self.positions@.len() - i,
        {
            if self.filter_matches(&self.positions[i]) {
                r.push(i);
            }
            i += 1;
        }
        r
    }

    /// The trades that pass the filter, with their indices, in order.
    pub fn filtered_positions(&self) -> (r: Vec<(usize, &Position)>)
        ensures
            r@.len() == self.filtered().len(),
            forall|k: int|
                0 <= k < r@.len() ==> (#[trigger] r@[k]).0 == self.filtered()[k] && *r@[k].1
                    == self.positions@[r@[k].0 as int],
    {
        let indices = self.filtered_indices();
        let mut r: Vec<(usize, &Position)> = Vec::new();
        let mut k: usize = 0;
        while k < indices.len()
            invariant
                k <= indices@.len(),
                indices@ == self.filtered(),
                forall|j: int| 0 <= j < indices@.len() ==> indices@[j] < self.positions@.len(),
                r@.len() == k,
                forall|j: int|
                    0 <= j < k ==> (#[trigger] r@[j]).0 == indices@[j] && *r@[j].1
                        == self.positions@[r@[j].0 as int],
            decreases indices@.len() - k,
        {
            let i = indices[k];
            r.push((i, &self.positions[i]));
            k += 1;
        }
        r
    }

    /// Moves the selection to the next trade that passes the filter, from the
    /// last round to the first; to 0 when none passes.
    pub fn select_next(&mut self)
        requires
            old(self).wf(),
        ensures
            final(self).wf(),
            final(self).selected == next_selected(old(self).filtered(), old(self).selected),
            final(self).positions == old(self).positions,
            final(self).mode == old(self).mode,
            final(self).editing == old(self).editing,
            final(self).filter_text == old(self).filter_text,
            final(self).filter_editing == old(self).filter_editing,
    {
        let filtered = self.filtered_indices();
        if filtered.len() == 0 {
            self.selected = 0;
            return;
        }
        let current = find_index(&filtered, self.selected);
        let next = (current + 1) % filtered.len();
        self.selected = filtered[next];
    }

    /// Moves the selection to the previous trade that passes the filter, from
    /// the first round to the last; to 0 when none passes.
    pub fn select_prev(&mut self)
        requires
            old(self).wf(),
        ensures
            final(self).wf(),
            final(self).selected == prev_selected(old(self).filtered(), old(self).selected),
            final(self).positions == old(self).positions,
            final(self).mode == old(self).mode,
            final(self).editing == old(self).editing,
            final(self).filter_text == old(self).filter_text,
            final(self).filter_editing == old(self).filter_editing,
    {
        let filtered = self.filtered_indices();
        if filtered.len() == 0 {
            self.selected = 0;
            return;
        }
        let current = find_index(&filtered, self.selected);
        let prev = if current == 0 {
            filtered.len() - 1
        } else {
            current - 1
        };
        self.selected = filtered[prev];
    }

    /// The selected trade, if there is one.
    pub fn selected_position(&self) -> (r: Option<&Position>)
        ensures
            r matches Some(p) ==> self.selected < self.positions@.len() && *p
                == self.positions@[self.selected as int],
            r is None <==> self.selected >= self.positions@.len(),
    {
        if self.selected < self.positions.len() {
            Some(&self.positions[self.selected])
        } else {
            None
        }
    }

    /// Keeps the selection on a trade that passes the filter: the first such
    /// trade when the current one does not pass, 0 when none passes.
    pub fn ensure_selection_visible(&mut self)
        requires
            old(self).wf(),
        ensures
            final(self).wf(),
            final(self).selected == visible_selection(old(self).filtered(), old(self).selected),
            final(self).positions == old(self).positions,
            final(self).mode == old(self).mode,
            final(self).editing == old(self).editing,
            final(self).filter_text == old(self).filter_text,
            final(self).filter_editing == old(self).filter_editing,
            final(self).form == old(self).form,
            final(self).import_form == old(self).import_form,
    {
        let filtered = self.filtered_indices();
        if filtered.len() == 0 {
            self.selected = 0;
            return;
        }
        let found = find_index(&filtered, self.selected);
        if filtered[found] != self.selected {
            proof {
                lemma_first_index_contains(filtered@, self.selected);
            }
            self.selected = filtered[0];
        } else {
            assert(filtered@.contains(self.selected));
        }
    }

    /// Removes the selected trade and keeps the selection in range.
    pub fn delete_selected(&mut self)
        requires
            old(self).wf(),
            old(self).editing is None,
        ensures
            final(self).wf(),
            old(self).positions@.len() == 0 ==> final(self).positions@ == old(self).positions@
                && final(self).selected == old(self).selected,
            old(self).positions@.len() > 0 ==> final(self).positions@ == old(
                self,
            ).positions@.remove(old(self).selected as int),
            old(self).positions@.len() > 0 ==> final(self).selected == visible_selection(
                final(self).filtered(),
                if final(self).positions@.len() == 0 {
                    0
                } else if old(self).selected >= final(self).positions@.len() {
                    (final(self).positions@.len() - 1) as usize
                } else {
                    old(self).selected
                },
            ),
            final(self).mode == old(self).mode,
            final(self).editing == old(self).editing,
            final(self).filter_text == old(self).filter_text,
            final(self).filter_editing == old(self).filter_editing,
    {
        if self.positions.len() == 0 {
            return;
        }
        self.positions.remove(self.selected);
        if self.positions.len() == 0 {
            self.selected = 0;
        } else if self.selected >= self.positions.len() {
            self.selected = self.positions.len() - 1;
        }
        assert forall|i: int| 0 <= i < self.positions@.len() implies (
        #[trigger] self.positions@[i])@.wf() by {
            if i >= old(self).selected {
                assert(self.positions@[i] == old(self).positions@[i + 1]);
            }
        }
        if self.positions.len() > 0 {
            self.ensure_selection_visible();
        }
    }

    /// Appends imported trades, selects the last trade, and returns how many
    /// were added.
    pub fn add_positions(&mut self, new_positions: Vec<Position>) -> (r: usize)
        requires
            old(self).wf(),
            forall|i: int| 0 <= i < new_positions@.len() ==> (#[trigger] new_positions@[i])@.wf(),
        ensures
            final(self).wf(),
            final(self).positions@ == old(self).positions@ + new_positions@,
            final(self).positions@.len() > 0 ==> final(self).selected == visible_selection(
                final(self).filtered(),
                (final(self).positions@.len() - 1) as usize,
            ),
            r == new_positions@.len(),
            final(self).mode == old(self).mode,
            final(self).editing == old(self).editing,
            final(self).filter_text == old(self).filter_text,
            final(self).filter_editing == old(self).filter_editing,
    {
        let count = new_positions.len();
        let mut added = new_positions;
        self.positions.append(&mut added);
        assert forall|i: int| 0 <= i < self.positions@.len() implies (
        #[trigger] self.positions@[i])@.wf() by {
            if i >= old(self).positions@.len() {
                assert(self.positions@[i] == new_positions@[i - old(self).positions@.len()]);
            }
        }
        if self.positions.len() > 0 {
            self.selected = self.positions.len() - 1;
        }
        self.ensure_selection_visible();
        count
    }
}

pub open spec fn sample(
    ticker: Seq<char>,
    cost: Decimal,
    quantity: Decimal,
    sale_price: Decimal,
    purchase_date: CivilDate,
    sale_date: CivilDate,
) -> PositionView {
    PositionView {
        ticker,
        cost_per_share: cost,
        quantity,
        sale_price,
        purchase_date,
        sale_date,
    }
}

/// Which of the sample trades `p` is, dated back from `today`: 0 for AAPL,
/// 1 for AMD, 2 for MSFT; 3 for none of them.
pub open spec fn sample_index(p: PositionView, today: CivilDate) -> int {
    let t = day_number(today);
    if p == sample(
        "AAPL"@,
        Decimal { units: 110, scale: 0 },
        Decimal { units: 40, scale: 0 },
        Decimal { units: 1275, scale: 1 },
        p.purchase_date,
        p.sale_date,
    ) && day_number(p.purchase_date) == t - 12 && day_number(p.sale_date) == t {
        0
    } else if p == sample(
        "AMD"@,
        Decimal { units: 64, scale: 0 },
        Decimal { units: 100, scale: 0 },
        Decimal { units: 594, scale: 1 },
        p.purchase_date,
        p.sale_date,
    ) && day_number(p.purchase_date) == t - 4 && day_number(p.sale_date) == t {
        1
    } else if p == sample(
        "MSFT"@,
        Decimal { units: 3205, scale: 1 },
        Decimal { units: 10, scale: 0 },
        Decimal { units: 3552, scale: 1 },
        p.purchase_date,
        p.sale_date,
    ) && day_number(p.purchase_date) == t - 25 && day_number(p.sale_date) == t - 5 {
        2
    } else {
        3
    }
}

fn seed(
    ticker: &str,
    cost: Decimal,
    quantity: Decimal,
    sale_price: Decimal,
    today: CivilDate,
    bought_ago: u32,
    sold_ago: u32,
) -> (r: Option<Position>)
    requires
        today.wf(),
        cost.wf(),
        quantity.wf(),
        sale_price.wf(),
    ensures
        r matches Some(p) ==> p@.wf() && p@ == sample(
            ticker@,
            cost,
            quantity,
            sale_price,
            p.purchase_date,
            p.sale_date,
        ) && day_number(p.sale_date) == day_number(today) - sold_ago && day_number(
            p.purchase_date,
        ) == day_number(today) - bought_ago,
{
    let purchase_date = days_before(today, bought_ago)?;
    let sale_date = days_before(today, sold_ago)?;
    if !date_le_exec(purchase_date, sale_date) {
        return None;
    }
    Some(
        Position {
            ticker: ticker.to_owned(),
            cost_per_share: cost,
            quantity,
            sale_price,
            purchase_date,
            sale_date,
        },
    )
}

/// Sample trades for a first start, dated back from `today`: AAPL held 12
/// days, AMD held 4 days, and MSFT bought 25 days ago and sold 5 days ago.
pub fn seed_positions(today: CivilDate) -> (r: Vec<Position>)
    requires
        today.wf(),
    ensures
        r@.len() <= 3,
        forall|i: int| 0 <= i < r@.len() ==> (#[trigger] r@[i])@.wf(),
        forall|i: int| 0 <= i < r@.len() ==> sample_index((#[trigger] r@[i])@, today) < 3,
        forall|i: int, j: int|
            0 <= i < j < r@.len() ==> sample_index((#[trigger] r@[i])@, today) < sample_index(
                (#[trigger] r@[j])@,
                today,
            ),
{
    proof {
        reveal_strlit("AAPL");
        reveal_strlit("AMD");
        reveal_strlit("MSFT");
    }
    let mut r: Vec<Position> = Vec::new();
    if let Some(p) = seed(
        "AAPL",
        Decimal { units: 110, scale: 0 },
        Decimal { units: 40, scale: 0 },
        Decimal { units: 1275, scale: 1 },
        today,
        12, 0,
    ) {
        r.push(p);
    }
    if let Some(p) = seed(
        "AMD",
        Decimal { units: 64, scale: 0 },
        Decimal { units: 100, scale: 0 },
        Decimal { units: 594, scale: 1 },
        today,
        4, 0,
    ) {
        r.push(p);
    }
    if let Some(p) = seed(
        "MSFT",
        Decimal { units: 3205, scale: 1 },
        Decimal { units: 10, scale: 0 },
        Decimal { units: 3552, scale: 1 },
        today,
        25, 5,
    ) {
        r.push(p);
    }
    r
}

/// What submitting the trade form did: a valid form replaces the trade being
/// edited, or appends a new one, selects it as far as the filter lets it,
/// and closes the form; an invalid one stays open and shows its fault.
pub open spec fn submitted(before: App, after: App) -> bool {
    match form_trade(before.form.values()) {
        Ok(p) => {
            &&& positions_view(after.positions@) == match before.editing {
                Some(i) => positions_view(before.positions@).update(i as int, p),
                None => positions_view(before.positions@).push(p),
            }
            &&& after.selected == visible_selection(
                after.filtered(),
                match before.editing {
                    Some(i) => i,
                    None => before.positions@.len() as usize,
                },
            )
            &&& after.editing is None
            &&& after.form.error is None
            &&& after.mode == Mode::Portfolio
        },
        Err(f) => {
            &&& after.positions == before.positions
            &&& after.mode == Mode::AddForm
            &&& after.form.error matches Some(m) && m@ == fault_text(f)
        },
    }
}

/// A key press as the terminal reports it; `plain` is false when a modifier
/// other than Shift was held.
#[derive(Clone, Copy, Debug, PartialEq, Eq, Structural)]
pub enum Key {
    Char { c: char, plain: bool },
    Enter,
    Esc,
    Backspace,
    Tab,
    BackTab,
    Left,
    Right,
    Up,
    Down,
    Delete,
    Other,
}

/// What the surrounding program does after a key.
pub enum Action {
    Continue,
    Quit,
    /// The trades changed: persist them.
    Save,
    /// Read the statement at this path and hand its text to [`App::import_text`].
    Import(String),
}

pub open spec fn is_char_key(key: Key, c: char) -> bool {
    key matches Key::Char { c: k, .. } && k == c
}

impl App {
    /// Opens the trade form, blank.
    fn start_add(&mut self)
        requires
            old(self).wf(),
        ensures
            final(self).wf(),
            final(self).positions == old(self).positions,
            final(self).mode == Mode::AddForm,
            final(self).editing is None,
            final(self).form.active == 0,
            forall|i: int|
                0 <= i < FORM_FIELDS ==> (#[trigger] final(self).form.values()[i]).len() == 0,
            final(self).filter_editing == old(self).filter_editing,
    {
        self.mode = Mode::AddForm;
        self.form = AddForm::new();
        self.editing = None;
    }

    /// Opens the trade form on the selected trade, if there is one.
    fn start_edit(&mut self)
        requires
            old(self).wf(),
        ensures
            final(self).wf(),
            final(self).positions == old(self).positions,
            final(self).filter_editing == old(self).filter_editing,
    {
        if self.selected < self.positions.len() {
            let form = AddForm::from_position(&self.positions[self.selected]);
            self.mode = Mode::AddForm;
            self.editing = Some(self.selected);
            self.form = form;
        }
    }

    fn start_import(&mut self)
        requires
            old(self).wf(),
            old(self).mode != Mode::AddForm,
        ensures
            final(self).wf(),
            final(self).positions == old(self).positions,
            final(self).mode == Mode::Import,
            final(self).import_form.path@.len() == 0,
            final(self).filter_editing == old(self).filter_editing,
    {
        self.mode = Mode::Import;
        self.import_form = ImportForm::new();
    }

    /// Stores the trade that the form describes, replacing the one being
    /// edited or appending a new one; on a fault the form shows it.
    fn submit_form(&mut self) -> (r: Action)
        requires
            old(self).wf(),
            old(self).mode == Mode::AddForm,
        ensures
            final(self).wf(),
            r is Save <==> form_trade(old(self).form.values()) is Ok,
            r is Continue <==> form_trade(old(self).form.values()) is Err,
            r is Continue ==> final(self).positions == old(self).positions && final(self).mode
                == Mode::AddForm,
            r is Save ==> final(self).mode == Mode::Portfolio && final(self).editing is None,
            submitted(*old(self), *final(self)),
            final(self).filter_editing == old(self).filter_editing,
    {
        match self.form.try_build_position() {
            Ok(pos) => {
                let ghost before = self.positions@;
                match self.editing {
                    Some(idx) => {
                        self.positions.remove(idx);
                        self.positions.insert(idx, pos);
                        self.selected = idx;
                        assert(positions_view(self.positions@) =~= positions_view(before).update(
                            idx as int,
                            pos@,
                        ));
                    },
                    None => {
                        self.positions.push(pos);
                        self.selected = self.positions.len() - 1;
                        assert(positions_view(self.positions@) =~= positions_view(before).push(
                            pos@,
                        ));
                    },
                }
                self.mode = Mode::Portfolio;
                self.editing = None;
                self.form.error = None;
                assert(self.wf());
                self.ensure_selection_visible();
                Action::Save
            },
            Err(msg) => {
                self.form.error = Some(msg);
                Action::Continue
            },
        }
    }

    /// Applies a key to the state and says what the surrounding program must
    /// do next.
    pub fn handle_key(&mut self, key: Key) -> (r: Action)
        requires
            old(self).wf(),
        ensures
            final(self).wf(),
            r is Quit <==> (!old(self).filter_editing && old(self).mode != Mode::AddForm && old(
                self,
            ).mode != Mode::Import && is_char_key(key, 'q')),
            !(r is Save) ==> final(self).positions@ == old(self).positions@,
            old(self).filter_editing ==> r is Continue && final(self).mode == old(self).mode,
            r matches Action::Import(p) ==> old(self).mode == Mode::Import && key == Key::Enter
                && p@ == trim(old(self).import_form.path@) && p@.len() > 0,
            old(self).filter_editing ==> (if key == Key::Esc || key == Key::Enter {
                !final(self).filter_editing && final(self).filter_text == old(self).filter_text
            } else if key == Key::Backspace {
                final(self).filter_editing && final(self).filter_text@
                    == if old(self).filter_text@.len() == 0 {
                    old(self).filter_text@
                } else {
                    old(self).filter_text@.drop_last()
                }
            } else {
                match key {
                    Key::Char { c, plain: true } => final(self).filter_editing
                        && final(self).filter_text@ == old(self).filter_text@.push(c),
                    _ => final(self).filter_editing && final(self).filter_text
                        == old(self).filter_text,
                }
            }),
            ({
                let browsing = !old(self).filter_editing && (old(self).mode == Mode::Portfolio
                    || old(self).mode == Mode::Detail);
                &&& !old(self).filter_editing ==> (final(self).filter_editing <==> browsing && (
                is_char_key(key, 'f') || is_char_key(key, '/')))
                &&& browsing && is_char_key(key, 'a') ==> final(self).mode == Mode::AddForm
                    && final(self).editing is None && final(self).form.active == 0
                &&& browsing && is_char_key(key, 'i') ==> final(self).mode == Mode::Import
                    && final(self).import_form.path@.len() == 0
                &&& browsing && (is_char_key(key, 'f') || is_char_key(key, '/'))
                    ==> final(self).filter_editing
                &&& browsing && key == Key::Down ==> final(self).selected == next_selected(
                    old(self).filtered(),
                    old(self).selected,
                )
                &&& browsing && key == Key::Up ==> final(self).selected == prev_selected(
                    old(self).filtered(),
                    old(self).selected,
                )
                &&& browsing && (is_char_key(key, 'x') || key == Key::Delete)
                    ==> final(self).positions@ == if old(self).positions@.len() == 0 {
                    old(self).positions@
                } else {
                    old(self).positions@.remove(old(self).selected as int)
                }
            }),
            !old(self).filter_editing && old(self).mode == Mode::Portfolio && is_char_key(key, 'h')
                ==> final(self).mode == Mode::Help,
            !old(self).filter_editing && old(self).mode == Mode::Portfolio && (is_char_key(key, 'd')
                || key == Key::Enter) ==> final(self).mode == if old(self).filtered().len() > 0 {
                Mode::Detail
            } else {
                Mode::Portfolio
            },
            !old(self).filter_editing && old(self).mode == Mode::Detail && (key == Key::Esc
                || is_char_key(key, 'b')) ==> final(self).mode == Mode::Portfolio,
            !old(self).filter_editing && old(self).mode == Mode::Help && (key == Key::Esc
                || key == Key::Enter || is_char_key(key, 'b')) ==> final(self).mode
                == Mode::Portfolio,
            !old(self).filter_editing && old(self).mode == Mode::Import ==> (if key == Key::Esc {
                final(self).mode == Mode::Portfolio && final(self).import_form.path@.len() == 0
            } else if key == Key::Enter {
                if trim(old(self).import_form.path@).len() == 0 {
                    r is Continue && (final(self).import_form.error matches Some(e) && e@
                        == "Path cannot be empty"@)
                } else {
                    r is Import
                }
            } else {
                match key {
                    Key::Char { c, plain: true } => final(self).import_form.path@ == old(
                        self,
                    ).import_form.path@.push(c),
                    _ => final(self).mode == Mode::Import,
                }
            }),
            !old(self).filter_editing && old(self).mode == Mode::AddForm ==> (if key == Key::Esc {
                final(self).mode == Mode::Portfolio && final(self).editing is None
                    && final(self).form.error is None
            } else if key == Key::Enter && old(self).form.active + 1 >= FORM_FIELDS {
                (r is Save <==> form_trade(old(self).form.values()) is Ok) && submitted(
                    *old(self),
                    *final(self),
                )
            } else if key == Key::Enter || key == Key::Tab || key == Key::Right {
                final(self).form.active == (old(self).form.active + 1) % (FORM_FIELDS as int)
            } else {
                match key {
                    Key::Char { c, plain: true } => final(self).form.values() == old(
                        self,
                    ).form.values().update(
                        old(self).form.active as int,
                        old(self).form.values()[old(self).form.active as int].push(c),
                    ),
                    _ => final(self).mode == Mode::AddForm,
                }
            }),
    {
        if self.filter_editing {
            match key {
                Key::Esc | Key::Enter => self.filter_editing = false,
                Key::Backspace => {
                    pop_char(&mut self.filter_text);
                    self.ensure_selection_visible();
                },
                Key::Char { c, plain } => {
                    if plain {
                        push_char(&mut self.filter_text, c);
                        self.ensure_selection_visible();
                    }
                },
                _ => {},
            }
            return Action::Continue;
        }
        match self.mode {
            Mode::Portfolio => match key {
                Key::Char { c: 'q', .. } => return Action::Quit,
                Key::Char { c: 'a', .. } => self.start_add(),
                Key::Char { c: 'i', .. } => self.start_import(),
                Key::Char { c: 'd', .. } | Key::Enter => {
                    if self.filtered_indices().len() > 0 {
                        self.mode = Mode::Detail;
                    }
                },
                Key::Char { c: 'e', .. } => self.start_edit(),
                Key::Char { c: 'x', .. } | Key::Delete => {
                    if self.positions.len() > 0 {
                        self.delete_selected();
                        return Action::Save;
                    }
                },
                Key::Char { c: 'h', .. } => self.mode = Mode::Help,
                Key::Char { c: 'f', .. } | Key::Char { c: '/', .. } => self.filter_editing = true,
                Key::Down => self.select_next(),
                Key::Up => self.select_prev(),
                _ => {},
            },
            Mode::Detail => match key {
                Key::Esc | Key::Char { c: 'b', .. } => self.mode = Mode::Portfolio,
                Key::Char { c: 'q', .. } => return Action::Quit,
                Key::Down => self.select_next(),
                Key::Up => self.select_prev(),
                Key::Char { c: 'i', .. } => self.start_import(),
                Key::Char { c: 'a', .. } => self.start_add(),
                Key::Char { c: 'e', .. } => self.start_edit(),
                Key::Char { c: 'x', .. } | Key::Delete => {
                    let had = self.positions.len() > 0;
                    self.delete_selected();
                    self.mode = Mode::Portfolio;
                    if had {
                        return Action::Save;
                    }
                },
                Key::Char { c: 'f', .. } | Key::Char { c: '/', .. } => self.filter_editing = true,
                _ => {},
            },
            Mode::Help => match key {
                Key::Esc | Key::Char { c: 'b', .. } | Key::Enter => self.mode = Mode::Portfolio,
                Key::Char { c: 'q', .. } => return Action::Quit,
                _ => {},
            },
            Mode::Import => match key {
                Key::Esc => {
                    self.mode = Mode::Portfolio;
                    self.import_form = ImportForm::new();
                },
                Key::Enter => {
                    let path = trimmed(&chars_of(self.import_form.path.as_str()));
                    if path.len() == 0 {
                        self.import_form.error = Some("Path cannot be empty".to_owned());
                    } else {
                        return Action::Import(string_of(&path));
                    }
                },
                Key::Backspace => self.import_form.backspace(),
                Key::Char { c, plain } => {
                    if plain {
                        self.import_form.push_char(c);
                    }
                },
                _ => {},
            },
            Mode::AddForm => match key {
                Key::Esc => {
                    self.mode = Mode::Portfolio;
                    self.editing = None;
                    self.form.error = None;
                },
                Key::Enter => {
                    if self.form.on_enter() {
                        return self.submit_form();
                    } else {
                        self.form.next_field();
                    }
                },
                Key::Tab | Key::Right => self.form.next_field(),
                Key::BackTab => self.form.prev_field(),
                Key::Backspace | Key::Left => self.form.backspace(),
                Key::Char { c, plain } => {
                    if plain {
                        self.form.push_char(c);
                    }
                },
                _ => {},
            },
        }
        Action::Continue
    }

    /// Imports the text of a statement: on success the trades are appended
    /// and the portfolio screen shows how many; on failure the import screen
    /// shows why.
    pub fn import_text(&mut self, data: &str) -> (r: Action)
        requires
            old(self).wf(),
        ensures
            final(self).wf(),
            ({
                let o = statement_outcome(csv_scan_of(data@).0, csv_scan_of(data@).1);
                match o {
                    Outcome::Records(v) => {
                        &&& r is Save
                        &&& positions_view(final(self).positions@) == positions_view(
                            old(self).positions@,
                        ) + v
                        &&& final(self).selected == visible_selection(
                            final(self).filtered(),
                            (final(self).positions@.len() - 1) as usize,
                        )
                        &&& final(self).mode == Mode::Portfolio
                        &&& final(self).import_form.error is None
                        &&& final(self).import_form.message matches Some(m) && m@ == "Imported "@
                            + nat_text(v.len()) + " positions"@
                    },
                    _ => {
                        &&& r is Continue
                        &&& final(self).positions == old(self).positions
                        &&& final(self).selected == old(self).selected
                        &&& final(self).mode == old(self).mode
                        &&& final(self).import_form.error matches Some(m) && m@
                            == outcome_error_text(o)
                        &&& final(self).import_form.message is None
                    },
                }
            }),
    {
        match parse_statement(data) {
            Ok(v) => {
                let ghost before = self.positions@;
                let count = self.add_positions(v);
                assert(positions_view(self.positions@) =~= positions_view(before) + positions_view(
                    v@,
                ));
                let mut text: Vec<char> = Vec::new();
                append_lit(&mut text, "Imported ");
                push_numeral(&mut text, count as u128);
                append_lit(&mut text, " positions");
                self.import_form.message = Some(string_of(&text));
                self.import_form.error = None;
                if self.mode == Mode::AddForm {
                    self.editing = None;
                }
                self.mode = Mode::Portfolio;
                Action::Save
            },
            Err(e) => {
                self.import_form.error = Some(e.message());
                self.import_form.message = None;
                Action::Continue
            },
        }
    }

    /// Shows on the import screen why the statement could not be read.
    pub fn import_failed(&mut self, message: String)
        requires
            old(self).wf(),
        ensures
            final(self).wf(),
            final(self).positions == old(self).positions,
            final(self).import_form.error == Some(message),
            final(self).import_form.message is None,
    {
        self.import_form.error = Some(message);
        self.import_form.message = None;
    }
}

/// The index at which `x` first occurs in `s`, or 0.
fn find_index(s: &Vec<usize>, x: usize) -> (r: usize)
    requires
        s@.len() > 0,
    ensures
        r == index_or_first(s@, x),
        r < s@.len(),
{
    let mut i: usize = 0;
    while i < s.len()
        invariant
            i <= s@.len(),
            first_index(s@.subrange(0, i as int), x) is None,
        decreases s@.len() - i,
    {
        assert(s@.subrange(0, i + 1).drop_last() =~= s@.subrange(0, i as int));
        if s[i] == x {
            proof {
                lemma_first_index_prefix(s@, x, i as int + 1);
            }
            return i;
        }
        i += 1;
    }
    assert(s@.subrange(0, i as int) =~= s@);
    0
}

proof fn lemma_first_index_prefix(s: Seq<usize>, x: usize, n: int)
    requires
        0 < n <= s.len(),
        first_index(s.subrange(0, n), x) is Some,
    ensures
        first_index(s, x) == first_index(s.subrange(0, n), x),
    decreases s.len() - n,
{
    if n < s.len() {
        assert(s.subrange(0, n + 1).drop_last() =~= s.subrange(0, n));
        lemma_first_index_prefix(s, x, n + 1);
    } else {
        assert(s.subrange(0, n) =~= s);
    }
}

proof fn lemma_first_index_contains(s: Seq<usize>, x: usize)
    ensures
        first_index(s, x) matches Some(i) ==> 0 <= i < s.len() && s[i] == x,
        first_index(s, x) is None ==> !s.contains(x),
    decreases s.len(),
{
    if s.len() > 0 {
        lemma_first_index_contains(s.drop_last(), x);
        if first_index(s.drop_last(), x) is None && s.last() != x {
            assert forall|i: int| 0 <= i < s.len() implies s[i] != x by {
                if i < s.len() - 1 {
                    assert(s.drop_last()[i] == s[i]);
                }
            }
        }
    }
}

} // verus!
