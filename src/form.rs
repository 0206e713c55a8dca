//! The entry forms: a six-field form for one trade and a one-line form for
//! the path of a statement to import.
use crate::date::{chrono_format_iso, date_le, iso_text};
use crate::decimal::{decimal_text, widened};
use crate::position::{ticker_of, Position, PositionView};
use crate::statement::{amount_field, date_of_field, FieldLabel, RowFault};
use crate::text::{append_lit, chars_of, pop_char, push_char, string_of};
use vstd::prelude::*;

verus! {

/// One labelled text field.
pub struct Field {
    pub label: &'static str,
    pub placeholder: &'static str,
    pub value: String,
}

impl Field {
    /// An empty field.
    pub fn new(label: &'static str, placeholder: &'static str) -> (r: Self)
        ensures
            r.label == label,
            r.placeholder == placeholder,
            r.value@ == Seq::<char>::empty(),
    {
        Self { label, placeholder, value: String::new() }
    }
}

/// The labels of the trade form's fields, in order.
pub open spec fn form_labels() -> Seq<Seq<char>> {
    seq!["Ticker"@, "Cost/share"@, "Quantity"@, "Sale price"@, "Purchase date"@, "Sale date"@]
}

/// Number of fields of the trade form.
pub const FORM_FIELDS: usize = 6;

/// The trade form: ticker, cost per share, quantity, sale price, purchase
/// date and sale date, with the index of the field being edited.
pub struct AddForm {
    pub fields: Vec<Field>,
    pub active: usize,
    pub error: Option<String>,
}

impl AddForm {
    pub open spec fn wf(&self) -> bool {
        self.fields@.len() == FORM_FIELDS && self.active < FORM_FIELDS
    }

    /// The texts entered, field by field.
    pub open spec fn values(&self) -> Seq<Seq<char>> {
        self.fields@.map_values(|f: Field| f.value@)
    }

    pub open spec fn labels(&self) -> Seq<Seq<char>> {
        self.fields@.map_values(|f: Field| f.label@)
    }

    pub open spec fn placeholders(&self) -> Seq<Seq<char>> {
        self.fields@.map_values(|f: Field| f.placeholder@)
    }

    /// A blank form with the ticker field active.
    pub fn new() -> (r: Self)
        ensures
            r.wf(),
            r.active == 0,
            r.error is None,
            forall|i: int| 0 <= i < FORM_FIELDS ==> (#[trigger] r.values()[i]).len() == 0,
            r.labels() == form_labels(),
    {
        let fields = vec![
            Field::new("Ticker", "e.g. AAPL"),
            Field::new("Cost/share", "e.g. 112.40"),
            Field::new("Quantity", "e.g. 50"),
            Field::new("Sale price", "e.g. 128.70"),
            Field::new("Purchase date", "YYYY-MM-DD"),
            Field::new("Sale date", "YYYY-MM-DD"),
        ];
        let r = Self { fields, active: 0, error: None };
        assert(r.labels() =~= form_labels());
        r
    }

    /// The form filled in with a trade, for editing it: prices with at least
    /// two decimals, the quantity with at least four.
    pub fn from_position(pos: &Position) -> (r: Self)
        requires
            pos@.wf(),
        ensures
            r.wf(),
            r.active == 0,
            r.error is None,
            r.values() == seq![
                pos.ticker@,
                decimal_text(widened(pos.cost_per_share, 2)),
                decimal_text(widened(pos.quantity, 4)),
                decimal_text(widened(pos.sale_price, 2)),
                iso_text(pos.purchase_date),
                iso_text(pos.sale_date),
            ],
            r.labels() == form_labels(),
    {
        let fields = vec![
            Field { label: "Ticker", placeholder: "e.g. AAPL", value: pos.ticker.clone() },
            Field {
                label: "Cost/share",
                placeholder: "e.g. 112.40",
                value: pos.cost_per_share.widen(2).to_text(),
            },
            Field {
                label: "Quantity",
                placeholder: "e.g. 50",
                value: pos.quantity.widen(4).to_text(),
            },
            Field {
                label: "Sale price",
                placeholder: "e.g. 128.70",
                value: pos.sale_price.widen(2).to_text(),
            },
            Field {
                label: "Purchase date",
                placeholder: "YYYY-MM-DD",
                value: chrono_format_iso(pos.purchase_date),
            },
            Field {
                label: "Sale date",
                placeholder: "YYYY-MM-DD",
                value: chrono_format_iso(pos.sale_date),
            },
        ];
        let r = Self { fields, active: 0, error: None };
        assert(r.values() =~= seq![
            pos.ticker@,
            decimal_text(widened(pos.cost_per_share, 2)),
            decimal_text(widened(pos.quantity, 4)),
            decimal_text(widened(pos.sale_price, 2)),
            iso_text(pos.purchase_date),
            iso_text(pos.sale_date),
        ]);
        assert(r.labels() =~= form_labels());
        r
    }

    /// Whether Enter submits the form: the last field is active.
    pub fn on_enter(&self) -> (r: bool)
        ensures
            r == (self.active + 1 >= self.fields@.len()),
    {
        self.active >= self.fields.len().saturating_sub(1)
    }

    /// Moves to the next field, from the last back to the first.
    pub fn next_field(&mut self)
        requires
            old(self).wf(),
        ensures
            final(self).wf(),
            final(self).active == (old(self).active + 1) % (FORM_FIELDS as int),
            final(self).fields == old(self).fields,
            final(self).error == old(self).error,
    {
        self.active = (self.active + 1) % self.fields.len();
    }

    /// Moves to the previous field, from the first round to the last.
    pub fn prev_field(&mut self)
        requires
            old(self).wf(),
        ensures
            final(self).wf(),
            final(self).active == if old(self).active == 0 {
                (FORM_FIELDS - 1) as usize
            } else {
                (old(self).active - 1) as usize
            },
            final(self).fields == old(self).fields,
            final(self).error == old(self).error,
    {
        if self.active == 0 {
            self.active = self.fields.len() - 1;
        } else {
            self.active -= 1;
        }
    }

    /// Deletes the last character of the active field, if it has one.
    pub fn backspace(&mut self)
        requires
            old(self).wf(),
        ensures
            final(self).wf(),
            final(self).active == old(self).active,
            final(self).error == old(self).error,
            final(self).labels() == old(self).labels(),
            final(self).placeholders() == old(self).placeholders(),
            final(self).values() == old(self).values().update(
                old(self).active as int,
                if old(self).values()[old(self).active as int].len() == 0 {
                    old(self).values()[old(self).active as int]
                } else {
                    old(self).values()[old(self).active as int].drop_last()
                },
            ),
    {
        let i = self.active;
        let mut f = self.fields.remove(i);
        pop_char(&mut f.value);
        self.fields.insert(i, f);
        assert(self.values() =~= old(self).values().update(
            i as int,
            if old(self).values()[i as int].len() == 0 {
                old(self).values()[i as int]
            } else {
                old(self).values()[i as int].drop_last()
            },
        ));
        assert(self.labels() =~= old(self).labels());
        assert(self.placeholders() =~= old(self).placeholders());
    }

    /// Appends a character to the active field.
    pub fn push_char(&mut self, c: char)
        requires
            old(self).wf(),
        ensures
            final(self).wf(),
            final(self).active == old(self).active,
            final(self).error == old(self).error,
            final(self).labels() == old(self).labels(),
            final(self).placeholders() == old(self).placeholders(),
            final(self).values() == old(self).values().update(
                old(self).active as int,
                old(self).values()[old(self).active as int].push(c),
            ),
    {
        let i = self.active;
        let mut f = self.fields.remove(i);
        push_char(&mut f.value, c);
        self.fields.insert(i, f);
        assert(self.values() =~= old(self).values().update(
            i as int,
            old(self).values()[i as int].push(c),
        ));
        assert(self.labels() =~= old(self).labels());
        assert(self.placeholders() =~= old(self).placeholders());
    }

    /// Builds the trade that the form describes, or names its first fault.
    pub fn try_build_position(&self) -> (r: Result<Position, String>)
        requires
            self.wf(),
        ensures
            match form_trade(self.values()) {
                Ok(p) => r matches Ok(q) && q@ == p && q@.wf(),
                Err(f) => r matches Err(m) && m@ == fault_text(f),
            },
    {
        match self.build() {
            Ok(p) => Ok(p),
            Err(f) => Err(f.message()),
        }
    }

    fn build(&self) -> (r: Result<Position, RowFault>)
        requires
            self.wf(),
        ensures
            match form_trade(self.values()) {
                Ok(p) => r matches Ok(q) && q@ == p && q@.wf(),
                Err(f) => r == Err::<Position, RowFault>(f),
            },
    {
        assert(self.values()[0] == self.fields@[0].value@);
        assert(self.values()[1] == self.fields@[1].value@);
        assert(self.values()[2] == self.fields@[2].value@);
        assert(self.values()[3] == self.fields@[3].value@);
        assert(self.values()[4] == self.fields@[4].value@);
        assert(self.values()[5] == self.fields@[5].value@);
        let ticker = match crate::position::parse_ticker(self.fields[0].value.as_str()) {
            Ok(t) => t,
            Err(_) => return Err(RowFault::EmptyTicker),
        };
        let cost = crate::statement::amount_field_exec(
            &chars_of(self.fields[1].value.as_str()),
            FieldLabel::CostPerShare,
        )?;
        let qty = crate::statement::amount_field_exec(
            &chars_of(self.fields[2].value.as_str()),
            FieldLabel::Quantity,
        )?;
        let sale_price = crate::statement::amount_field_exec(
            &chars_of(self.fields[3].value.as_str()),
            FieldLabel::SalePrice,
        )?;
        let purchase_date = crate::statement::date_of_field_exec(
            &chars_of(self.fields[4].value.as_str()),
            FieldLabel::PurchaseDate,
        )?;
        let sale_date = crate::statement::date_of_field_exec(
            &chars_of(self.fields[5].value.as_str()),
            FieldLabel::SaleDate,
        )?;
        if !crate::date::date_le_exec(purchase_date, sale_date) {
            return Err(RowFault::DateOrder);
        }
        Ok(
            Position {
                ticker,
                cost_per_share: cost,
                quantity: qty,
                sale_price,
                purchase_date,
                sale_date,
            },
        )
    }
}

impl Default for AddForm {
    /// A blank form, as [`AddForm::new`] makes it.
    fn default() -> (r: Self)
        ensures
            r.wf(),
            r.active == 0,
            r.error is None,
            forall|i: int| 0 <= i < FORM_FIELDS ==> (#[trigger] r.values()[i]).len() == 0,
            r.labels() == form_labels(),
    {
        Self::new()
    }
}

/// The trade that six field texts describe, or the first fault among them.
pub open spec fn form_trade(v: Seq<Seq<char>>) -> Result<PositionView, RowFault> {
    match ticker_of(v[0]) {
        None => Err(RowFault::EmptyTicker),
        Some(t) => match amount_field(v[1], FieldLabel::CostPerShare) {
            Err(f) => Err(f),
            Ok(c) => match amount_field(v[2], FieldLabel::Quantity) {
                Err(f) => Err(f),
                Ok(q) => match amount_field(v[3], FieldLabel::SalePrice) {
                    Err(f) => Err(f),
                    Ok(s) => match date_of_field(v[4], FieldLabel::PurchaseDate) {
                        Err(f) => Err(f),
                        Ok(b) => match date_of_field(v[5], FieldLabel::SaleDate) {
                            Err(f) => Err(f),
                            Ok(d) => if date_le(b, d) {
                                Ok(
                                    PositionView {
                                        ticker: t,
                                        cost_per_share: c,
                                        quantity: q,
                                        sale_price: s,
                                        purchase_date: b,
                                        sale_date: d,
                                    },
                                )
                            } else {
                                Err(RowFault::DateOrder)
                            },
                        },
                    },
                },
            },
        },
    }
}

pub open spec fn label_text(l: FieldLabel) -> Seq<char> {
    match l {
        FieldLabel::CostPerShare => "cost/share"@,
        FieldLabel::Quantity => "quantity"@,
        FieldLabel::SalePrice => "sale price"@,
        FieldLabel::PurchaseDate => "purchase date"@,
        FieldLabel::SaleDate => "sale date"@,
    }
}

/// The sentence that describes a fault.
pub open spec fn fault_text(f: RowFault) -> Seq<char> {
    match f {
        RowFault::InvalidNumber(l) => "Invalid "@ + label_text(l),
        RowFault::InvalidDate(l) => "Invalid "@ + label_text(l)
            + ", expected YYYY-MM-DD or MM/DD/YYYY"@,
        RowFault::EmptyTicker => "Ticker cannot be empty"@,
        RowFault::DateOrder => "Sale date cannot be before purchase date"@,
    }
}

fn label_str(l: FieldLabel) -> (r: &'static str)
    ensures
        r@ == label_text(l),
{
    match l {
        FieldLabel::CostPerShare => "cost/share",
        FieldLabel::Quantity => "quantity",
        FieldLabel::SalePrice => "sale price",
        FieldLabel::PurchaseDate => "purchase date",
        FieldLabel::SaleDate => "sale date",
    }
}

impl RowFault {
    /// The sentence that describes the fault.
    pub fn message(&self) -> (r: String)
        ensures
            r@ == fault_text(*self),
    {
        let mut v: Vec<char> = Vec::new();
        match *self {
            RowFault::InvalidNumber(l) => {
                append_lit(&mut v, "Invalid ");
                append_lit(&mut v, label_str(l));
            },
            RowFault::InvalidDate(l) => {
                append_lit(&mut v, "Invalid ");
                append_lit(&mut v, label_str(l));
                append_lit(&mut v, ", expected YYYY-MM-DD or MM/DD/YYYY");
            },
            RowFault::EmptyTicker => append_lit(&mut v, "Ticker cannot be empty"),
            RowFault::DateOrder => append_lit(&mut v, "Sale date cannot be before purchase date"),
        }
        assert(v@ =~= fault_text(*self));
        string_of(&v)
    }
}

/// The path form of the import screen.
pub struct ImportForm {
    pub path: String,
    pub message: Option<String>,
    pub error: Option<String>,
}

impl ImportForm {
    /// An empty path with no message.
    pub fn new() -> (r: Self)
        ensures
            r.path@ == Seq::<char>::empty(),
            r.message is None,
            r.error is None,
    {
        Self { path: String::new(), message: None, error: None }
    }

    /// Deletes the last character of the path, if any.
    pub fn backspace(&mut self)
        ensures
            final(self).path@ == if old(self).path@.len() == 0 {
                old(self).path@
            } else {
                old(self).path@.drop_last()
            },
            final(self).message == old(self).message,
            final(self).error == old(self).error,
    {
        pop_char(&mut self.path);
    }

    /// Appends a character to the path.
    pub fn push_char(&mut self, c: char)
        ensures
            final(self).path@ == old(self).path@.push(c),
            final(self).message == old(self).message,
            final(self).error == old(self).error,
    {
        push_char(&mut self.path, c);
    }
}

} // verus!
