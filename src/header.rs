//! Header-row detection: cells are reduced to lower-case ASCII letters and
//! digits and matched against the recognised column names of each role.
use crate::text::{eq_lit, lower_char, lower_of};
use vstd::prelude::*;

verus! {

/// The meaning of a recognised column name.
#[derive(Clone, Copy, Debug, PartialEq, Eq, Structural)]
pub enum Role {
    Ticker,
    Quantity,
    Cost,
    SalePrice,
    PurchaseDate,
    /// A date column whose meaning is settled by its position.
    GenericDate,
}

/// Column index of each field of a trade row.
#[derive(Clone, Copy, Debug, PartialEq, Eq, Structural)]
pub struct HeaderMap {
    pub ticker: usize,
    pub cost: usize,
    pub qty: usize,
    pub sale_price: usize,
    pub buy_date: usize,
    pub sale_date: usize,
}

pub open spec fn is_ascii_alnum(c: char) -> bool {
    ('0' <= c && c <= '9') || ('a' <= c && c <= 'z') || ('A' <= c && c <= 'Z')
}

/// The ASCII letters and digits of `s`, lower-cased.
pub open spec fn sanitize(s: Seq<char>) -> Seq<char>
    decreases s.len(),
{
    if s.len() == 0 {
        s
    } else if is_ascii_alnum(s.last()) {
        sanitize(s.drop_last()).push(lower_char(s.last()))
    } else {
        sanitize(s.drop_last())
    }
}

/// The role of a sanitised column name, if it is a recognised one.
pub open spec fn role_of(h: Seq<char>) -> Option<Role> {
    if h == "symbol"@ || h == "ticker"@ {
        Some(Role::Ticker)
    } else if h == "qty"@ || h == "qtynumber"@ || h == "qtyshare"@ || h == "quantity"@ || h
        == "qtyshares"@ {
        Some(Role::Quantity)
    } else if h == "costshare"@ || h == "costpershare"@ {
        Some(Role::Cost)
    } else if h == "priceshare"@ || h == "pricepershare"@ || h == "saleprice"@ || h
        == "sellprice"@ {
        Some(Role::SalePrice)
    } else if h == "dateadded"@ || h == "purchasedate"@ || h == "buydate"@ {
        Some(Role::PurchaseDate)
    } else if h == "date"@ || h == "saledate"@ || h == "selldate"@ {
        Some(Role::GenericDate)
    } else {
        None
    }
}

pub open spec fn cell_role(cells: Seq<Seq<char>>, i: int) -> Option<Role> {
    role_of(sanitize(cells[i]))
}

/// The last of the first `n` cells that has `role`.
pub open spec fn last_with_role(cells: Seq<Seq<char>>, role: Role, n: int) -> Option<usize>
    decreases n,
{
    if n <= 0 {
        None
    } else if cell_role(cells, n - 1) == Some(role) {
        Some((n - 1) as usize)
    } else {
        last_with_role(cells, role, n - 1)
    }
}

/// The generic date columns among the first `n` cells, in order.
pub open spec fn date_columns(cells: Seq<Seq<char>>, n: int) -> Seq<usize>
    decreases n,
{
    if n <= 0 {
        Seq::empty()
    } else if cell_role(cells, n - 1) == Some(Role::GenericDate) {
        date_columns(cells, n - 1).push((n - 1) as usize)
    } else {
        date_columns(cells, n - 1)
    }
}

/// The purchase-date column: an explicit one, else the first generic date.
pub open spec fn buy_date_column(cells: Seq<Seq<char>>) -> Option<usize> {
    let dates = date_columns(cells, cells.len() as int);
    match last_with_role(cells, Role::PurchaseDate, cells.len() as int) {
        Some(i) => Some(i),
        None => if dates.len() > 0 {
            Some(dates[0])
        } else {
            None
        },
    }
}

/// The sale-date column: the second generic date, else the first one.
pub open spec fn sale_date_column(cells: Seq<Seq<char>>) -> Option<usize> {
    let dates = date_columns(cells, cells.len() as int);
    if dates.len() > 1 {
        Some(dates[1])
    } else if dates.len() > 0 {
        Some(dates[0])
    } else {
        None
    }
}

/// The header that a row declares, when every field resolves to a column.
pub open spec fn detect_header(cells: Seq<Seq<char>>) -> Option<HeaderMap> {
    let n = cells.len() as int;
    match (
        last_with_role(cells, Role::Ticker, n),
        last_with_role(cells, Role::Cost, n),
        last_with_role(cells, Role::Quantity, n),
        last_with_role(cells, Role::SalePrice, n),
        buy_date_column(cells),
        sale_date_column(cells),
    ) {
        (Some(t), Some(c), Some(q), Some(s), Some(b), Some(d)) => Some(
            HeaderMap { ticker: t, cost: c, qty: q, sale_price: s, buy_date: b, sale_date: d },
        ),
        _ => None,
    }
}

/// The ASCII letters and digits of `v`, lower-cased.
pub fn sanitize_header(v: &Vec<char>) -> (r: Vec<char>)
    ensures
        r@ == sanitize(v@),
{
    let mut r: Vec<char> = Vec::new();
    let mut i: usize = 0;
    while i < v.len()
        invariant
            i <= v@.len(),
            r@ == sanitize(v@.subrange(0, i as int)),
        decreases v@.len() - i,
    {
        let c = v[i];
        assert(v@.subrange(0, i + 1).drop_last() =~= v@.subrange(0, i as int));
        if ('0' <= c && c <= '9') || ('a' <= c && c <= 'z') || ('A' <= c && c <= 'Z') {
            r.push(lower_of(c));
        }
        i += 1;
    }
    assert(v@.subrange(0, i as int) =~= v@);
    r
}

/// The role of a sanitised column name.
pub fn role_of_exec(h: &Vec<char>) -> (r: Option<Role>)
    ensures
        r == role_of(h@),
{
    if eq_lit(h, "symbol") || eq_lit(h, "ticker") {
        Some(Role::Ticker)
    } else if eq_lit(h, "qty") || eq_lit(h, "qtynumber") || eq_lit(h, "qtyshare") || eq_lit(
        h,
        "quantity",
    ) || eq_lit(h, "qtyshares") {
        Some(Role::Quantity)
    } else if eq_lit(h, "costshare") || eq_lit(h, "costpershare") {
        Some(Role::Cost)
    } else if eq_lit(h, "priceshare") || eq_lit(h, "pricepershare") || eq_lit(h, "saleprice")
        || eq_lit(h, "sellprice") {
        Some(Role::SalePrice)
    } else if eq_lit(h, "dateadded") || eq_lit(h, "purchasedate") || eq_lit(h, "buydate") {
        Some(Role::PurchaseDate)
    } else if eq_lit(h, "date") || eq_lit(h, "saledate") || eq_lit(h, "selldate") {
        Some(Role::GenericDate)
    } else {
        None
    }
}

/// Finds the column of every field in a header row; `None` when some field
/// has no column, so that the row is not a header.
pub fn detect_header_exec(cells: &Vec<Vec<char>>) -> (r: Option<HeaderMap>)
    ensures
        r == detect_header(cells@.map_values(|c: Vec<char>| c@)),
{
    let ghost cv = cells@.map_values(|c: Vec<char>| c@);
    let mut t: Option<usize> = None;
    let mut cost: Option<usize> = None;
    let mut qty: Option<usize> = None;
    let mut sale: Option<usize> = None;
    let mut buy: Option<usize> = None;
    let mut dates: Vec<usize> = Vec::new();
    let mut i: usize = 0;
    while i < cells.len()
        invariant
            i <= cells@.len() == cv.len(),
            cv == cells@.map_values(|c: Vec<char>| c@),
            t == last_with_role(cv, Role::Ticker, i as int),
            cost == last_with_role(cv, Role::Cost, i as int),
            qty == last_with_role(cv, Role::Quantity, i as int),
            sale == last_with_role(cv, Role::SalePrice, i as int),
            buy == last_with_role(cv, Role::PurchaseDate, i as int),
            dates@ == date_columns(cv, i as int),
        decreases cells@.len() - i,
    {
        let h = sanitize_header(&cells[i]);
        let role = role_of_exec(&h);
        assert(cv[i as int] == cells@[i as int]@);
        match role {
            Some(Role::Ticker) => t = Some(i),
            Some(Role::Quantity) => qty = Some(i),
            Some(Role::Cost) => cost = Some(i),
            Some(Role::SalePrice) => sale = Some(i),
            Some(Role::PurchaseDate) => buy = Some(i),
            Some(Role::GenericDate) => dates.push(i),
            None => {},
        }
        i += 1;
    }
    if buy.is_none() && dates.len() > 0 {
        buy = Some(dates[0]);
    }
    let sale_d = if dates.len() > 1 {
        Some(dates[1])
    } else if dates.len() > 0 {
        Some(dates[0])
    } else {
        None
    };
    match (t, cost, qty, sale, buy, sale_d) {
        (Some(t), Some(c), Some(q), Some(s), Some(b), Some(d)) => Some(
            HeaderMap { ticker: t, cost: c, qty: q, sale_price: s, buy_date: b, sale_date: d },
        ),
        _ => None,
    }
}

} // verus!
