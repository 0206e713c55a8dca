//! Realized trades: one closed purchase-then-sale of a quantity of a ticker.
use crate::date::{date_le, day_number, day_span, CivilDate};
use crate::decimal::{lemma_pow10_add, lemma_pow10_facts, lemma_pow10_mono, pow10, Decimal};
use crate::text::{chars_of, string_of, to_upper, trim, trimmed, upper};
use vstd::prelude::*;

verus! {

/// A realized trade.
#[derive(Clone, Debug)]
pub struct Position {
    pub ticker: String,
    pub cost_per_share: Decimal,
    pub quantity: Decimal,
    pub sale_price: Decimal,
    pub purchase_date: CivilDate,
    pub sale_date: CivilDate,
}

/// The model of a [`Position`].
pub struct PositionView {
    pub ticker: Seq<char>,
    pub cost_per_share: Decimal,
    pub quantity: Decimal,
    pub sale_price: Decimal,
    pub purchase_date: CivilDate,
    pub sale_date: CivilDate,
}

impl View for Position {
    type V = PositionView;

    open spec fn view(&self) -> PositionView {
        PositionView {
            ticker: self.ticker@,
            cost_per_share: self.cost_per_share,
            quantity: self.quantity,
            sale_price: self.sale_price,
            purchase_date: self.purchase_date,
            sale_date: self.sale_date,
        }
    }
}

impl PositionView {
    /// Values within bounds, real calendar days, and the sale not before the purchase.
    pub open spec fn wf(self) -> bool {
        &&& self.cost_per_share.wf()
        &&& self.quantity.wf()
        &&& self.sale_price.wf()
        &&& self.purchase_date.wf()
        &&& self.sale_date.wf()
        &&& date_le(self.purchase_date, self.sale_date)
    }
}

/// The value `units / 10^scale`, wide enough for products of two decimals.
#[derive(Clone, Copy, Debug, PartialEq, Eq, Structural)]
pub struct Amount {
    pub units: i128,
    pub scale: u32,
}

/// The quotient `num / den`.
#[derive(Clone, Copy, Debug, PartialEq, Eq, Structural)]
pub struct Ratio {
    pub num: i128,
    pub den: i128,
}

/// How a trade's annualized return is to be computed.
#[derive(Clone, Copy, Debug, PartialEq, Eq, Structural)]
pub enum Annualized {
    /// Nothing came back relative to what went in: the rate is exactly -1.
    TotalLoss,
    /// The rate is `multiple^(365 / days) - 1`.
    Compounded { multiple: Ratio, days: i64 },
}

/// `r` is the difference `a - b` of the values.
pub open spec fn is_difference(r: Amount, a: Amount, b: Amount) -> bool {
    r.units * pow10(a.scale as nat) * pow10(b.scale as nat) == (a.units * pow10(b.scale as nat)
        - b.units * pow10(a.scale as nat)) * pow10(r.scale as nat)
}

/// `r` is the quotient `a / b` of the values.
pub open spec fn is_quotient(r: Ratio, a: Amount, b: Amount) -> bool {
    r.den != 0 && r.num * b.units * pow10(a.scale as nat) == r.den * a.units * pow10(
        b.scale as nat,
    )
}

pub open spec fn max_scale(a: u32, b: u32) -> u32 {
    if a >= b {
        a
    } else {
        b
    }
}

impl PositionView {
    /// Cost per share times quantity.
    pub open spec fn invested(self) -> Amount {
        Amount {
            units: (self.cost_per_share.units * self.quantity.units) as i128,
            scale: (self.cost_per_share.scale + self.quantity.scale) as u32,
        }
    }

    /// Sale price times quantity.
    pub open spec fn proceeds(self) -> Amount {
        Amount {
            units: (self.sale_price.units * self.quantity.units) as i128,
            scale: (self.sale_price.scale + self.quantity.scale) as u32,
        }
    }

    /// Proceeds minus invested, at the finer of the two price scales.
    pub open spec fn profit(self) -> Amount {
        let top = max_scale(self.cost_per_share.scale, self.sale_price.scale);
        Amount {
            units: ((self.sale_price.units * pow10((top - self.sale_price.scale) as nat)
                - self.cost_per_share.units * pow10((top - self.cost_per_share.scale) as nat))
                * self.quantity.units) as i128,
            scale: (top + self.quantity.scale) as u32,
        }
    }

    /// Whole days from purchase to sale, at least one.
    pub open spec fn days_held(self) -> int {
        let d = day_number(self.sale_date) - day_number(self.purchase_date);
        if d < 1 {
            1
        } else {
            d
        }
    }
}

proof fn lemma_pow10_30()
    ensures
        pow10(30) == 1_000_000_000_000_000_000_000_000_000_000int,
{
    reveal_with_fuel(pow10, 31);
}

fn pow10_exec(k: u32) -> (r: i128)
    requires
        k <= 30,
    ensures
        r == pow10(k as nat),
        r <= pow10(30),
{
    let mut r: i128 = 1;
    let mut i: u32 = 0;
    while i < k
        invariant
            i <= k <= 30,
            r == pow10(i as nat),
        decreases k - i,
    {
        proof {
            lemma_pow10_mono((i + 1) as nat, 30);
            lemma_pow10_30();
            lemma_pow10_facts(i as nat);
            assert(pow10((i + 1) as nat) == 10 * pow10(i as nat));
        }
        r = r * 10;
        i += 1;
    }
    proof {
        lemma_pow10_mono(k as nat, 30);
    }
    r
}

/// The models of a list of positions.
pub open spec fn positions_view(v: Seq<Position>) -> Seq<PositionView> {
    v.map_values(|p: Position| p@)
}

impl Position {
    /// Capital put in: cost per share times quantity.
    pub fn invested(&self) -> (r: Amount)
        requires
            self@.wf(),
        ensures
            r == self@.invested(),
    {
        proof {
            bound_product(self.cost_per_share.units as int, self.quantity.units as int);
        }
        Amount {
            units: self.cost_per_share.units as i128 * self.quantity.units as i128,
            scale: self.cost_per_share.scale + self.quantity.scale,
        }
    }

    /// What the sale brought: sale price times quantity.
    pub fn proceeds(&self) -> (r: Amount)
        requires
            self@.wf(),
        ensures
            r == self@.proceeds(),
    {
        proof {
            bound_product(self.sale_price.units as int, self.quantity.units as int);
        }
        Amount {
            units: self.sale_price.units as i128 * self.quantity.units as i128,
            scale: self.sale_price.scale + self.quantity.scale,
        }
    }

    /// Profit: proceeds minus invested, exactly.
    pub fn roi_value(&self) -> (r: Amount)
        requires
            self@.wf(),
        ensures
            r == self@.profit(),
            is_difference(r, self@.proceeds(), self@.invested()),
    {
        proof {
            lemma_profit_bounds(self@);
            profit_is_proceeds_minus_invested(self@);
        }
        let top = if self.cost_per_share.scale >= self.sale_price.scale {
            self.cost_per_share.scale
        } else {
            self.sale_price.scale
        };
        let x = pow10_exec(top - self.sale_price.scale);
        let y = pow10_exec(top - self.cost_per_share.scale);
        proof {
            lemma_pow10_mono((top - self.sale_price.scale) as nat, 9);
            lemma_pow10_mono((top - self.cost_per_share.scale) as nat, 9);
            lemma_pow10_facts(0);
            reveal_with_fuel(pow10, 10);
            mul_fits(self.sale_price.units as int, x as int);
            mul_fits(self.cost_per_share.units as int, y as int);
        }
        let a = self.sale_price.units as i128 * x;
        let b = self.cost_per_share.units as i128 * y;
        Amount { units: (a - b) * self.quantity.units as i128, scale: top + self.quantity.scale }
    }

    /// Profit over invested capital; `None` when nothing was invested.
    pub fn roi_pct(&self) -> (r: Option<Ratio>)
        requires
            self@.wf(),
        ensures
            r is None <==> self@.invested().units == 0,
            r matches Some(q) ==> is_quotient(q, self@.profit(), self@.invested()),
    {
        let profit = self.roi_value();
        let invested = self.invested();
        if invested.units == 0 {
            return None;
        }
        let top = if self.cost_per_share.scale >= self.sale_price.scale {
            self.cost_per_share.scale
        } else {
            self.sale_price.scale
        };
        let y = pow10_exec(top - self.cost_per_share.scale);
        proof {
            lemma_quotient_parts(self@);
        }
        Some(Ratio { num: profit.units, den: invested.units * y })
    }

    /// The annualized return: a total loss when proceeds or invested capital
    /// is not positive, else compounding of proceeds over invested capital
    /// across the days held.
    pub fn annualized_roi(&self) -> (r: Annualized)
        requires
            self@.wf(),
        ensures
            r == Annualized::TotalLoss <==> (self@.proceeds().units <= 0
                || self@.invested().units <= 0),
            r matches Annualized::Compounded { multiple, days } ==> is_quotient(
                multiple,
                self@.proceeds(),
                self@.invested(),
            ) && days == self@.days_held(),
    {
        let proceeds = self.proceeds();
        let invested = self.invested();
        if proceeds.units <= 0 || invested.units <= 0 {
            return Annualized::TotalLoss;
        }
        let top = if self.cost_per_share.scale >= self.sale_price.scale {
            self.cost_per_share.scale
        } else {
            self.sale_price.scale
        };
        let x = pow10_exec(top - self.sale_price.scale);
        let y = pow10_exec(top - self.cost_per_share.scale);
        proof {
            lemma_quotient_parts(self@);
        }
        Annualized::Compounded {
            multiple: Ratio { num: proceeds.units * x, den: invested.units * y },
            days: self.days_held(),
        }
    }

    /// Whole days from purchase to sale, at least one even for a same-day trade.
    pub fn days_held(&self) -> (r: i64)
        requires
            self@.wf(),
        ensures
            r == self@.days_held(),
            r >= 1,
    {
        let days = day_span(self.purchase_date, self.sale_date);
        if days < 1 {
            1
        } else {
            days
        }
    }
}

proof fn mul_fits(a: int, x: int)
    requires
        -100_000_000_000_000 < a < 100_000_000_000_000,
        1 <= x <= 1_000_000_000,
    ensures
        -100_000_000_000_000_000_000_000 < a * x < 100_000_000_000_000_000_000_000,
{
    assert(-100_000_000_000_000_000_000_000 < a * x < 100_000_000_000_000_000_000_000)
        by (nonlinear_arith)
        requires
            -100_000_000_000_000 < a < 100_000_000_000_000,
            1 <= x <= 1_000_000_000,
    ;
}

/// The quotients of profit and of proceeds over invested capital, taken at
/// the finer price scale, and the bounds that keep them within `i128`.
proof fn lemma_quotient_parts(p: PositionView)
    requires
        p.wf(),
    ensures
        ({
            let top = max_scale(p.cost_per_share.scale, p.sale_price.scale);
            let x = pow10((top - p.sale_price.scale) as nat);
            let y = pow10((top - p.cost_per_share.scale) as nat);
            &&& -100_000_000_000_000_000_000_000_000_000_000_000_000 < p.invested().units * y
                < 100_000_000_000_000_000_000_000_000_000_000_000_000
            &&& -100_000_000_000_000_000_000_000_000_000_000_000_000 < p.proceeds().units * x
                < 100_000_000_000_000_000_000_000_000_000_000_000_000
            &&& (p.invested().units != 0 ==> is_quotient(
                Ratio { num: p.profit().units, den: (p.invested().units * y) as i128 },
                p.profit(),
                p.invested(),
            ))
            &&& (p.invested().units != 0 ==> is_quotient(
                Ratio {
                    num: (p.proceeds().units * x) as i128,
                    den: (p.invested().units * y) as i128,
                },
                p.proceeds(),
                p.invested(),
            ))
        }),
{
    let (s, c, q) = (p.sale_price, p.cost_per_share, p.quantity);
    let top = max_scale(c.scale, s.scale);
    let x = pow10((top - s.scale) as nat);
    let y = pow10((top - c.scale) as nat);
    let (ps, pc, pt, pq) = (
        pow10(s.scale as nat),
        pow10(c.scale as nat),
        pow10(top as nat),
        pow10(q.scale as nat),
    );
    lemma_pow10_add((top - s.scale) as nat, s.scale as nat);
    lemma_pow10_add((top - c.scale) as nat, c.scale as nat);
    lemma_pow10_add(s.scale as nat, q.scale as nat);
    lemma_pow10_add(c.scale as nat, q.scale as nat);
    lemma_pow10_add(top as nat, q.scale as nat);
    lemma_pow10_mono((top - s.scale) as nat, 9);
    lemma_pow10_mono((top - c.scale) as nat, 9);
    lemma_pow10_facts((top - s.scale) as nat);
    lemma_pow10_facts((top - c.scale) as nat);
    lemma_pow10_facts(c.scale as nat);
    reveal_with_fuel(pow10, 10);
    let (su, cu, qu) = (s.units as int, c.units as int, q.units as int);
    lemma_profit_bounds(p);
    bound_product(su, qu);
    bound_product(cu, qu);
    let (iu, pu) = (cu * qu, su * qu);
    assert(p.invested().units == iu);
    assert(p.proceeds().units == pu);
    assert(-100_000_000_000_000_000_000_000_000_000_000_000_000 < iu * y
        < 100_000_000_000_000_000_000_000_000_000_000_000_000) by (nonlinear_arith)
        requires
            -10_000_000_000_000_000_000_000_000_000 < iu < 10_000_000_000_000_000_000_000_000_000,
            1 <= y <= 1_000_000_000,
    ;
    assert(-100_000_000_000_000_000_000_000_000_000_000_000_000 < pu * x
        < 100_000_000_000_000_000_000_000_000_000_000_000_000) by (nonlinear_arith)
        requires
            -10_000_000_000_000_000_000_000_000_000 < pu < 10_000_000_000_000_000_000_000_000_000,
            1 <= x <= 1_000_000_000,
    ;
    let ru = p.profit().units as int;
    let (m1, m2, m3) = (ps * pq, pc * pq, pt * pq);
    if iu != 0 {
        assert(iu * y != 0) by (nonlinear_arith)
            requires
                iu != 0,
                y >= 1,
        ;
        assert(ru * iu * m3 == iu * y * ru * m2) by (nonlinear_arith)
            requires
                y * pc == pt,
                m2 == pc * pq,
                m3 == pt * pq,
        ;
        assert(x * m1 == m3) by (nonlinear_arith)
            requires
                x * ps == pt,
                m1 == ps * pq,
                m3 == pt * pq,
        ;
        assert(y * m2 == m3) by (nonlinear_arith)
            requires
                y * pc == pt,
                m2 == pc * pq,
                m3 == pt * pq,
        ;
        assert(pu * x * iu * m1 == pu * iu * (x * m1)) by (nonlinear_arith);
        assert(iu * y * pu * m2 == pu * iu * (y * m2)) by (nonlinear_arith);
    }
}

proof fn bound_product(a: int, b: int)
    requires
        -100_000_000_000_000 < a < 100_000_000_000_000,
        -100_000_000_000_000 < b < 100_000_000_000_000,
    ensures
        -10_000_000_000_000_000_000_000_000_000 < a * b < 10_000_000_000_000_000_000_000_000_000,
{
    assert(-10_000_000_000_000_000_000_000_000_000 < a * b < 10_000_000_000_000_000_000_000_000_000)
        by (nonlinear_arith)
        requires
            -100_000_000_000_000 < a < 100_000_000_000_000,
            -100_000_000_000_000 < b < 100_000_000_000_000,
    ;
}

/// Profit is exactly proceeds minus invested capital.
pub proof fn profit_is_proceeds_minus_invested(p: PositionView)
    requires
        p.wf(),
    ensures
        is_difference(p.profit(), p.proceeds(), p.invested()),
{
    let (s, c, q) = (p.sale_price, p.cost_per_share, p.quantity);
    let top = max_scale(c.scale, s.scale);
    let x = pow10((top - s.scale) as nat);
    let y = pow10((top - c.scale) as nat);
    let (ps, pc, pt, pq) = (
        pow10(s.scale as nat),
        pow10(c.scale as nat),
        pow10(top as nat),
        pow10(q.scale as nat),
    );
    lemma_pow10_add((top - s.scale) as nat, s.scale as nat);
    lemma_pow10_add((top - c.scale) as nat, c.scale as nat);
    lemma_pow10_add(s.scale as nat, q.scale as nat);
    lemma_pow10_add(c.scale as nat, q.scale as nat);
    lemma_pow10_add(top as nat, q.scale as nat);
    let (su, cu, qu) = (s.units as int, c.units as int, q.units as int);
    lemma_profit_bounds(p);
    bound_product(su, qu);
    bound_product(cu, qu);
    assert(p.proceeds().units == su * qu);
    assert(p.invested().units == cu * qu);
    assert(x * ps == pt);
    assert(y * pc == pt);
    assert(p.profit().units == (su * x - cu * y) * qu);
    let (m1, m2, m3) = (ps * pq, pc * pq, pt * pq);
    assert(su * x * qu * m1 * m2 == su * qu * m2 * m3) by (nonlinear_arith)
        requires
            x * ps == pt,
            m1 == ps * pq,
            m3 == pt * pq,
    ;
    assert(cu * y * qu * m1 * m2 == cu * qu * m1 * m3) by (nonlinear_arith)
        requires
            y * pc == pt,
            m2 == pc * pq,
            m3 == pt * pq,
    ;
    assert((su * x - cu * y) * qu * m1 * m2 == su * x * qu * m1 * m2 - cu * y * qu * m1 * m2)
        by (nonlinear_arith);
    assert((su * qu * m2 - cu * qu * m1) * m3 == su * qu * m2 * m3 - cu * qu * m1 * m3)
        by (nonlinear_arith);
}

proof fn lemma_profit_bounds(p: PositionView)
    requires
        p.wf(),
    ensures
        -100_000_000_000_000_000_000_000_000_000_000_000_000 < (p.sale_price.units * pow10(
            (max_scale(p.cost_per_share.scale, p.sale_price.scale) - p.sale_price.scale) as nat,
        ) - p.cost_per_share.units * pow10(
            (max_scale(p.cost_per_share.scale, p.sale_price.scale) - p.cost_per_share.scale) as nat,
        )) * p.quantity.units < 100_000_000_000_000_000_000_000_000_000_000_000_000,
{
    let top = max_scale(p.cost_per_share.scale, p.sale_price.scale);
    let x = pow10((top - p.sale_price.scale) as nat);
    let y = pow10((top - p.cost_per_share.scale) as nat);
    lemma_pow10_mono((top - p.sale_price.scale) as nat, 9);
    lemma_pow10_mono((top - p.cost_per_share.scale) as nat, 9);
    lemma_pow10_facts((top - p.sale_price.scale) as nat);
    lemma_pow10_facts((top - p.cost_per_share.scale) as nat);
    reveal_with_fuel(pow10, 10);
    let (su, cu, qu) = (
        p.sale_price.units as int,
        p.cost_per_share.units as int,
        p.quantity.units as int,
    );
    assert(-100_000_000_000_000_000_000_000 < su * x < 100_000_000_000_000_000_000_000)
        by (nonlinear_arith)
        requires
            -100_000_000_000_000 < su < 100_000_000_000_000,
            1 <= x <= 1_000_000_000,
    ;
    assert(-100_000_000_000_000_000_000_000 < cu * y < 100_000_000_000_000_000_000_000)
        by (nonlinear_arith)
        requires
            -100_000_000_000_000 < cu < 100_000_000_000_000,
            1 <= y <= 1_000_000_000,
    ;
    let d = su * x - cu * y;
    assert(-100_000_000_000_000_000_000_000_000_000_000_000_000 < d * qu
        < 100_000_000_000_000_000_000_000_000_000_000_000_000) by (nonlinear_arith)
        requires
            -200_000_000_000_000_000_000_000 < d < 200_000_000_000_000_000_000_000,
            -100_000_000_000_000 < qu < 100_000_000_000_000,
    ;
}

/// A ticker as entered: trimmed and upper-cased; `None` when blank.
pub open spec fn ticker_of(raw: Seq<char>) -> Option<Seq<char>> {
    if trim(raw).len() == 0 {
        None
    } else {
        Some(upper(trim(raw)))
    }
}

/// Trims and upper-cases a ticker; fails on a blank one.
pub fn parse_ticker(raw: &str) -> (r: Result<String, String>)
    ensures
        r matches Ok(t) ==> ticker_of(raw@) == Some(t@),
        r matches Err(e) ==> ticker_of(raw@) is None && e@ == "Ticker cannot be empty"@,
        r is Ok <==> ticker_of(raw@) is Some,
{
    let v = chars_of(raw);
    let t = trimmed(&v);
    if t.len() == 0 {
        return Err("Ticker cannot be empty".to_owned());
    }
    let u = to_upper(&t);
    Ok(string_of(&u))
}

} // verus!
