//! Exact decimal values and the numeric field format of statements:
//! an optional sign, digits with at most one decimal point, after the
//! currency sign, thousands separators and spaces have been removed.
use crate::text::{chars_of, digit_char, eq_lit, nat_text, push_numeral, string_of, trim, trimmed};
use vstd::prelude::*;

verus! {

/// Exclusive bound on the digits of a parsed value, read as one integer; with
/// `MAX_SCALE` it keeps a trade's profit (two such values times a third,
/// aligned to a common scale) below 2 * 10^37, inside `i128`.
pub const MAX_UNITS: i64 = 100_000_000_000_000;

/// Largest number of digits after the decimal point.
pub const MAX_SCALE: u32 = 9;

/// The value `units / 10^scale`.
#[derive(Clone, Copy, Debug, PartialEq, Eq, Structural)]
pub struct Decimal {
    pub units: i64,
    pub scale: u32,
}

impl Decimal {
    /// Within the bounds that every parsed value meets.
    pub open spec fn wf(self) -> bool {
        -MAX_UNITS < self.units < MAX_UNITS && self.scale <= MAX_SCALE
    }
}

/// Ten to the power `k`.
pub open spec fn pow10(k: nat) -> int
    decreases k,
{
    if k == 0 {
        1
    } else {
        10 * pow10((k - 1) as nat)
    }
}

/// `d` written with at least `k` digits after the point.
pub open spec fn widened(d: Decimal, k: u32) -> Decimal {
    if d.scale >= k {
        d
    } else {
        Decimal { units: (d.units * pow10((k - d.scale) as nat)) as i64, scale: k }
    }
}

/// What a raw numeric field holds.
#[derive(Clone, Copy, Debug, PartialEq, Eq, Structural)]
pub enum NumberField {
    /// Blank, or the placeholder `--`.
    Missing,
    /// Present but not a number.
    Invalid,
    Value(Decimal),
}

pub open spec fn is_digit(c: char) -> bool {
    '0' <= c && c <= '9'
}

pub open spec fn digit_value(c: char) -> int {
    c as int - '0' as int
}

/// The digits of `s` read as one integer, other characters ignored.
pub open spec fn mantissa(s: Seq<char>) -> int
    decreases s.len(),
{
    if s.len() == 0 {
        0
    } else if is_digit(s.last()) {
        mantissa(s.drop_last()) * 10 + digit_value(s.last())
    } else {
        mantissa(s.drop_last())
    }
}

pub open spec fn count_dots(s: Seq<char>) -> int
    decreases s.len(),
{
    if s.len() == 0 {
        0
    } else {
        count_dots(s.drop_last()) + if s.last() == '.' { 1int } else { 0int }
    }
}

pub open spec fn count_digits(s: Seq<char>) -> int
    decreases s.len(),
{
    if s.len() == 0 {
        0
    } else {
        count_digits(s.drop_last()) + if is_digit(s.last()) { 1int } else { 0int }
    }
}

/// Number of digits that follow a decimal point.
pub open spec fn frac_len(s: Seq<char>) -> int
    decreases s.len(),
{
    if s.len() == 0 {
        0
    } else if is_digit(s.last()) && count_dots(s.drop_last()) > 0 {
        frac_len(s.drop_last()) + 1
    } else {
        frac_len(s.drop_last())
    }
}

pub open spec fn has_sign(s: Seq<char>) -> bool {
    s.len() > 0 && (s[0] == '+' || s[0] == '-')
}

pub open spec fn unsigned_part(s: Seq<char>) -> Seq<char> {
    if has_sign(s) {
        s.drop_first()
    } else {
        s
    }
}

pub open spec fn is_exponent_marker(c: char) -> bool {
    c == 'e' || c == 'E'
}

/// The index of the first `e` or `E` in `b`, or its length.
pub open spec fn marker_index(b: Seq<char>) -> int
    decreases b.len(),
{
    if b.len() == 0 {
        0
    } else {
        let i = marker_index(b.drop_last());
        if i < b.len() - 1 {
            i
        } else if is_exponent_marker(b.last()) {
            b.len() - 1
        } else {
            b.len() as int
        }
    }
}

/// Digits with at most one decimal point, and at least one digit.
pub open spec fn plain_ok(m: Seq<char>) -> bool {
    &&& forall|i: int| 0 <= i < m.len() ==> is_digit(#[trigger] m[i]) || m[i] == '.'
    &&& count_dots(m) <= 1
    &&& count_digits(m) >= 1
}

/// Exclusive bound on the magnitude of an exponent.
pub const MAX_EXPONENT: i64 = 10000;

/// The text after an exponent marker: an optional sign and digits.
pub open spec fn exponent_of(x: Seq<char>) -> Option<int> {
    let d = unsigned_part(x);
    if d.len() >= 1 && (forall|i: int| 0 <= i < d.len() ==> is_digit(#[trigger] d[i]))
        && mantissa(d) < MAX_EXPONENT {
        Some(
            if x.len() > 0 && x[0] == '-' {
                -mantissa(d)
            } else {
                mantissa(d)
            },
        )
    } else {
        None
    }
}

pub open spec fn signed(negative: bool, u: int) -> i64 {
    (if negative {
        -u
    } else {
        u
    }) as i64
}

/// `s` read as a decimal literal, `digits[.digits][e[sign]digits]` after an
/// optional sign, when its value fits the bounds.
pub open spec fn decimal_of(s: Seq<char>) -> Option<Decimal> {
    let b = unsigned_part(s);
    let p = marker_index(b);
    let m = b.subrange(0, p);
    let neg = s.len() > 0 && s[0] == '-';
    let e = if p < b.len() {
        exponent_of(b.subrange(p + 1, b.len() as int))
    } else {
        Some(0int)
    };
    match e {
        None => None,
        Some(e) => combine(neg, m, e),
    }
}

/// The value of mantissa text `m` times `10^e`, negated when `negative`,
/// when `m` is well formed and the value fits the bounds.
pub open spec fn combine(negative: bool, m: Seq<char>, e: int) -> Option<Decimal> {
    let sc = frac_len(m) - e;
    if !plain_ok(m) || mantissa(m) >= MAX_UNITS {
        None
    } else if 0 <= sc <= MAX_SCALE {
        Some(Decimal { units: signed(negative, mantissa(m)), scale: sc as u32 })
    } else if sc < 0 && mantissa(m) * pow10((-sc) as nat) < MAX_UNITS {
        Some(Decimal { units: signed(negative, mantissa(m) * pow10((-sc) as nat)), scale: 0 })
    } else {
        None
    }
}

pub open spec fn is_separator(c: char) -> bool {
    c == ',' || c == '$' || c == ' '
}

/// `s` without commas, dollar signs and spaces.
pub open spec fn strip_separators(s: Seq<char>) -> Seq<char>
    decreases s.len(),
{
    if s.len() == 0 {
        s
    } else if is_separator(s.last()) {
        strip_separators(s.drop_last())
    } else {
        strip_separators(s.drop_last()).push(s.last())
    }
}

/// Blank or the `--` placeholder, once trimmed.
pub open spec fn is_missing(raw: Seq<char>) -> bool {
    trim(raw).len() == 0 || trim(raw) == "--"@
}

/// The meaning of a raw numeric field.
pub open spec fn number_field(raw: Seq<char>) -> NumberField {
    if is_missing(raw) {
        NumberField::Missing
    } else {
        match decimal_of(strip_separators(trim(raw))) {
            Some(d) => NumberField::Value(d),
            None => NumberField::Invalid,
        }
    }
}

/// The last `w` decimal digits of `n`, with leading zeros.
pub open spec fn low_digits(n: nat, w: nat) -> Seq<char>
    decreases w,
{
    if w == 0 {
        Seq::empty()
    } else {
        low_digits(n / 10, (w - 1) as nat).push(digit_char(n % 10))
    }
}

/// `n` without its last `w` decimal digits.
pub open spec fn high_part(n: nat, w: nat) -> nat
    decreases w,
{
    if w == 0 {
        n
    } else {
        high_part(n / 10, (w - 1) as nat)
    }
}

/// The plain decimal text of `d`: sign, integer digits, and exactly `scale`
/// digits after the point.
pub open spec fn decimal_text(d: Decimal) -> Seq<char> {
    let mag = (if d.units < 0 {
        -d.units
    } else {
        d.units as int
    }) as nat;
    let sign = if d.units < 0 {
        seq!['-']
    } else {
        Seq::empty()
    };
    let frac = if d.scale == 0 {
        Seq::empty()
    } else {
        seq!['.'] + low_digits(mag, d.scale as nat)
    };
    sign + nat_text(high_part(mag, d.scale as nat)) + frac
}

fn push_low_digits(v: &mut Vec<char>, n: u64, w: u32)
    ensures
        final(v)@ == old(v)@ + low_digits(n as nat, w as nat),
    decreases w,
{
    if w > 0 {
        push_low_digits(v, n / 10, w - 1);
        v.push(((n % 10) as u8 + 48u8) as char);
    }
    assert(v@ =~= old(v)@ + low_digits(n as nat, w as nat));
}

fn high_part_exec(n: u64, w: u32) -> (r: u64)
    ensures
        r == high_part(n as nat, w as nat),
    decreases w,
{
    if w == 0 {
        n
    } else {
        high_part_exec(n / 10, w - 1)
    }
}

impl Decimal {
    /// The same value with at least `k` digits after the point.
    pub fn widen(&self, k: u32) -> (r: Decimal)
        requires
            self.wf(),
            k <= 4,
        ensures
            r == widened(*self, k),
            r.units > i64::MIN,
    {
        if self.scale >= k {
            return *self;
        }
        let diff = k - self.scale;
        let f: i64 = if diff == 1 {
            10
        } else if diff == 2 {
            100
        } else if diff == 3 {
            1000
        } else {
            10000
        };
        proof {
            reveal_with_fuel(pow10, 5);
            assert(f == pow10(diff as nat));
            let u = self.units as int;
            assert(-1_000_000_000_000_000_000 < u * f < 1_000_000_000_000_000_000) by (nonlinear_arith)
                requires
                    -100_000_000_000_000 < u < 100_000_000_000_000,
                    1 <= f <= 10000,
            ;
        }
        Decimal { units: self.units * f, scale: k }
    }

    /// The plain decimal text of the value, exact to its scale.
    pub fn to_text(&self) -> (r: String)
        requires
            self.units > i64::MIN,
        ensures
            r@ == decimal_text(*self),
    {
        let mut v: Vec<char> = Vec::new();
        if self.units < 0 {
            v.push('-');
        }
        let mag: u64 = if self.units < 0 {
            (-self.units) as u64
        } else {
            self.units as u64
        };
        push_numeral(&mut v, high_part_exec(mag, self.scale) as u128);
        if self.scale > 0 {
            v.push('.');
            push_low_digits(&mut v, mag, self.scale);
        }
        assert(v@ =~= decimal_text(*self));
        string_of(&v)
    }
}

pub(crate) proof fn lemma_pow10_facts(k: nat)
    ensures
        pow10(k) >= 1,
    decreases k,
{
    if k > 0 {
        lemma_pow10_facts((k - 1) as nat);
    }
}

pub(crate) proof fn lemma_pow10_add(a: nat, b: nat)
    ensures
        pow10(a + b) == pow10(a) * pow10(b),
    decreases a,
{
    if a > 0 {
        lemma_pow10_add((a - 1) as nat, b);
        assert(pow10(a + b) == 10 * pow10((a - 1 + b) as nat));
        assert(10 * (pow10((a - 1) as nat) * pow10(b)) == (10 * pow10((a - 1) as nat)) * pow10(b))
            by (nonlinear_arith);
    }
}

pub(crate) proof fn lemma_pow10_mono(a: nat, b: nat)
    requires
        a <= b,
    ensures
        pow10(a) <= pow10(b),
    decreases b,
{
    if a < b {
        lemma_pow10_mono(a, (b - 1) as nat);
        lemma_pow10_facts((b - 1) as nat);
    }
}

proof fn lemma_mantissa_nonneg(s: Seq<char>)
    ensures
        mantissa(s) >= 0,
    decreases s.len(),
{
    if s.len() > 0 {
        lemma_mantissa_nonneg(s.drop_last());
    }
}

proof fn lemma_counts_nonneg(s: Seq<char>)
    ensures
        count_dots(s) >= 0,
        count_digits(s) >= 0,
        frac_len(s) >= 0,
        frac_len(s) <= s.len(),
    decreases s.len(),
{
    if s.len() > 0 {
        lemma_counts_nonneg(s.drop_last());
    }
}

/// Whether `raw` is blank or the `--` placeholder once trimmed.
pub fn is_missing_exec(raw: &Vec<char>) -> (r: bool)
    ensures
        r == is_missing(raw@),
{
    let t = trimmed(raw);
    t.len() == 0 || eq_lit(&t, "--")
}

/// `v` without commas, dollar signs and spaces.
pub fn strip_separators_exec(v: &Vec<char>) -> (r: Vec<char>)
    ensures
        r@ == strip_separators(v@),
{
    let mut r: Vec<char> = Vec::new();
    let mut i: usize = 0;
    while i < v.len()
        invariant
            i <= v@.len(),
            r@ == strip_separators(v@.subrange(0, i as int)),
        decreases v@.len() - i,
    {
        let c = v[i];
        assert(v@.subrange(0, i + 1).drop_last() =~= v@.subrange(0, i as int));
        if !(c == ',' || c == '$' || c == ' ') {
            r.push(c);
        }
        i += 1;
    }
    assert(v@.subrange(0, i as int) =~= v@);
    r
}

/// What a scan of `m` finds: its digits read as one integer (capped at
/// `MAX_UNITS`), its points, digits and fraction digits, and whether it holds
/// nothing but digits and points.
pub open spec fn scan_model(m: Seq<char>) -> (int, int, int, int, bool) {
    (
        if mantissa(m) < MAX_UNITS {
            mantissa(m)
        } else {
            MAX_UNITS as int
        },
        count_dots(m),
        count_digits(m),
        frac_len(m),
        forall|i: int| 0 <= i < m.len() ==> is_digit(#[trigger] m[i]) || m[i] == '.',
    )
}

fn scan_mantissa(s: &Vec<char>, lo: usize, hi: usize) -> (r: (i64, usize, usize, usize, bool))
    requires
        lo <= hi <= s@.len(),
    ensures
        (r.0 as int, r.1 as int, r.2 as int, r.3 as int, r.4) == scan_model(
            s@.subrange(lo as int, hi as int),
        ),
        0 <= r.0 <= MAX_UNITS,
{
    let mut units: i64 = 0;
    let mut dots: usize = 0;
    let mut digits: usize = 0;
    let mut frac: usize = 0;
    let mut chars_ok = true;
    let mut i: usize = lo;
    while i < hi
        invariant
            lo <= i <= hi <= s@.len(),
            0 <= units <= MAX_UNITS,
            units == if mantissa(s@.subrange(lo as int, i as int)) < MAX_UNITS {
                mantissa(s@.subrange(lo as int, i as int))
            } else {
                MAX_UNITS as int
            },
            dots == count_dots(s@.subrange(lo as int, i as int)),
            digits == count_digits(s@.subrange(lo as int, i as int)),
            frac == frac_len(s@.subrange(lo as int, i as int)),
            dots <= i,
            digits <= i,
            frac <= i,
            chars_ok == forall|j: int| lo <= j < i ==> is_digit(#[trigger] s@[j]) || s@[j] == '.',
        decreases hi - i,
    {
        let c = s[i];
        let ghost prev = s@.subrange(lo as int, i as int);
        let ghost next = s@.subrange(lo as int, i + 1);
        assert(next.drop_last() =~= prev);
        assert(next.last() == c);
        proof {
            lemma_mantissa_nonneg(prev);
            lemma_counts_nonneg(prev);
        }
        if '0' <= c && c <= '9' {
            let d = (c as u32 - '0' as u32) as i64;
            if units < MAX_UNITS {
                let grown = units * 10 + d;
                units = if grown < MAX_UNITS { grown } else { MAX_UNITS };
            }
            if dots > 0 {
                frac += 1;
            }
            digits += 1;
        } else if c == '.' {
            dots += 1;
        } else {
            chars_ok = false;
        }
        i += 1;
    }
    let ghost m = s@.subrange(lo as int, hi as int);
    assert(chars_ok == forall|j: int| 0 <= j < m.len() ==> is_digit(#[trigger] m[j]) || m[j] == '.')
        by {
        if chars_ok {
            assert forall|j: int| 0 <= j < m.len() implies is_digit(#[trigger] m[j]) || m[j] == '.' by {
                assert(m[j] == s@[lo + j]);
            }
        } else {
            let j = choose|j: int| lo <= j < hi && !(is_digit(#[trigger] s@[j]) || s@[j] == '.');
            assert(m[j - lo] == s@[j]);
        }
    }
    (units, dots, digits, frac, chars_ok)
}

/// Reads the exponent `s[lo..hi]`: an optional sign and digits.
fn scan_exponent(s: &Vec<char>, lo: usize, hi: usize) -> (r: Option<i64>)
    requires
        lo <= hi <= s@.len(),
    ensures
        r == match exponent_of(s@.subrange(lo as int, hi as int)) {
            Some(e) => Some(e as i64),
            None => None::<i64>,
        },
        r matches Some(e) ==> -MAX_EXPONENT < e < MAX_EXPONENT,
        exponent_of(s@.subrange(lo as int, hi as int)) matches Some(v) ==> -MAX_EXPONENT < v
            < MAX_EXPONENT,
{
    let ghost x = s@.subrange(lo as int, hi as int);
    let signed = hi > lo && (s[lo] == '+' || s[lo] == '-');
    let negative = hi > lo && s[lo] == '-';
    let start: usize = if signed { lo + 1 } else { lo };
    let ghost d = unsigned_part(x);
    assert(d =~= s@.subrange(start as int, hi as int));
    let mut value: i64 = 0;
    let mut all_digits = true;
    let mut i: usize = start;
    while i < hi
        invariant
            start <= i <= hi <= s@.len(),
            0 <= value <= MAX_EXPONENT,
            value == if mantissa(s@.subrange(start as int, i as int)) < MAX_EXPONENT {
                mantissa(s@.subrange(start as int, i as int))
            } else {
                MAX_EXPONENT as int
            },
            all_digits == forall|j: int| start <= j < i ==> is_digit(#[trigger] s@[j]),
        decreases hi - i,
    {
        let c = s[i];
        let ghost prev = s@.subrange(start as int, i as int);
        assert(s@.subrange(start as int, i + 1).drop_last() =~= prev);
        proof {
            lemma_mantissa_nonneg(prev);
        }
        if '0' <= c && c <= '9' {
            let grown = value * 10 + (c as u32 - '0' as u32) as i64;
            value = if grown < MAX_EXPONENT { grown } else { MAX_EXPONENT };
        } else {
            all_digits = false;
        }
        i += 1;
    }
    proof {
        lemma_mantissa_nonneg(d);
    }
    assert(all_digits == forall|j: int| 0 <= j < d.len() ==> is_digit(#[trigger] d[j])) by {
        if all_digits {
            assert forall|j: int| 0 <= j < d.len() implies is_digit(#[trigger] d[j]) by {
                assert(d[j] == s@[start + j]);
            }
        } else {
            let j = choose|j: int| start <= j < hi && !is_digit(#[trigger] s@[j]);
            assert(d[j - start] == s@[j]);
        }
    }
    if hi > start && all_digits && value < MAX_EXPONENT {
        Some(if negative { -value } else { value })
    } else {
        None
    }
}

/// `u * 10^k` when it stays below `MAX_UNITS`.
fn scale_up(u: i64, k: i64) -> (r: Option<i64>)
    requires
        0 <= u < MAX_UNITS,
        k >= 0,
    ensures
        r == if u * pow10(k as nat) < MAX_UNITS {
            Some((u * pow10(k as nat)) as i64)
        } else {
            None::<i64>
        },
        r matches Some(v) ==> 0 <= v < MAX_UNITS,
{
    let mut acc: i64 = u;
    let mut j: i64 = 0;
    while j < k
        invariant
            0 <= j <= k,
            0 <= acc < MAX_UNITS,
            acc == u * pow10(j as nat),
        decreases k - j,
    {
        proof {
            assert(pow10((j + 1) as nat) == 10 * pow10(j as nat));
            assert(u * pow10((j + 1) as nat) == acc * 10) by (nonlinear_arith)
                requires
                    pow10((j + 1) as nat) == 10 * pow10(j as nat),
                    acc == u * pow10(j as nat),
            ;
        }
        if acc * 10 >= MAX_UNITS {
            proof {
                lemma_pow10_add((j + 1) as nat, (k - j - 1) as nat);
                lemma_pow10_facts((k - j - 1) as nat);
                let rest = pow10((k - j - 1) as nat);
                assert(u * pow10(k as nat) == acc * 10 * rest) by (nonlinear_arith)
                    requires
                        pow10(k as nat) == pow10((j + 1) as nat) * rest,
                        u * pow10((j + 1) as nat) == acc * 10,
                ;
                assert(acc * 10 * rest >= acc * 10) by (nonlinear_arith)
                    requires
                        rest >= 1,
                        acc >= 0,
                ;
            }
            return None;
        }
        acc = acc * 10;
        j += 1;
    }
    Some(acc)
}

proof fn lemma_marker_index(b: Seq<char>, q: int)
    requires
        0 <= q <= b.len(),
        forall|j: int| 0 <= j < q ==> !is_exponent_marker(#[trigger] b[j]),
        q < b.len() ==> is_exponent_marker(b[q]),
    ensures
        marker_index(b) == q,
    decreases b.len(),
{
    if b.len() > 0 {
        let c = b.drop_last();
        if q < b.len() - 1 {
            lemma_marker_index(c, q);
        } else {
            assert forall|j: int| 0 <= j < c.len() implies !is_exponent_marker(#[trigger] c[j]) by {
                assert(c[j] == b[j]);
            }
            lemma_marker_index(c, c.len() as int);
        }
    }
}

/// Reads a decimal literal; `None` where `s` is not one or exceeds the bounds.
pub fn decimal_of_exec(s: &Vec<char>) -> (r: Option<Decimal>)
    ensures
        r == decimal_of(s@),
        r matches Some(d) ==> d.wf(),
{
    let n = s.len();
    let has_sign = n > 0 && (s[0] == '+' || s[0] == '-');
    let negative = n > 0 && s[0] == '-';
    let start: usize = if has_sign { 1 } else { 0 };
    let ghost b = unsigned_part(s@);
    assert(b =~= s@.subrange(start as int, n as int));
    let mut p: usize = start;
    while p < n && s[p] != 'e' && s[p] != 'E'
        invariant
            start <= p <= n == s@.len(),
            forall|j: int| start <= j < p ==> !is_exponent_marker(#[trigger] s@[j]),
        decreases n - p,
    {
        p += 1;
    }
    proof {
        assert forall|j: int| 0 <= j < p - start implies !is_exponent_marker(#[trigger] b[j]) by {
            assert(b[j] == s@[start + j]);
        }
        lemma_marker_index(b, p - start);
    }
    let ghost m = b.subrange(0, p - start);
    assert(m =~= s@.subrange(start as int, p as int));
    let mut e: i64 = 0;
    if p < n {
        assert(b.subrange(p - start + 1, b.len() as int) =~= s@.subrange(p + 1, n as int));
        let ghost xs = s@.subrange(p + 1, n as int);
        match scan_exponent(s, p + 1, n) {
            Some(x) => e = x,
            None => return None,
        }
        assert(exponent_of(xs) == Some(e as int));
        assert(decimal_of(s@) == combine(negative, m, e as int));
    } else {
        assert(decimal_of(s@) == combine(negative, m, 0));
    }
    let (units, dots, digits, frac, chars_ok) = scan_mantissa(s, start, p);
    let r = combine_exec(negative, units, dots, digits, frac, chars_ok, e, Ghost(m));
    r
}

fn combine_exec(
    negative: bool,
    units: i64,
    dots: usize,
    digits: usize,
    frac: usize,
    chars_ok: bool,
    e: i64,
    m: Ghost<Seq<char>>,
) -> (r: Option<Decimal>)
    requires
        (units as int, dots as int, digits as int, frac as int, chars_ok) == scan_model(m@),
        0 <= units <= MAX_UNITS,
        -MAX_EXPONENT < e < MAX_EXPONENT,
    ensures
        r == combine(negative, m@, e as int),
        r matches Some(d) ==> d.wf(),
{
    proof {
        lemma_mantissa_nonneg(m@);
        lemma_counts_nonneg(m@);
    }
    if !(chars_ok && dots <= 1 && digits >= 1 && units < MAX_UNITS) {
        return None;
    }
    assert(plain_ok(m@));
    assert(units == mantissa(m@));
    if frac > 20000 {
        return None;
    }
    let sc: i64 = frac as i64 - e;
    assert(sc == frac_len(m@) - e);
    if sc < 0 {
        proof {
            lemma_pow10_facts((-sc) as nat);
        }
    }
    if 0 <= sc && sc <= MAX_SCALE as i64 {
        Some(Decimal { units: if negative { -units } else { units }, scale: sc as u32 })
    } else if sc > MAX_SCALE as i64 {
        None
    } else {
        match scale_up(units, -sc) {
            Some(u2) => Some(Decimal { units: if negative { -u2 } else { u2 }, scale: 0 }),
            None => None,
        }
    }
}

/// Classifies a raw numeric field as missing, invalid or a value.
pub fn number_field_of(raw: &Vec<char>) -> (r: NumberField)
    ensures
        r == number_field(raw@),
        r matches NumberField::Value(d) ==> d.wf(),
{
    if is_missing_exec(raw) {
        return NumberField::Missing;
    }
    let t = trimmed(raw);
    let cleaned = strip_separators_exec(&t);
    match decimal_of_exec(&cleaned) {
        Some(d) => NumberField::Value(d),
        None => NumberField::Invalid,
    }
}

/// The number in a raw field; `None` where it is missing or not a number.
///
/// After trimming and removing commas, dollar signs and spaces, a number is
/// `[+-]digits[.digits][(e|E)[+-]digits]`, the exponent folded into the
/// scale. Values are kept exact, within two limits that keep a trade's
/// profit and ratios inside 128-bit arithmetic: the digits, once the exponent
/// is applied, read below 10^14 as one integer, with at most 9 of them after
/// the point. An exponent of 10000 or more in magnitude, `inf` and `NaN` are
/// not numbers here.
pub fn parse_number(raw: &str) -> (r: Option<Decimal>)
    ensures
        r == match number_field(raw@) {
            NumberField::Value(d) => Some(d),
            _ => None,
        },
        r matches Some(d) ==> d.wf(),
{
    let v = chars_of(raw);
    match number_field_of(&v) {
        NumberField::Value(d) => Some(d),
        _ => None,
    }
}

} // verus!
