//! Laws of statement import, proved over the fold of `statement`.
use crate::decimal::is_missing;
use crate::header::{
    cell_role, date_columns, detect_header, is_ascii_alnum, last_with_role, role_of, sanitize, Role,
};
use crate::position::Position;
use crate::statement::{
    cell, is_context_ticker, lemma_fold_fault_persists, is_section_marker, is_total_row, outcome_of, parse_fold, row_step,
    statement_outcome, ImportError, Outcome, ParseState, RowFault,
};
use crate::text::{is_space, lower, lower_char, trim, trim_end, trim_start};
use vstd::prelude::*;

verus! {

/// Each cell is the same in both rows, or both are recognised column names
/// of the same role.
pub open spec fn synonym_variants(a: Seq<Seq<char>>, b: Seq<Seq<char>>) -> bool {
    a.len() == b.len() && forall|i: int|
        0 <= i < a.len() ==> a[i] == b[i] || (cell_role(a, i) is Some && cell_role(a, i)
            == cell_role(b, i))
}

/// The blank cell, a single space, or the `--` placeholder.
pub open spec fn is_blank_sentinel(c: Seq<char>) -> bool {
    c == Seq::<char>::empty() || c == seq![' '] || c == seq!['-', '-']
}

/// The rows are the same but for row `k`.
pub open spec fn differ_only_at(rows1: Seq<Seq<Seq<char>>>, rows2: Seq<Seq<Seq<char>>>, k: int) -> bool {
    rows1.len() == rows2.len() && 0 <= k < rows1.len() && forall|i: int|
        0 <= i < rows1.len() && i != k ==> rows1[i] == rows2[i]
}

proof fn lemma_roles_decide_header(a: Seq<Seq<char>>, b: Seq<Seq<char>>)
    requires
        a.len() == b.len(),
        forall|i: int| 0 <= i < a.len() ==> cell_role(a, i) == cell_role(b, i),
    ensures
        detect_header(a) == detect_header(b),
{
    assert forall|role: Role, n: int| 0 <= n <= a.len() implies last_with_role(a, role, n)
        == last_with_role(b, role, n) by {
        lemma_last_with_role_same(a, b, role, n);
    }
    lemma_date_columns_same(a, b, a.len() as int);
}

proof fn lemma_last_with_role_same(a: Seq<Seq<char>>, b: Seq<Seq<char>>, role: Role, n: int)
    requires
        0 <= n <= a.len() == b.len(),
        forall|i: int| 0 <= i < a.len() ==> cell_role(a, i) == cell_role(b, i),
    ensures
        last_with_role(a, role, n) == last_with_role(b, role, n),
    decreases n,
{
    if n > 0 {
        lemma_last_with_role_same(a, b, role, n - 1);
    }
}

proof fn lemma_date_columns_same(a: Seq<Seq<char>>, b: Seq<Seq<char>>, n: int)
    requires
        0 <= n <= a.len() == b.len(),
        forall|i: int| 0 <= i < a.len() ==> cell_role(a, i) == cell_role(b, i),
    ensures
        date_columns(a, n) == date_columns(b, n),
    decreases n,
{
    if n > 0 {
        lemma_date_columns_same(a, b, n - 1);
    }
}

/// Rows that differ only at `k`, read the same way there from the state the
/// fold reaches, give the same fold.
proof fn lemma_fold_replace(
    rows1: Seq<Seq<Seq<char>>>,
    rows2: Seq<Seq<Seq<char>>>,
    k: int,
    n: int,
    fallback: bool,
)
    requires
        differ_only_at(rows1, rows2, k),
        0 <= n <= rows1.len(),
        parse_fold(rows1, k, fallback) matches Ok(st) ==> row_step(st, rows1[k], fallback)
            == row_step(st, rows2[k], fallback),
    ensures
        parse_fold(rows1, n, fallback) == parse_fold(rows2, n, fallback),
    decreases n,
{
    if n > 0 {
        lemma_fold_replace(rows1, rows2, k, n - 1, fallback);
    }
}

proof fn lemma_header_seen_persists(rows: Seq<Seq<Seq<char>>>, k: int, n: int)
    requires
        0 <= k <= n <= rows.len(),
        parse_fold(rows, k, false) matches Ok(s) && s.header_seen,
    ensures
        parse_fold(rows, n, false) matches Ok(s) ==> s.header_seen,
    decreases n - k,
{
    if n > k {
        lemma_header_seen_persists(rows, k, n - 1);
    }
}

/// A header row may name each column by any of the recognised names of its
/// role: with the rest of the input the same, the import comes out the same.
pub proof fn header_synonyms_are_equivalent(
    rows1: Seq<Seq<Seq<char>>>,
    rows2: Seq<Seq<Seq<char>>>,
    k: int,
    reader_error: Option<Seq<char>>,
)
    requires
        differ_only_at(rows1, rows2, k),
        synonym_variants(rows1[k], rows2[k]),
        detect_header(rows1[k]) is Some,
        !is_section_marker(rows1[k]),
        !is_section_marker(rows2[k]),
        parse_fold(rows1, k, false) matches Ok(st) ==> st.header is None,
    ensures
        statement_outcome(rows1, reader_error) == statement_outcome(rows2, reader_error),
{
    let (a, b) = (rows1[k], rows2[k]);
    assert forall|i: int| 0 <= i < a.len() implies cell_role(a, i) == cell_role(b, i) by {
        if a[i] == b[i] {
        }
    }
    lemma_roles_decide_header(a, b);
    if a.len() > 0 && a[0] != b[0] {
        if lower(trim(a[0])) == "total"@ || lower(trim(a[0])) == "subtotal"@ {
            lemma_total_cell_has_no_role(a[0]);
        }
        if lower(trim(b[0])) == "total"@ || lower(trim(b[0])) == "subtotal"@ {
            lemma_total_cell_has_no_role(b[0]);
        }
    }
    assert(is_total_row(a) == is_total_row(b));
    let n = rows1.len() as int;
    lemma_fold_replace(rows1, rows2, k, n, false);
    if is_total_row(a) {
        lemma_fold_replace(rows1, rows2, k, n, true);
    } else {
        lemma_fold_replace(rows1, rows2, k, k + 1, false);
        if parse_fold(rows1, k + 1, false) is Ok {
            lemma_header_seen_persists(rows1, k + 1, n);
        }
        if parse_fold(rows1, n, false) is Ok {
            assert(parse_fold(rows1, k + 1, false) is Ok) by {
                if parse_fold(rows1, k + 1, false) is Err {
                    lemma_fold_fault_persists(rows1, k + 1, n, false);
                }
            }
        }
    }
}

proof fn lemma_sanitize_concat(a: Seq<char>, b: Seq<char>)
    ensures
        sanitize(a + b) == sanitize(a) + sanitize(b),
    decreases b.len(),
{
    if b.len() == 0 {
        assert(a + b =~= a);
        assert(sanitize(a) + sanitize(b) =~= sanitize(a));
    } else {
        lemma_sanitize_concat(a, b.drop_last());
        assert((a + b).drop_last() =~= a + b.drop_last());
        assert((a + b).last() == b.last());
        if is_ascii_alnum(b.last()) {
            assert(sanitize(a) + sanitize(b) =~= (sanitize(a) + sanitize(b.drop_last())).push(
                lower_char(b.last()),
            ));
        }
    }
}

/// Dropping white space at either end leaves the letters and digits.
proof fn lemma_sanitize_trim(c: Seq<char>)
    ensures
        sanitize(trim(c)) == sanitize(c),
{
    lemma_sanitize_trim_start(c);
    lemma_sanitize_trim_end(trim_start(c));
}

proof fn lemma_sanitize_trim_start(c: Seq<char>)
    ensures
        sanitize(trim_start(c)) == sanitize(c),
    decreases c.len(),
{
    if c.len() > 0 && is_space(c[0]) {
        lemma_sanitize_trim_start(c.drop_first());
        assert(c =~= seq![c[0]] + c.drop_first());
        lemma_sanitize_concat(seq![c[0]], c.drop_first());
        assert(seq![c[0]].drop_last() =~= Seq::<char>::empty());
        assert(!is_ascii_alnum(c[0]));
        assert(sanitize(seq![c[0]]) =~= Seq::<char>::empty()) by {
            reveal_with_fuel(sanitize, 2);
        }
        assert(Seq::<char>::empty() + sanitize(c.drop_first()) =~= sanitize(c.drop_first()));
    }
}

proof fn lemma_sanitize_trim_end(c: Seq<char>)
    ensures
        sanitize(trim_end(c)) == sanitize(c),
    decreases c.len(),
{
    if c.len() > 0 && is_space(c.last()) {
        lemma_sanitize_trim_end(c.drop_last());
    }
}

/// Text made of letters only is its own sanitised form, once lower-cased.
proof fn lemma_sanitize_letters(t: Seq<char>)
    requires
        forall|i: int| 0 <= i < t.len() ==> is_ascii_alnum(#[trigger] t[i]),
    ensures
        sanitize(t) == lower(t),
    decreases t.len(),
{
    if t.len() > 0 {
        let d = t.drop_last();
        assert forall|i: int| 0 <= i < d.len() implies is_ascii_alnum(#[trigger] d[i]) by {
            assert(d[i] == t[i]);
        }
        lemma_sanitize_letters(d);
        assert(lower(t) =~= lower(d).push(lower_char(t.last())));
    }
}

/// A cell that reads `total` or `subtotal` is no recognised column name.
proof fn lemma_total_cell_has_no_role(c: Seq<char>)
    requires
        lower(trim(c)) == "total"@ || lower(trim(c)) == "subtotal"@,
    ensures
        role_of(sanitize(c)) is None,
{
    reveal_strlit("total");
    reveal_strlit("subtotal");
    assert("total"@ =~= seq!['t', 'o', 't', 'a', 'l']);
    assert("subtotal"@ =~= seq!['s', 'u', 'b', 't', 'o', 't', 'a', 'l']);
    let t = trim(c);
    assert(lower(t).len() == t.len());
    assert forall|i: int| 0 <= i < t.len() implies is_ascii_alnum(#[trigger] t[i]) by {
        assert(lower(t)[i] == lower_char(t[i]));
        if lower(t) == "total"@ {
            assert(i == 0 || i == 1 || i == 2 || i == 3 || i == 4);
        } else {
            assert(i == 0 || i == 1 || i == 2 || i == 3 || i == 4 || i == 5 || i == 6 || i == 7);
        }
        assert('a' <= lower(t)[i] && lower(t)[i] <= 'z');
    }
    lemma_sanitize_letters(t);
    lemma_sanitize_trim(c);
    reveal_strlit("symbol");
    reveal_strlit("ticker");
    reveal_strlit("qty");
    reveal_strlit("qtynumber");
    reveal_strlit("qtyshare");
    reveal_strlit("quantity");
    reveal_strlit("qtyshares");
    reveal_strlit("costshare");
    reveal_strlit("costpershare");
    reveal_strlit("priceshare");
    reveal_strlit("pricepershare");
    reveal_strlit("saleprice");
    reveal_strlit("sellprice");
    reveal_strlit("dateadded");
    reveal_strlit("purchasedate");
    reveal_strlit("buydate");
    reveal_strlit("date");
    reveal_strlit("saledate");
    reveal_strlit("selldate");
    let h = sanitize(c);
    assert(h.len() == 5 || h.len() == 8);
    if h.len() == 8 {
        assert(h[0] == 's' && h[1] == 'u');
        assert(h != "qtyshare"@ && h != "quantity"@) by {
            assert("qtyshare"@[0] == 'q');
            assert("quantity"@[0] == 'q');
        }
        assert(h != "saledate"@ && h != "selldate"@) by {
            assert("saledate"@[1] == 'a');
            assert("selldate"@[1] == 'e');
        }
    }
}

proof fn lemma_sentinel_facts(c: Seq<char>)
    requires
        is_blank_sentinel(c),
    ensures
        sanitize(c) == Seq::<char>::empty(),
        trim(c) == Seq::<char>::empty() || trim(c) == seq!['-', '-'],
        is_missing(c),
        !is_context_ticker(c),
        lower(trim(c)) != "total"@,
        lower(trim(c)) != "subtotal"@,
{
    reveal_strlit("--");
    reveal_strlit("total");
    reveal_strlit("subtotal");
    reveal_with_fuel(sanitize, 3);
    reveal_with_fuel(trim_start, 2);
    reveal_with_fuel(trim_end, 2);
    if c == seq![' '] {
        assert(c.drop_first() =~= Seq::<char>::empty());
        assert(c.drop_last() =~= Seq::<char>::empty());
    }
    assert("--"@ =~= seq!['-', '-']);
    if c == seq![' '] {
        assert(trim_start(c) =~= Seq::<char>::empty());
        assert(trim(c) =~= Seq::<char>::empty());
    }
    if c == seq!['-', '-'] {
        assert(!is_space(c[0]));
        assert(trim_start(c) == c);
        assert(!is_space(c.last()));
        assert(trim_end(c) == c);
        assert(trim(c) == c);
        assert(c.drop_last() =~= seq!['-']);
        assert(c.drop_last().drop_last() =~= Seq::<char>::empty());
        assert(lower(c) =~= c);
    }
    assert(lower(trim(c)).len() == trim(c).len());
}

/// A blank cell, a single space and `--` are read alike wherever they stand:
/// with the rest of the input the same, the import comes out the same, in
/// both the header-driven and the fixed-layout reading.
pub proof fn blank_sentinels_are_equivalent(
    rows1: Seq<Seq<Seq<char>>>,
    rows2: Seq<Seq<Seq<char>>>,
    k: int,
    j: int,
    reader_error: Option<Seq<char>>,
)
    requires
        differ_only_at(rows1, rows2, k),
        rows1[k].len() == rows2[k].len(),
        0 <= j < rows1[k].len(),
        forall|i: int| 0 <= i < rows1[k].len() && i != j ==> rows1[k][i] == rows2[k][i],
        is_blank_sentinel(rows1[k][j]),
        is_blank_sentinel(rows2[k][j]),
        !is_section_marker(rows1[k]),
        !is_section_marker(rows2[k]),
    ensures
        statement_outcome(rows1, reader_error) == statement_outcome(rows2, reader_error),
{
    let (a, b) = (rows1[k], rows2[k]);
    lemma_sentinel_facts(a[j]);
    lemma_sentinel_facts(b[j]);
    assert forall|i: int| 0 <= i < a.len() implies cell_role(a, i) == cell_role(b, i) by {
        if i == j {
            assert(sanitize(a[i]) == sanitize(b[i]));
        }
    }
    lemma_roles_decide_header(a, b);
    assert forall|i: int| i != j implies cell(a, i) == cell(b, i) by {}
    assert(is_total_row(a) == is_total_row(b));
    let n = rows1.len() as int;
    lemma_fold_replace(rows1, rows2, k, n, false);
    lemma_fold_replace(rows1, rows2, k, n, true);
}

/// A row that cannot become a trade aborts the whole import: whatever rows
/// came before or after, no trade is returned and the fault names that row.
pub proof fn row_fault_aborts_import(
    rows: Seq<Seq<Seq<char>>>,
    k: int,
    fault: RowFault,
    reader_error: Option<Seq<char>>,
)
    requires
        0 <= k < rows.len(),
        parse_fold(rows, k, false) is Ok,
        row_step(parse_fold(rows, k, false)->Ok_0, rows[k], false) == Err::<ParseState, RowFault>(
            fault,
        ),
    ensures
        statement_outcome(rows, reader_error) == Outcome::Fault(k + 1, fault),
{
    lemma_fold_fault_persists(rows, k + 1, rows.len() as int, false);
}

/// Importing the same input twice gives the same trades, or the same error.
pub proof fn import_is_deterministic(
    rows: Seq<Seq<Seq<char>>>,
    reader_error: Option<Seq<char>>,
    first: Result<Vec<Position>, ImportError>,
    second: Result<Vec<Position>, ImportError>,
)
    requires
        outcome_of(first) == statement_outcome(rows, reader_error),
        outcome_of(second) == statement_outcome(rows, reader_error),
    ensures
        outcome_of(first) == outcome_of(second),
{
}

} // verus!
