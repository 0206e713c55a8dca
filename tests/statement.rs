use roi_tracker::date::CivilDate;
use roi_tracker::decimal::Decimal;
use roi_tracker::position::{Amount, Annualized, Position, Ratio};
use roi_tracker::statement::{parse_rows, parse_statement, FieldLabel, ImportError, RowFault};

fn dec(units: i64, scale: u32) -> Decimal {
    Decimal { units, scale }
}

fn day(year: i32, month: u32, day: u32) -> CivilDate {
    CivilDate { year, month, day }
}

fn rows(lines: &[&[&str]]) -> Vec<Vec<String>> {
    lines.iter().map(|r| r.iter().map(|c| c.to_string()).collect()).collect()
}

fn tickers(v: &[Position]) -> Vec<String> {
    v.iter().map(|p| p.ticker.clone()).collect()
}

fn same_positions(a: &[Position], b: &[Position]) -> bool {
    a.len() == b.len()
        && a.iter().zip(b.iter()).all(|(x, y)| {
            x.ticker == y.ticker
                && x.cost_per_share == y.cost_per_share
                && x.quantity == y.quantity
                && x.sale_price == y.sale_price
                && x.purchase_date == y.purchase_date
                && x.sale_date == y.sale_date
        })
}

#[test]
fn two_row_file_yields_one_trade_with_its_figures() {
    let data = "Symbol,Cost/Share,Qty,Sale Price,Date,Date\nAAPL,100,10,110,2024-01-01,2024-02-01\n";
    let v = parse_statement(data).unwrap();
    assert_eq!(v.len(), 1);
    let p = &v[0];
    assert_eq!(p.ticker, "AAPL");
    assert_eq!(p.purchase_date, day(2024, 1, 1));
    assert_eq!(p.sale_date, day(2024, 2, 1));
    assert_eq!(p.invested(), Amount { units: 1000, scale: 0 });
    assert_eq!(p.proceeds(), Amount { units: 1100, scale: 0 });
    assert_eq!(p.roi_value(), Amount { units: 100, scale: 0 });
    let r = p.roi_pct().unwrap();
    assert_eq!(r, Ratio { num: 100, den: 1000 });
    assert_eq!(r.num * 10, r.den);
    assert_eq!(p.days_held(), 31);
}

#[test]
fn ticker_row_carries_forward_to_detail_row() {
    let data = "Symbol,Cost/Share,Qty,Sale Price,Date,Date\nAAPL,,,,,\n,100,10,110,2024-01-01,2024-02-01\n";
    let v = parse_statement(data).unwrap();
    assert_eq!(tickers(&v), vec!["AAPL".to_string()]);
    assert_eq!(v[0].cost_per_share, dec(100, 0));
}

#[test]
fn total_row_only_is_no_rows() {
    let r = parse_statement("Total,,,,,\n");
    assert!(matches!(r, Err(ImportError::NoRows)));
    assert_eq!(r.unwrap_err().message(), "No rows found to import");
}

#[test]
fn placeholder_sale_price_skips_row_but_text_aborts() {
    let ok = "Symbol,Cost/Share,Qty,Sale Price,Date,Date\nAAPL,100,10,--,2024-01-01,2024-02-01\nMSFT,50,2,60,2024-01-01,2024-01-05\n";
    let v = parse_statement(ok).unwrap();
    assert_eq!(tickers(&v), vec!["MSFT".to_string()]);

    let bad = "Symbol,Cost/Share,Qty,Sale Price,Date,Date\nAAPL,100,10,abc,2024-01-01,2024-02-01\n";
    let e = parse_statement(bad).unwrap_err();
    assert!(matches!(
        e,
        ImportError::Row { line: 2, fault: RowFault::InvalidNumber(FieldLabel::SalePrice) }
    ));
    assert_eq!(e.message(), "Line 2: Invalid sale price");
}

#[test]
fn sale_before_purchase_aborts_with_line() {
    let data = "Symbol,Cost/Share,Qty,Sale Price,Date,Date\nAAPL,100,10,110,2024-01-01,2024-02-01\nAAPL,100,10,110,2024-03-01,2024-02-01\n";
    let e = parse_statement(data).unwrap_err();
    assert!(matches!(e, ImportError::Row { line: 3, fault: RowFault::DateOrder }));
    assert_eq!(e.message(), "Line 3: sale date cannot be before purchase date");
}

#[test]
fn every_emitted_trade_is_sold_on_or_after_purchase() {
    let data = "Ticker,Cost/Share,Qty,Sale Price,Purchase Date,Sale Date\nA,1,1,1,2024-01-01,2024-01-01\nB,1,1,1,2023-12-31,2024-01-01\n";
    let v = parse_statement(data).unwrap();
    assert_eq!(v.len(), 2);
    for p in &v {
        assert!(
            (p.purchase_date.year, p.purchase_date.month, p.purchase_date.day)
                <= (p.sale_date.year, p.sale_date.month, p.sale_date.day)
        );
    }
}

#[test]
fn same_day_trade_is_held_one_day() {
    let data = "Symbol,Cost/Share,Qty,Sale Price,Date\nAAPL,100,10,110,2024-01-01\n";
    let v = parse_statement(data).unwrap();
    assert_eq!(v[0].purchase_date, v[0].sale_date);
    assert_eq!(v[0].days_held(), 1);
}

#[test]
fn profit_is_proceeds_minus_invested_across_scales() {
    let data = "Symbol,Cost/Share,Qty,Sale Price,Date,Date\nX,12.5,3,14.25,2024-01-01,2024-01-11\n";
    let p = &parse_statement(data).unwrap()[0];
    assert_eq!(p.invested(), Amount { units: 375, scale: 1 });
    assert_eq!(p.proceeds(), Amount { units: 4275, scale: 2 });
    // 42.75 - 37.5 = 5.25
    assert_eq!(p.roi_value(), Amount { units: 525, scale: 2 });
    let r = p.roi_pct().unwrap();
    // 5.25 / 37.5 = 0.14
    assert_eq!(r.num * 100, r.den * 14);
    assert_eq!(p.days_held(), 10);
}

#[test]
fn nothing_invested_has_no_return_ratio() {
    let data = "Symbol,Cost/Share,Qty,Sale Price,Date,Date\nX,0,3,5,2024-01-01,2024-01-11\n";
    let p = &parse_statement(data).unwrap()[0];
    assert!(p.roi_pct().is_none());
    assert_eq!(p.annualized_roi(), Annualized::TotalLoss);
}

#[test]
fn zero_proceeds_is_total_loss() {
    let data = "Symbol,Cost/Share,Qty,Sale Price,Date,Date\nX,10,3,0,2024-01-01,2024-01-11\n";
    let p = &parse_statement(data).unwrap()[0];
    assert_eq!(p.annualized_roi(), Annualized::TotalLoss);
}

#[test]
fn positive_trade_compounds_over_days_held() {
    let data = "Symbol,Cost/Share,Qty,Sale Price,Date,Date\nX,10,3,12.5,2024-01-01,2024-01-11\n";
    let p = &parse_statement(data).unwrap()[0];
    match p.annualized_roi() {
        Annualized::Compounded { multiple, days } => {
            assert_eq!(days, 10);
            // 37.5 / 30 = 1.25
            assert_eq!(multiple.num * 4, multiple.den * 5);
        }
        Annualized::TotalLoss => panic!("expected a compounded rate"),
    }
}

#[test]
fn reparsing_gives_identical_lists() {
    let data = "TAXABLE G&L DETAILS\nSymbol,Cost/Share,Qty,Sale Price,Date,Date\nAAPL,,,,,\n,100,10,110,2024-01-01,2024-02-01\nMSFT,\"$1,200.50\",2,\"1,300\",01/02/2024,01/05/2024\n";
    let a = parse_statement(data).unwrap();
    let b = parse_statement(data).unwrap();
    assert!(same_positions(&a, &b));
    assert_eq!(a.len(), 2);
}

#[test]
fn ticker_and_symbol_headers_read_alike() {
    let body = "\nAAPL,100,10,110,2024-01-01,2024-02-01\nMSFT,50,1,40,2024-01-03,2024-01-04\n";
    let a = parse_statement(&format!("Symbol,Cost/Share,Qty,Sale Price,Date,Date{body}")).unwrap();
    let b = parse_statement(&format!("Ticker,Cost Per Share,Quantity,Sell Price,Buy Date,Sale Date{body}"))
        .unwrap();
    assert!(same_positions(&a, &b));
    assert_eq!(a.len(), 2);
}

#[test]
fn blank_space_and_placeholder_fields_are_skipped_alike() {
    for blank in ["", " ", "--"] {
        let with_header = rows(&[
            &["Symbol", "Cost/Share", "Qty", "Sale Price", "Date", "Date"],
            &["AAPL", "100", blank, "110", "2024-01-01", "2024-02-01"],
            &["MSFT", "50", "2", "60", "2024-01-01", "2024-01-05"],
        ]);
        let v = parse_rows(&with_header, &None).unwrap();
        assert_eq!(tickers(&v), vec!["MSFT".to_string()]);

        let positional = rows(&[
            &["AAPL", "100", blank, "110", "2024-01-01", "2024-02-01"],
            &["MSFT", "50", "2", "60", "2024-01-01", "2024-01-05"],
        ]);
        let v = parse_rows(&positional, &None).unwrap();
        assert_eq!(tickers(&v), vec!["MSFT".to_string()]);
    }
}

#[test]
fn positional_layout_used_when_no_header_is_found() {
    let data = "Some report\nAAPL,100,10,110,2024-01-01,2024-02-01\nshort,row\n";
    let v = parse_statement(data).unwrap();
    assert_eq!(tickers(&v), vec!["AAPL".to_string()]);
}

#[test]
fn section_marker_resets_header() {
    let data = "Symbol,Cost/Share,Qty,Sale Price,Date,Date\nAAPL,100,10,110,2024-01-01,2024-02-01\nTaxable G&L Details\nTicker,Sale Price,Qty,Cost/Share,Date,Date\nMSFT,60,2,50,2024-01-01,2024-01-05\n";
    let v = parse_statement(data).unwrap();
    assert_eq!(tickers(&v), vec!["AAPL".to_string(), "MSFT".to_string()]);
    assert_eq!(v[1].sale_price, dec(60, 0));
    assert_eq!(v[1].cost_per_share, dec(50, 0));
}

#[test]
fn sell_rows_do_not_change_ticker() {
    let data = "Symbol,Cost/Share,Qty,Sale Price,Date,Date\nAAPL,,,,,\nSell 10,100,10,110,2024-01-01,2024-02-01\n";
    let v = parse_statement(data).unwrap();
    assert_eq!(tickers(&v), vec!["AAPL".to_string()]);
}

#[test]
fn detail_row_without_context_is_skipped() {
    let data = "Symbol,Cost/Share,Qty,Sale Price,Date,Date\n,100,10,110,2024-01-01,2024-02-01\nSubtotal,1,1,1,2024-01-01,2024-01-02\n";
    assert!(matches!(parse_statement(data), Err(ImportError::NoRows)));
}

#[test]
fn invalid_date_is_reported_with_formats() {
    let data = "Symbol,Cost/Share,Qty,Sale Price,Date,Date\nAAPL,100,10,110,2024-13-01,2024-02-01\n";
    let e = parse_statement(data).unwrap_err();
    assert!(matches!(
        e,
        ImportError::Row { line: 2, fault: RowFault::InvalidDate(FieldLabel::PurchaseDate) }
    ));
    assert_eq!(
        e.message(),
        "Line 2: Invalid purchase date, expected YYYY-MM-DD or MM/DD/YYYY"
    );
}

#[test]
fn us_dates_and_currency_are_read() {
    let data = "Symbol,Cost/Share,Qty,Sale Price,Date,Date\nmsft,\"$1,200.50\",2,\"$ 1,300\",01/02/2024,01/05/2024\n";
    let v = parse_statement(data).unwrap();
    assert_eq!(v[0].ticker, "MSFT");
    assert_eq!(v[0].cost_per_share, dec(120050, 2));
    assert_eq!(v[0].sale_price, dec(1300, 0));
    assert_eq!(v[0].purchase_date, day(2024, 1, 2));
    assert_eq!(v[0].days_held(), 3);
}

#[test]
fn reader_error_is_reported_after_rows() {
    let r = rows(&[&["Symbol", "Cost/Share", "Qty", "Sale Price", "Date", "Date"], &["A", "1", "1", "1", "2024-01-01", "2024-01-02"]]);
    let e = parse_rows(&r, &Some("bad record".to_string())).unwrap_err();
    assert!(matches!(e, ImportError::Reader { after: 2, .. }));
    assert_eq!(e.message(), "Line 3: bad record");
}

#[test]
fn row_fault_before_reader_error_wins() {
    let r = rows(&[&["Symbol", "Cost/Share", "Qty", "Sale Price", "Date", "Date"], &["A", "x", "1", "1", "2024-01-01", "2024-01-02"]]);
    let e = parse_rows(&r, &Some("bad record".to_string())).unwrap_err();
    assert!(matches!(
        e,
        ImportError::Row { line: 2, fault: RowFault::InvalidNumber(FieldLabel::CostPerShare) }
    ));
}

#[test]
fn empty_input_is_no_rows() {
    assert!(matches!(parse_statement(""), Err(ImportError::NoRows)));
    assert!(matches!(parse_rows(&Vec::new(), &None), Err(ImportError::NoRows)));
}

#[test]
fn single_date_column_serves_both_dates() {
    let data = "Ticker,Cost Per Share,Qty Shares,Price Per Share,Date\nAAPL,1,2,3,2024-05-05\n";
    let v = parse_statement(data).unwrap();
    assert_eq!(v[0].purchase_date, v[0].sale_date);
    assert_eq!(v[0].quantity, dec(2, 0));
    assert_eq!(v[0].sale_price, dec(3, 0));
}
