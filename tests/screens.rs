use roi_tracker::date::CivilDate;
use roi_tracker::decimal::Decimal;
use roi_tracker::form::{AddForm, ImportForm};
use roi_tracker::portfolio::{Action, App, Key, Mode};
use roi_tracker::position::Position;
use roi_tracker::statement::{FieldLabel, RowFault};

fn pos(ticker: &str) -> Position {
    Position {
        ticker: ticker.to_string(),
        cost_per_share: Decimal { units: 10, scale: 0 },
        quantity: Decimal { units: 1, scale: 0 },
        sale_price: Decimal { units: 12, scale: 0 },
        purchase_date: CivilDate { year: 2024, month: 1, day: 1 },
        sale_date: CivilDate { year: 2024, month: 1, day: 5 },
    }
}

fn ch(c: char) -> Key {
    Key::Char { c, plain: true }
}

fn type_text(app: &mut App, s: &str) {
    for c in s.chars() {
        app.handle_key(ch(c));
    }
}

#[test]
fn form_moves_between_fields_and_edits_text() {
    let mut f = AddForm::new();
    assert_eq!(f.fields.len(), 6);
    assert_eq!(f.fields[0].label, "Ticker");
    assert!(!f.on_enter());
    f.prev_field();
    assert_eq!(f.active, 5);
    assert!(f.on_enter());
    f.next_field();
    assert_eq!(f.active, 0);
    f.push_char('a');
    f.push_char('b');
    f.backspace();
    assert_eq!(f.fields[0].value, "a");
    f.backspace();
    f.backspace();
    assert_eq!(f.fields[0].value, "");
}

#[test]
fn form_builds_trade_or_names_fault() {
    let mut f = AddForm::new();
    let values = ["msft", "10", "2", "12.5", "2024-01-01", "01/03/2024"];
    for (i, v) in values.iter().enumerate() {
        f.active = i;
        for c in v.chars() {
            f.push_char(c);
        }
    }
    let p = f.try_build_position().unwrap();
    assert_eq!(p.ticker, "MSFT");
    assert_eq!(p.sale_price, Decimal { units: 125, scale: 1 });
    assert_eq!(p.sale_date, CivilDate { year: 2024, month: 1, day: 3 });

    f.active = 0;
    for _ in 0..4 {
        f.backspace();
    }
    assert_eq!(f.try_build_position().unwrap_err(), "Ticker cannot be empty");
    f.push_char('x');
    f.active = 2;
    f.push_char('q');
    assert_eq!(f.try_build_position().unwrap_err(), "Invalid quantity");
    f.backspace();
    f.active = 5;
    for _ in 0..10 {
        f.backspace();
    }
    for c in "2023-12-31".chars() {
        f.push_char(c);
    }
    assert_eq!(
        f.try_build_position().unwrap_err(),
        "Sale date cannot be before purchase date"
    );
    assert_eq!(
        RowFault::InvalidDate(FieldLabel::SaleDate).message(),
        "Invalid sale date, expected YYYY-MM-DD or MM/DD/YYYY"
    );
}

#[test]
fn form_from_trade_shows_its_values() {
    let f = AddForm::from_position(&pos("AAPL"));
    let values: Vec<&str> = f.fields.iter().map(|x| x.value.as_str()).collect();
    assert_eq!(values, vec!["AAPL", "10.00", "1.0000", "12.00", "2024-01-01", "2024-01-05"]);
}

#[test]
fn import_form_edits_path() {
    let mut f = ImportForm::new();
    f.push_char('a');
    f.push_char('b');
    f.backspace();
    assert_eq!(f.path, "a");
    f.backspace();
    f.backspace();
    assert_eq!(f.path, "");
}

#[test]
fn selection_wraps_within_filter() {
    let mut app = App::new(vec![pos("AAPL"), pos("MSFT"), pos("AMD")]);
    assert_eq!(app.selected, 2);
    app.select_next();
    assert_eq!(app.selected, 0);
    app.select_prev();
    assert_eq!(app.selected, 2);
    app.filter_text = "a".to_string();
    assert_eq!(app.filtered_indices(), vec![0, 2]);
    assert!(app.filter_matches(&pos("xaz")));
    assert!(!app.filter_matches(&pos("MSFT")));
    app.selected = 1;
    app.ensure_selection_visible();
    assert_eq!(app.selected, 0);
    app.select_next();
    assert_eq!(app.selected, 2);
    app.filter_text = "zzz".to_string();
    app.select_next();
    assert_eq!(app.selected, 0);
}

#[test]
fn delete_keeps_selection_in_range() {
    let mut app = App::new(vec![pos("AAPL"), pos("MSFT")]);
    app.delete_selected();
    assert_eq!(app.positions.len(), 1);
    assert_eq!(app.selected, 0);
    assert!(app.selected_position().is_some());
    app.delete_selected();
    assert!(app.positions.is_empty());
    assert!(app.selected_position().is_none());
    app.delete_selected();
    assert!(app.positions.is_empty());
}

#[test]
fn keys_drive_screens() {
    let mut app = App::new(vec![pos("AAPL")]);
    assert!(matches!(app.handle_key(ch('h')), Action::Continue));
    assert_eq!(app.mode, Mode::Help);
    app.handle_key(Key::Esc);
    assert_eq!(app.mode, Mode::Portfolio);
    app.handle_key(Key::Enter);
    assert_eq!(app.mode, Mode::Detail);
    assert!(matches!(app.handle_key(ch('q')), Action::Quit));
}

#[test]
fn adding_through_form_saves() {
    let mut app = App::new(Vec::new());
    app.handle_key(ch('a'));
    assert_eq!(app.mode, Mode::AddForm);
    for v in ["nvda", "100", "1", "90", "2024-01-01"] {
        type_text(&mut app, v);
        app.handle_key(Key::Enter);
    }
    type_text(&mut app, "2024-01-02");
    assert!(matches!(app.handle_key(Key::Enter), Action::Save));
    assert_eq!(app.mode, Mode::Portfolio);
    assert_eq!(app.positions.len(), 1);
    assert_eq!(app.positions[0].ticker, "NVDA");
    assert!(matches!(app.handle_key(ch('x')), Action::Save));
    assert!(app.positions.is_empty());
}

#[test]
fn import_screen_asks_for_path_then_imports_text() {
    let mut app = App::new(vec![pos("AAPL")]);
    app.handle_key(ch('i'));
    assert_eq!(app.mode, Mode::Import);
    app.handle_key(Key::Enter);
    assert_eq!(app.import_form.error.as_deref(), Some("Path cannot be empty"));
    type_text(&mut app, " trades.csv ");
    match app.handle_key(Key::Enter) {
        Action::Import(p) => assert_eq!(p, "trades.csv"),
        _ => panic!("expected an import"),
    }
    let failed = app.import_text("Total,,,,,\n");
    assert!(matches!(failed, Action::Continue));
    assert_eq!(app.import_form.error.as_deref(), Some("No rows found to import"));
    let done = app.import_text(
        "Symbol,Cost/Share,Qty,Sale Price,Date,Date\nMSFT,50,2,60,2024-01-01,2024-01-05\nAMD,5,2,6,2024-01-01,2024-01-05\n",
    );
    assert!(matches!(done, Action::Save));
    assert_eq!(app.positions.len(), 3);
    assert_eq!(app.selected, 2);
    assert_eq!(app.mode, Mode::Portfolio);
    assert_eq!(app.import_form.message.as_deref(), Some("Imported 2 positions"));
    app.import_failed("Failed to read x".to_string());
    assert_eq!(app.import_form.error.as_deref(), Some("Failed to read x"));
}

#[test]
fn filter_typing_narrows_selection() {
    let mut app = App::new(vec![pos("AAPL"), pos("MSFT")]);
    app.handle_key(ch('/'));
    assert!(app.filter_editing);
    type_text(&mut app, "ms");
    assert_eq!(app.filter_text, "ms");
    assert_eq!(app.selected, 1);
    app.handle_key(Key::Backspace);
    assert_eq!(app.filter_text, "m");
    app.handle_key(Key::Enter);
    assert!(!app.filter_editing);
}

#[test]
fn seeds_date_back_from_today() {
    let today = CivilDate { year: 2024, month: 3, day: 2 };
    let seeds = roi_tracker::portfolio::seed_positions(today);
    let tickers: Vec<&str> = seeds.iter().map(|p| p.ticker.as_str()).collect();
    assert_eq!(tickers, vec!["AAPL", "AMD", "MSFT"]);
    assert_eq!(seeds[0].purchase_date, CivilDate { year: 2024, month: 2, day: 19 });
    assert_eq!(seeds[0].sale_date, today);
    assert_eq!(seeds[1].days_held(), 4);
    assert_eq!(seeds[2].purchase_date, CivilDate { year: 2024, month: 2, day: 6 });
    assert_eq!(seeds[2].sale_date, CivilDate { year: 2024, month: 2, day: 26 });
    assert_eq!(seeds[2].sale_price, Decimal { units: 3552, scale: 1 });
}

#[test]
fn form_from_early_trade_pads_year() {
    let mut p = pos("OLD");
    p.purchase_date = CivilDate { year: 987, month: 3, day: 4 };
    p.quantity = Decimal { units: 12345, scale: 5 };
    let f = AddForm::from_position(&p);
    assert_eq!(f.fields[4].value, "0987-03-04");
    assert_eq!(f.fields[2].value, "0.12345");
}
