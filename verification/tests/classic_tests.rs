use tax_core::classic::App;
use tax_core::events::{Event, KeyCode, KeyEvent, KeyEventKind};

fn press(code: KeyCode) -> Event {
    Event::Key(KeyEvent { code, kind: KeyEventKind::Press })
}

#[test]
fn classic_takes_the_input_as_annual_income() {
    let mut app = App::new();
    app.input = "60000000".to_string();
    app.calculate_tax();
    assert_eq!(app.monthly_income, 60_000_000);
    assert_eq!(app.annual_income, 60_000_000);
    assert_eq!(app.annual_tax_cents, 900_000_000);
    assert_eq!(
        app.tax_bracket_info,
        "Penghasilan termasuk Golongan 2 (50 - 250 juta rupiah) dengan pajak 15%."
    );
}

#[test]
fn classic_zero_and_errors() {
    let mut app = App::new();
    app.input = "0".to_string();
    app.calculate_tax();
    assert_eq!(
        app.tax_bracket_info,
        "Penghasilan termasuk Tidak ada penghasilan kena pajak dengan pajak 0%."
    );
    app.input = "".to_string();
    app.calculate_tax();
    assert_eq!(app.tax_bracket_info, "Error: format angka tidak valid.");
    app.input = "99999999999999999999".to_string();
    app.calculate_tax();
    assert_eq!(app.tax_bracket_info, "Error: Error: Nilai input terlalu besar.");
    assert_eq!(app.annual_tax_cents, 0);
}

#[test]
fn classic_largest_income_does_not_overflow() {
    let mut app = App::new();
    app.input = "18446744073709551615".to_string();
    app.calculate_tax();
    assert_eq!(app.annual_income, u64::MAX);
    assert_eq!(app.annual_tax_cents, u64::MAX as u128 * 35);
}

#[test]
fn classic_events() {
    let mut app = App::new();
    for c in "1234567890123456789".chars() {
        assert!(app.handle_event(&press(KeyCode::Char(c))));
    }
    assert_eq!(app.input, "123456789012345678");
    assert_eq!(app.tax_bracket_info, "");
    assert!(app.handle_event(&press(KeyCode::Backspace)));
    assert_eq!(app.input, "12345678901234567");
    assert!(app.handle_event(&press(KeyCode::Enter)));
    assert_eq!(app.annual_income, 12_345_678_901_234_567);
    assert!(!app.handle_event(&press(KeyCode::Char('q'))));
    assert!(!app.handle_event(&press(KeyCode::Esc)));
    assert!(app.handle_event(&Event::Other));
}

#[test]
fn classic_thousand_separator() {
    let app = App::new();
    assert_eq!(app.format_income_thousand_separator(1234567), "1.234.567");
    assert_eq!(app.format_income_thousand_separator(100), "100");
}
