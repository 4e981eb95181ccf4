use tax_core::cli::{handle_event, TaxBreakdown, INPUT_ERROR_MSG, INPUT_HEIGHT, TITLE_HEIGHT};
use tax_core::events::{Event, KeyCode, KeyEvent, KeyEventKind};
use tax_core::tax::App;

fn press(code: KeyCode) -> Event {
    Event::Key(KeyEvent { code, kind: KeyEventKind::Press })
}

#[test]
fn layout_constants() {
    assert_eq!(TITLE_HEIGHT, 3);
    assert_eq!(INPUT_HEIGHT, 4);
    assert_eq!(INPUT_ERROR_MSG, "Gaji anda diluar nurul");
}

#[test]
fn quit_keys_stop_the_program() {
    let mut app = App::new();
    assert!(!handle_event(&mut app, &press(KeyCode::Char('q'))));
    assert!(!handle_event(&mut app, &press(KeyCode::Esc)));
    assert_eq!(app.input, "");
}

#[test]
fn releases_and_other_events_change_nothing() {
    let mut app = App::new();
    let release = Event::Key(KeyEvent { code: KeyCode::Char('q'), kind: KeyEventKind::Release });
    let repeat = Event::Key(KeyEvent { code: KeyCode::Char('5'), kind: KeyEventKind::Repeat });
    assert!(handle_event(&mut app, &release));
    assert!(handle_event(&mut app, &repeat));
    assert!(handle_event(&mut app, &Event::Other));
    assert!(handle_event(&mut app, &press(KeyCode::Other)));
    assert!(handle_event(&mut app, &press(KeyCode::Char('x'))));
    assert_eq!(app.input, "");
    assert_eq!(app.tax_bracket_info, "");
}

#[test]
fn typing_and_calculating() {
    let mut app = App::new();
    for c in "5000000".chars() {
        assert!(handle_event(&mut app, &press(KeyCode::Char(c))));
    }
    assert_eq!(app.input, "5000000");
    assert!(handle_event(&mut app, &press(KeyCode::Enter)));
    assert_eq!(app.annual_income, 60_000_000);
    assert_eq!(app.annual_tax_cents, 900_000_000);
    assert_eq!(
        app.tax_bracket_info,
        "Penghasilan termasuk Golongan 2 (50 - 250 juta rupiah) dengan pajak 15%."
    );
}

#[test]
fn backspace_removes_last_character() {
    let mut app = App::new();
    assert!(handle_event(&mut app, &press(KeyCode::Backspace)));
    assert_eq!(app.input, "");
    app.input = "123".to_string();
    assert!(handle_event(&mut app, &press(KeyCode::Backspace)));
    assert_eq!(app.input, "12");
}

#[test]
fn full_input_reports_the_limit() {
    let mut app = App::new();
    for _ in 0..18 {
        handle_event(&mut app, &press(KeyCode::Char('9')));
    }
    assert_eq!(app.input.len(), 18);
    assert_eq!(app.tax_bracket_info, "");
    assert!(handle_event(&mut app, &press(KeyCode::Char('9'))));
    assert_eq!(app.input.len(), 18);
    assert_eq!(app.tax_bracket_info, "Gaji anda diluar nurul. 18 digit");
    handle_event(&mut app, &press(KeyCode::Enter));
    assert_eq!(app.monthly_income, 999_999_999_999_999_999);
}

#[test]
fn law_backspace_undoes_a_digit() {
    let mut app = App::new();
    app.input = "42".to_string();
    handle_event(&mut app, &press(KeyCode::Char('7')));
    assert_eq!(app.input, "427");
    handle_event(&mut app, &press(KeyCode::Backspace));
    assert_eq!(app.input, "42");
}

#[test]
fn law_typed_input_stays_short_digits() {
    let mut app = App::new();
    let keys = "12a3b45678901234567890123".chars();
    for c in keys {
        handle_event(&mut app, &press(KeyCode::Char(c)));
        assert!(app.input.len() <= 18);
        assert!(app.input.chars().all(|c| c.is_ascii_digit()));
    }
    handle_event(&mut app, &press(KeyCode::Enter));
    assert!(app.tax_bracket_info.starts_with("Penghasilan termasuk "));
}

#[test]
fn tax_breakdown_splits_cents() {
    let parts = TaxBreakdown::from(12345);
    assert_eq!(parts.integer, 123);
    assert_eq!(parts.decimal, "45");
    let parts = TaxBreakdown::from(5);
    assert_eq!(parts.integer, 0);
    assert_eq!(parts.decimal, "05");
    let parts = TaxBreakdown::from(900_000_000);
    assert_eq!(parts.integer, 9_000_000);
    assert_eq!(parts.decimal, "00");
}

#[test]
fn law_tax_breakdown_reconstructs() {
    for cents in [0u128, 7, 99, 100, 123_456_789] {
        let parts = TaxBreakdown::from(cents);
        let back = parts.integer as u128 * 100 + parts.decimal.parse::<u128>().unwrap();
        assert_eq!(back, cents);
    }
}
