use tax_core::constants::{tax_brackets, MAX_INPUT_LENGTH};
use tax_core::tax::App;

fn app_with(input: &str) -> App {
    let mut app = App::new();
    app.input = input.to_string();
    app
}

#[test]
fn new_app_is_empty() {
    let app = App::new();
    assert_eq!(app.input, "");
    assert_eq!(app.monthly_income, 0);
    assert_eq!(app.annual_income, 0);
    assert_eq!(app.annual_tax_cents, 0);
    assert_eq!(app.tax_bracket_info, "");
}

#[test]
fn bracket_table() {
    let table = tax_brackets();
    assert_eq!(table.len(), 5);
    assert_eq!(table[0].limit, 50_000_000);
    assert_eq!(table[0].rate_percent, 5);
    assert_eq!(table[4].limit, u64::MAX);
    assert_eq!(table[4].rate_percent, 35);
    assert_eq!(table[3].description, "Golongan Gajhi Nyuyok (500 juta - 5 miliar rupiah)");
    assert_eq!(MAX_INPUT_LENGTH, 18);
}

#[test]
fn brackets_at_their_limits() {
    assert_eq!(App::get_tax_bracket(0), (0, "Tyduck kena pajak"));
    assert_eq!(App::get_tax_bracket(1), (5, "Golongan 1 (0 - 50 juta rupiah)"));
    assert_eq!(App::get_tax_bracket(50_000_000), (5, "Golongan 1 (0 - 50 juta rupiah)"));
    assert_eq!(App::get_tax_bracket(50_000_001), (15, "Golongan 2 (50 - 250 juta rupiah)"));
    assert_eq!(App::get_tax_bracket(250_000_000), (15, "Golongan 2 (50 - 250 juta rupiah)"));
    assert_eq!(App::get_tax_bracket(250_000_001), (25, "Golongan 3 (250 - 500 juta rupiah)"));
    assert_eq!(App::get_tax_bracket(500_000_000), (25, "Golongan 3 (250 - 500 juta rupiah)"));
    assert_eq!(
        App::get_tax_bracket(500_000_001),
        (30, "Golongan Gajhi Nyuyok (500 juta - 5 miliar rupiah)")
    );
    assert_eq!(
        App::get_tax_bracket(5_000_000_000),
        (30, "Golongan Gajhi Nyuyok (500 juta - 5 miliar rupiah)")
    );
    assert_eq!(App::get_tax_bracket(5_000_000_001), (35, "Golongan Sultan (> 5 miliar rupiah)"));
    assert_eq!(App::get_tax_bracket(u64::MAX), (35, "Golongan Sultan (> 5 miliar rupiah)"));
}

#[test]
fn law_rate_grows_with_income() {
    let incomes = [0u64, 1, 50_000_000, 50_000_001, 300_000_000, 5_000_000_000, 5_000_000_001, u64::MAX];
    for w in incomes.windows(2) {
        assert!(App::get_tax_bracket(w[0]).0 <= App::get_tax_bracket(w[1]).0);
    }
}

#[test]
fn calculate_monthly_income() {
    let mut app = app_with("5000000");
    app.calculate_tax();
    assert_eq!(app.input, "5000000");
    assert_eq!(app.monthly_income, 5_000_000);
    assert_eq!(app.annual_income, 60_000_000);
    assert_eq!(app.annual_tax_cents, 900_000_000);
    assert_eq!(
        app.tax_bracket_info,
        "Penghasilan termasuk Golongan 2 (50 - 250 juta rupiah) dengan pajak 15%."
    );
}

#[test]
fn calculate_small_income() {
    let mut app = app_with("1000");
    app.calculate_tax();
    assert_eq!(app.annual_income, 12_000);
    assert_eq!(app.annual_tax_cents, 60_000);
    assert_eq!(
        app.tax_bracket_info,
        "Penghasilan termasuk Golongan 1 (0 - 50 juta rupiah) dengan pajak 5%."
    );
}

#[test]
fn calculate_zero_income() {
    let mut app = app_with("0");
    app.calculate_tax();
    assert_eq!(app.annual_income, 0);
    assert_eq!(app.annual_tax_cents, 0);
    assert_eq!(app.tax_bracket_info, "Penghasilan termasuk Tyduck kena pajak dengan pajak 0%.");
}

#[test]
fn calculate_largest_income() {
    let mut app = app_with("999999999999999999");
    app.calculate_tax();
    assert_eq!(app.annual_income, 11_999_999_999_999_999_988);
    assert_eq!(app.annual_tax_cents, 11_999_999_999_999_999_988u128 * 35);
    assert_eq!(
        app.tax_bracket_info,
        "Penghasilan termasuk Golongan Sultan (> 5 miliar rupiah) dengan pajak 35%."
    );
}

#[test]
fn calculate_errors() {
    let mut app = app_with("12");
    app.calculate_tax();
    app.input = "".to_string();
    app.calculate_tax();
    assert_eq!(app.monthly_income, 0);
    assert_eq!(app.annual_income, 0);
    assert_eq!(app.annual_tax_cents, 0);
    assert_eq!(app.tax_bracket_info, "Error: hmmmm.");

    let mut app = app_with("99999999999999999999");
    app.calculate_tax();
    assert_eq!(app.tax_bracket_info, "Error: Gaji boss satu ni diluar nurul.");
    assert_eq!(app.annual_income, 0);

    let mut app = app_with("12x");
    app.calculate_tax();
    assert_eq!(app.tax_bracket_info, "Error: hmmmm.");
}

#[test]
fn exact_cents_match_the_rounded_product() {
    for monthly in [1u64, 1000, 4_166_666, 4_166_667, 20_833_334, 41_666_667, 416_666_667] {
        let mut app = app_with(&monthly.to_string());
        app.calculate_tax();
        let rate = App::get_tax_bracket(app.annual_income).0 as f64 / 100.0;
        let float_cents = ((app.annual_income as f64) * rate * 100.0).round() as u128;
        assert_eq!(app.annual_tax_cents, float_cents, "monthly {}", monthly);
    }
}

#[test]
fn law_calculation_is_idempotent() {
    let mut app = app_with("123456");
    app.calculate_tax();
    let (m, a, t, info) = (app.monthly_income, app.annual_income, app.annual_tax_cents, app.tax_bracket_info.clone());
    app.calculate_tax();
    assert_eq!(app.monthly_income, m);
    assert_eq!(app.annual_income, a);
    assert_eq!(app.annual_tax_cents, t);
    assert_eq!(app.tax_bracket_info, info);
}

#[test]
fn format_thousand_separator_groups() {
    let app = App::new();
    assert_eq!(app.format_thousand_separator(60_000_000), "60.000.000");
    assert_eq!(app.format_thousand_separator(999), "999");
}
