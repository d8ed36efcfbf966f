use sq_app::amount::Amount;
use sq_app::csv::{cell, maybe, money, row};

/// A broker name carrying the separator must not become two columns.
#[test]
fn a_csv_cell_quotes_what_would_break_the_row() {
    assert_eq!(cell("Apple"), "Apple");
    assert_eq!(cell("Ford; Motor"), "\"Ford; Motor\"");
    assert_eq!(cell("ETF \"Core\""), "\"ETF \"\"Core\"\"\"");
    assert_eq!(cell("two\nlines"), "\"two\nlines\"");
    assert_eq!(
        row(["2024-01-01", "Ford; Motor", "12"]),
        "2024-01-01;\"Ford; Motor\";12\n"
    );
}

/// The decimal mark follows the separator: a comma never needs quoting in a `;` file.
#[test]
fn a_money_cell_carries_a_decimal_comma() {
    assert_eq!(money(Amount::new(123456, 2)), "1234,56");
    assert_eq!(money(Amount::new(-7, 0)), "-7");
    assert_eq!(cell(&money(Amount::new(123456, 2))), "1234,56");
    assert_eq!(maybe(None), "");
}

#[test]
fn a_carriage_return_is_quoted_and_a_plain_value_is_not() {
    assert_eq!(cell("a\rb"), "\"a\rb\"");
    assert_eq!(cell(""), "");
    assert_eq!(row(["", "x"]), ";x\n");
    assert_eq!(row::<0>([]), "\n");
}

#[test]
fn a_money_cell_keeps_the_scale_it_was_given() {
    assert_eq!(money(Amount::new(1250, 2)), "12,50");
    assert_eq!(money(Amount::new(5, 3)), "0,005");
    assert_eq!(maybe(Some(Amount::new(-150, 1))), "-15,0");
}

/// A money cell never needs quoting: its comma is no separator in a `;` file.
#[test]
fn a_money_cell_is_never_quoted() {
    for (m, sc) in [(123456i64, 2u32), (-7, 0), (5, 3), (0, 4), (i64::MIN, 28), (i64::MAX, 0)] {
        let text = money(Amount::new(m, sc));
        assert!(!text.contains('.'));
        assert_eq!(cell(&text), text);
    }
}

/// A small negative figure truncated is a zero that keeps its minus sign, as `rust_decimal`
/// writes it; rounded, it is a plain zero.
#[test]
fn a_negative_zero_keeps_its_sign() {
    let z = Amount::new(-7, 1).trunc();
    assert!(z.is_sign_negative());
    assert_eq!(z.to_text(), "-0");
    assert_eq!(money(z), "-0");
    assert_eq!(cell(&money(z)), "-0");
    let r = Amount::new(-1, 3).round_dp(2);
    assert!(!r.is_sign_negative());
    assert_eq!(r.to_text(), "0.00");
    assert_eq!(Amount::new(0, 2).to_text(), "0.00");
}
