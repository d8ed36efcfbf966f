use sq_app::dates::Date;
use sq_app::error::UiError;
use sq_app::forms::{amount, blank_to_none, decimal, parse_date, parse_ratio, parse_step, previous_window, require_text};

fn invalid(r: UiError) -> String {
    match r {
        UiError::Invalid { message } => message,
        other => panic!("{other:?}"),
    }
}

#[test]
fn a_required_text_is_trimmed_and_named_when_missing() {
    assert_eq!(require_text("  Main  ", "name").unwrap(), "Main");
    assert_eq!(invalid(require_text("   ", "name").unwrap_err()), "missing: name");
    assert_eq!(blank_to_none(Some("  x ".to_string())), Some("x".to_string()));
    assert_eq!(blank_to_none(Some("   ".to_string())), None);
    assert_eq!(blank_to_none(None), None);
}

#[test]
fn a_figure_may_carry_a_decimal_comma() {
    let a = decimal(Some(" 12,50 "), "price").unwrap().unwrap();
    assert_eq!((a.mantissa(), a.scale()), (1250, 2));
    assert!(decimal(Some("  "), "price").unwrap().is_none());
    assert!(decimal(None, "price").unwrap().is_none());
    let message = invalid(decimal(Some("12x"), "price").unwrap_err());
    assert!(message.starts_with("invalid value in field \"price\": \"12x\" ("), "{message}");
    assert_eq!(invalid(amount(" ", "the monthly saving").unwrap_err()), "the monthly saving is required");
    assert_eq!(amount("3", "x").unwrap().mantissa(), 3);
}

#[test]
fn a_ratio_and_a_step_must_be_positive() {
    assert_eq!(parse_ratio(" 2 ", "ratio").unwrap().mantissa(), 2);
    assert_eq!(invalid(parse_ratio("0", "ratio").unwrap_err()), "ratio must be greater than zero");
    assert!(invalid(parse_ratio("two", "ratio").unwrap_err()).starts_with("invalid ratio \"two\": "));
    assert!(parse_step(None).unwrap().is_none());
    assert!(parse_step(Some(" ")).unwrap().is_none());
    assert_eq!(parse_step(Some("0.001")).unwrap().unwrap().scale(), 3);
    assert_eq!(
        invalid(parse_step(Some("-1")).unwrap_err()),
        "the quantity step must be greater than zero"
    );
}

#[test]
fn a_date_is_read_in_the_wire_format() {
    assert_eq!(parse_date("2024-02-29").unwrap(), Date::from_ymd(2024, 2, 29).unwrap());
    assert!(invalid(parse_date("2023-02-29").unwrap_err()).starts_with("invalid date \"2023-02-29\": "));
    assert!(parse_date("29.02.2024").is_err());
}

#[test]
fn the_previous_window_is_as_long_and_ends_the_day_before() {
    let from = Date::from_ymd(2024, 3, 1).unwrap();
    let to = Date::from_ymd(2024, 3, 31).unwrap();
    let (a, b) = previous_window(from, to);
    assert_eq!(b, Date::from_ymd(2024, 2, 29).unwrap());
    assert_eq!(a, Date::from_ymd(2024, 1, 30).unwrap());
}
