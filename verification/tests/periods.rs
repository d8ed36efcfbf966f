use sq_app::dates::Date;
use sq_app::error::UiError;
use sq_app::periods::{builtin_presets, check_period, period_delete, remaining_after, PeriodSettings, UserPeriod};

fn texts(v: &[&str]) -> Vec<String> {
    v.iter().map(|s| s.to_string()).collect()
}

fn axis(hidden: &[&str], own: &[&str]) -> PeriodSettings<u32> {
    PeriodSettings {
        periods: own
            .iter()
            .enumerate()
            .map(|(k, id)| UserPeriod { id: id.to_string(), name: format!("period {k}"), spec: k as u32 })
            .collect(),
        hidden_presets: texts(hidden),
    }
}

fn own_ids(s: &PeriodSettings<u32>) -> Vec<String> {
    s.periods.iter().map(|p| p.id.clone()).collect()
}

/// Seven shipped presets, minus the ones already hidden, minus the one being removed.
#[test]
fn hiding_a_preset_leaves_the_others() {
    let none: Vec<String> = Vec::new();
    assert_eq!(remaining_after(&none, &none, "YTD"), 6);
    assert_eq!(remaining_after(&none, &none, "p-mine"), 7);

    let thinned = texts(&["ONE_MONTH", "THREE_MONTHS"]);
    assert_eq!(remaining_after(&thinned, &none, "YTD"), 4);
}

/// The last preset is only removable while a period of the user's own stands in for it.
#[test]
fn the_strip_cannot_be_emptied() {
    let hidden: Vec<String> = builtin_presets().iter().skip(1).map(|s| s.to_string()).collect();
    let none: Vec<String> = Vec::new();
    assert_eq!(remaining_after(&hidden, &none, "ONE_MONTH"), 0);

    let own = texts(&["p-mine"]);
    assert_eq!(remaining_after(&hidden, &own, "ONE_MONTH"), 1);
    assert_eq!(remaining_after(&hidden, &own, "p-mine"), 1);
}

#[test]
fn deleting_hides_a_preset_and_drops_an_own_period() {
    let mut s = axis(&[], &["p-mine"]);
    let preset = period_delete(&mut s, "YTD").unwrap();
    assert!(preset.hide_preset);
    assert!(!preset.drop_own);
    assert_eq!(s.hidden_presets, texts(&["YTD"]));
    assert_eq!(own_ids(&s), texts(&["p-mine"]));

    let mut s = axis(&[], &["p-mine"]);
    let mine = period_delete(&mut s, "p-mine").unwrap();
    assert!(mine.drop_own);
    assert!(!mine.hide_preset);
    assert!(s.periods.is_empty());
    assert!(s.hidden_presets.is_empty());

    // a preset already hidden is not written down twice
    let mut s = axis(&["YTD"], &["p-mine"]);
    assert!(!period_delete(&mut s, "YTD").unwrap().hide_preset);
    assert_eq!(s.hidden_presets, texts(&["YTD"]));

    let all_but_one: Vec<String> = builtin_presets().iter().skip(1).map(|s| s.to_string()).collect();
    let mut s = PeriodSettings::<u32> { periods: Vec::new(), hidden_presets: all_but_one.clone() };
    match period_delete(&mut s, "ONE_MONTH") {
        Err(UiError::Invalid { message }) => assert_eq!(message, "the period strip cannot be left empty"),
        _ => panic!("the last period was removable"),
    }
    assert_eq!(s.hidden_presets, all_but_one);
}

/// Every own period with the id goes, the others stay in their order with what they carry.
#[test]
fn deleting_an_own_period_keeps_the_rest_in_order() {
    let mut s = axis(&[], &["a", "b", "a", "c"]);
    period_delete(&mut s, "a").unwrap();
    assert_eq!(own_ids(&s), texts(&["b", "c"]));
    assert_eq!(s.periods[0].spec, 1);
    assert_eq!(s.periods[1].spec, 3);
    assert_eq!(s.periods[1].name, "period 3");
}

#[test]
fn a_period_needs_a_name_an_id_of_its_own_and_a_forward_window() {
    assert_eq!(check_period("  Holiday ", "p-1", None).unwrap(), "Holiday");
    assert!(check_period("  ", "p-1", None).is_err());
    assert!(check_period("Holiday", " ", None).is_err());
    match check_period("Holiday", "YTD", None) {
        Err(UiError::Invalid { message }) => assert_eq!(message, "that id belongs to a shipped preset"),
        _ => panic!("a shipped id was taken"),
    }
    let from = Date::from_ymd(2024, 3, 1).unwrap();
    let to = Date::from_ymd(2024, 2, 1).unwrap();
    assert!(check_period("Holiday", "p-1", Some((from, Some(to)))).is_err());
    assert!(check_period("Holiday", "p-1", Some((to, Some(from)))).is_ok());
    assert!(check_period("Holiday", "p-1", Some((from, None))).is_ok());
}
