use sq_app::dates::{Date, DateRange};
use sq_app::refresh::{
    announces_quotes, fatal, index_due, panicked, records_refresh_time, sparse_history, start_from,
    Failure, FailureCause, FailureCode, Fetch, Progress, RefreshMode, RefreshStatus, Relisting, Run,
};

fn d(y: i32, m: u32, day: u32) -> Date {
    Date::from_ymd(y, m, day).unwrap()
}

/// A catch-up asks from where the series ends, so a hole older than the series is one no
/// later refresh closes by itself: importing five years of history into a database that only
/// ever held this year's has to widen the window back to the first operation.
#[test]
fn a_window_widens_back_to_the_first_operation_it_does_not_reach() {
    let today = d(2026, 9, 22);
    let stored = Some(d(2025, 1, 2));
    let first = Some(d(2019, 3, 4));

    assert_eq!(
        start_from(RefreshMode::CatchUp, Some(d(2026, 9, 19)), today, stored, first),
        d(2019, 3, 4)
    );
    // Already reaching back far enough: the mode's own three-day correction window stands.
    assert_eq!(
        start_from(
            RefreshMode::CatchUp,
            Some(d(2026, 9, 19)),
            today,
            Some(d(2018, 1, 1)),
            first
        ),
        d(2026, 9, 16)
    );
    // Nothing stored and nothing held: the five-year default, unchanged.
    assert_eq!(
        start_from(RefreshMode::Missing, None, today, None, None),
        today.minus_days(365 * 5)
    );
}

/// The symptom of a ticker on a venue the source does not quote: the request is answered, but
/// with today's price alone. A short holding and a late listing are not that.
#[test]
fn a_series_covering_a_sliver_of_the_holding_is_sparse() {
    let today = d(2026, 9, 22);
    let held = Some(d(2021, 9, 1));
    let one_day = |day: Date| Some(DateRange { from: day, to: day });

    assert!(sparse_history(held, None, today));
    assert!(sparse_history(held, one_day(d(2026, 9, 22)), today));
    // Two of the five years held is a listing that started later, not a broken ticker.
    assert!(!sparse_history(held, Some(DateRange { from: d(2024, 9, 1), to: today }), today));
    // Bought last week: nothing can be said about a series yet.
    assert!(!sparse_history(Some(d(2026, 9, 15)), one_day(today), today));
    // Never traded: there is no holding to measure the series against.
    assert!(!sparse_history(None, None, today));
}

#[test]
fn a_full_refresh_always_reaches_five_years_back() {
    let today = d(2026, 9, 22);
    assert_eq!(
        start_from(RefreshMode::Full, Some(d(2026, 9, 19)), today, None, None),
        today.minus_days(1825)
    );
    // a catch-up long after the last quote still stops at five years
    assert_eq!(
        start_from(RefreshMode::CatchUp, Some(d(2001, 1, 1)), today, None, None),
        today.minus_days(1825)
    );
}

#[test]
fn a_refresh_runs_once_and_a_missing_fetch_waits_for_it() {
    let mut status = RefreshStatus::new();
    assert!(!status.queue_missing());
    assert!(status.begin());
    assert!(!status.begin(), "one refresh at a time");
    assert!(status.queue_missing());
    status.apply(&Progress::Started { total: 3 });
    assert_eq!(status.total, 3);
    status.apply(&Progress::Item { label: "AAPL".to_string(), done: 1, total: 3, fetched: 1 });
    assert_eq!(status.label.as_deref(), Some("AAPL"));
    let (queued, end) = status.finish(
        fatal(FailureCode::Quote, FailureCause::Unreachable, "timeout".to_string()),
        false,
        "2026-09-22T10:00:00+00:00".to_string(),
    );
    assert!(queued);
    assert!(!status.running);
    assert_eq!(status.failures.len(), 1);
    assert_eq!(status.last_finished.as_deref(), Some("2026-09-22T10:00:00+00:00"));
    assert!(matches!(end, Progress::Finished { fetched: 0, cancelled: false, .. }));
}

#[test]
fn a_missing_fetch_keeps_the_last_refresh_it_did_not_replace() {
    let mut status = RefreshStatus::new();
    status.begin();
    status.finish(panicked(), false, "t1".to_string());
    assert_eq!(status.failures.len(), 1);
    status.begin();
    let quiet = sq_app::refresh::Outcome { fetched: 2, failed: Vec::new(), cancelled: false, relisted: 0 };
    status.finish(quiet, true, "t2".to_string());
    assert_eq!(status.last_finished.as_deref(), Some("t1"));
    assert_eq!(status.failures.len(), 1, "the failures of the last real refresh stay");
    assert!(announces_quotes(true, 2));
    assert!(!announces_quotes(true, 0));
    assert!(records_refresh_time(false, false, true));
    assert!(!records_refresh_time(false, false, false));
}

#[test]
fn the_price_index_is_fetched_when_a_month_is_missing() {
    let current = d(2026, 8, 1);
    assert!(index_due(RefreshMode::CatchUp, None, current));
    assert!(index_due(RefreshMode::CatchUp, Some(d(2026, 7, 1)), current));
    assert!(!index_due(RefreshMode::CatchUp, Some(d(2026, 8, 1)), current));
    assert!(index_due(RefreshMode::Full, Some(d(2026, 8, 1)), current));
}

#[test]
fn a_sparse_instrument_moves_only_to_another_ticker() {
    assert!(sq_app::refresh::looks_for_venue(true, true, true));
    assert!(!sq_app::refresh::looks_for_venue(false, true, true));
    assert!(matches!(sq_app::refresh::relisting(Err(()), false, "ABC"), Relisting::Keep));
    assert!(matches!(sq_app::refresh::relisting(Ok(None), false, "ABC"), Relisting::Retire));
    assert!(matches!(sq_app::refresh::relisting(Ok(None), true, "ABC"), Relisting::Keep));
    assert!(matches!(
        sq_app::refresh::relisting(Ok(Some(Some("abc".to_string()))), true, "ABC"),
        Relisting::Keep
    ));
    match sq_app::refresh::relisting(Ok(Some(Some("abc.de".to_string()))), true, "ABC") {
        Relisting::MoveTo(s) => assert_eq!(s, "ABC.DE"),
        _ => panic!("no move"),
    }
    assert_eq!(sq_app::refresh::pair_label("USD", "EUR"), "USD/EUR");
}

fn failure(code: FailureCode, subject: &str) -> Failure {
    Failure { code, cause: FailureCause::Other, subject: subject.to_string(), detail: "down".to_string(), source: None }
}

/// A run counts what each item saved, keeps each failure in order and reports its totals.
#[test]
fn a_run_counts_as_it_goes() {
    let symbols = vec!["US0378331005".to_string(), "DE0007164600".to_string()];
    let mut run = Run::new(false, &symbols);
    assert_eq!(run.failed.len(), 1);
    assert_eq!(run.failed[0].code, FailureCode::Unidentified);
    assert_eq!(run.failed[0].subject, "US0378331005, DE0007164600");
    assert!(matches!(run.start(3), Some(Progress::Started { total: 3 })));
    match run.item("AAPL".to_string(), Fetch::Saved(10), None) {
        Progress::Item { label, done, total, fetched } => {
            assert_eq!((label.as_str(), done, total, fetched), ("AAPL", 1, 3, 10));
        }
        _ => panic!("an item reports an item"),
    }
    run.item("SAP".to_string(), Fetch::Failed(failure(FailureCode::Quote, "SAP")), Some(4));
    match run.item("USD/EUR".to_string(), Fetch::Saved(2), None) {
        Progress::Item { done, fetched, .. } => assert_eq!((done, fetched), (3, 16)),
        _ => panic!("an item reports an item"),
    }
    run.index(1, Some(failure(FailureCode::Index, "DE")));
    let out = run.outcome(false);
    assert_eq!(out.fetched, 17);
    assert_eq!(out.relisted, 1);
    assert!(!out.cancelled);
    let codes: Vec<FailureCode> = out.failed.iter().map(|f| f.code).collect();
    assert_eq!(codes, vec![FailureCode::Unidentified, FailureCode::Quote, FailureCode::Index]);
}

/// A fetch of what is missing leaves the unidentified be and, with nothing to do, reports nothing.
#[test]
fn a_missing_fetch_with_nothing_to_do_reports_nothing() {
    let symbols = vec!["US0378331005".to_string()];
    let mut run = Run::new(true, &symbols);
    assert!(run.failed.is_empty());
    assert!(run.start(0).is_none());
    let out = run.outcome(true);
    assert!(out.cancelled);
    assert_eq!(out.fetched, 0);
    let mut full = Run::new(false, &Vec::new());
    assert!(full.failed.is_empty());
    assert!(matches!(full.start(0), Some(Progress::Started { total: 0 })));
}
