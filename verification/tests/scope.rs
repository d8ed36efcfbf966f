use sq_app::error::UiError;
use sq_app::scope::{scope_count, DataScope, ScopeKind, ScopeLookup};

fn texts(v: &[&str]) -> Vec<String> {
    v.iter().map(|s| s.to_string()).collect()
}

fn scope(kind: ScopeKind, id: Option<&str>) -> DataScope {
    DataScope { kind, id: id.map(|s| s.to_string()) }
}

#[test]
fn a_scope_covers_only_accounts_of_the_portfolio() {
    let portfolio = texts(&["cash", "depot", "savings"]);
    let groups = vec![("g1".to_string(), texts(&["savings", "elsewhere", "cash"]))];
    let accounts = vec![
        ("depot".to_string(), "cash".to_string()),
        ("cash".to_string(), "cash".to_string()),
    ];
    assert_eq!(DataScope::portfolio().apply(&portfolio, &groups, &accounts), portfolio);
    assert_eq!(
        scope(ScopeKind::Group, Some("g1")).apply(&portfolio, &groups, &accounts),
        texts(&["cash", "savings"])
    );
    assert_eq!(
        scope(ScopeKind::Account, Some("depot")).apply(&portfolio, &groups, &accounts),
        texts(&["depot"])
    );
    assert_eq!(
        scope(ScopeKind::AccountWithCash, Some("depot")).apply(&portfolio, &groups, &accounts),
        texts(&["cash", "depot"])
    );
    // a selection nothing answers to is the whole portfolio
    assert_eq!(scope(ScopeKind::Group, Some("g9")).apply(&portfolio, &groups, &accounts), portfolio);
    assert_eq!(scope(ScopeKind::Account, Some("other")).apply(&portfolio, &groups, &accounts), portfolio);
    assert_eq!(scope(ScopeKind::Account, None).apply(&portfolio, &groups, &accounts), portfolio);
    assert_eq!(scope_count(&portfolio, &groups[0].1), 2);
}

#[test]
fn a_selection_without_an_id_is_refused() {
    assert!(matches!(DataScope::portfolio().lookup(), Ok(ScopeLookup::Nothing)));
    assert!(matches!(scope(ScopeKind::Group, Some("g1")).lookup(), Ok(ScopeLookup::Group(g)) if g == "g1"));
    assert!(matches!(scope(ScopeKind::AccountWithCash, Some("a")).lookup(), Ok(ScopeLookup::Account(a)) if a == "a"));
    match scope(ScopeKind::Account, None).lookup() {
        Err(UiError::Invalid { message }) => assert_eq!(message, "no account or group selected"),
        other => panic!("{other:?}"),
    }
}
