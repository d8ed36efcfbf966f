use sq_app::settings::{
    market_source_switch, source_account,
    ai_provider_default, ai_web_search_default, migrate, path_for, system_language, CatalogSource,
    AppSettings, RefreshSchedule, SourceChoices, SETTINGS_VERSION,
};
use sq_app::profiles::folder_of;
use sq_app::scope::ScopeKind;

fn catalog() -> Vec<CatalogSource> {
    vec![
        CatalogSource { id: "yahoo".to_string(), on_by_default: false },
        CatalogSource { id: "kraken".to_string(), on_by_default: false },
        CatalogSource { id: "ecb".to_string(), on_by_default: true },
        CatalogSource { id: "stooq".to_string(), on_by_default: false },
    ]
}

const ON_BEFORE: [&str; 2] = ["yahoo", "kraken"];

fn switch(choices: &SourceChoices, id: &str) -> Option<bool> {
    choices.market_sources.iter().find(|(k, _)| k == id).map(|(_, on)| *on)
}

/// A file from before the sources were chosen keeps fetching what it fetched: its defaults are
/// written down before the catalogue stops meaning them, and its owner counts as having chosen.
#[test]
fn an_older_file_keeps_the_sources_it_had() {
    let stored = SourceChoices { version: 0, market_sources: Vec::new(), sources_configured: false };
    assert_eq!(stored.version, 0);

    let mut migrated = stored;
    migrate(&mut migrated, &catalog(), &ON_BEFORE);
    assert!(migrated.sources_configured);
    assert_eq!(migrated.version, SETTINGS_VERSION);
    assert_eq!(switch(&migrated, "yahoo"), Some(true));
    assert_eq!(switch(&migrated, "kraken"), Some(true));
    assert_eq!(switch(&migrated, "ecb"), Some(true));
    assert_eq!(switch(&migrated, "stooq"), Some(false));
}

/// A switch the owner made themselves is what it was: the migration fills silence, never a
/// recorded answer.
#[test]
fn a_recorded_switch_survives_the_migration() {
    let mut settings = SourceChoices {
        version: 0,
        market_sources: vec![("yahoo".to_string(), false)],
        sources_configured: false,
    };
    migrate(&mut settings, &catalog(), &ON_BEFORE);
    assert_eq!(switch(&settings, "yahoo"), Some(false));
    assert_eq!(settings.market_sources.len(), 4);
}

/// A profile nobody has set up starts with the question unanswered.
#[test]
fn a_new_profile_has_chosen_nothing() {
    let fresh = SourceChoices::fresh();
    assert!(!fresh.sources_configured);
    assert_eq!(fresh.version, SETTINGS_VERSION);
    assert!(fresh.market_sources.is_empty());
}

#[test]
fn a_current_file_is_left_as_it_is() {
    let mut current = SourceChoices { version: 1, market_sources: Vec::new(), sources_configured: false };
    migrate(&mut current, &catalog(), &ON_BEFORE);
    assert!(current.market_sources.is_empty());
    assert!(!current.sources_configured);
}

#[test]
fn missing_fields_read_as_their_defaults() {
    assert_eq!(system_language(), "system");
    assert_eq!(ai_provider_default(), "openai");
    assert!(ai_web_search_default());
    assert_eq!(
        std::path::Path::new(&path_for("/data/profiles/p/portfolio.db")),
        std::path::Path::new("/data/profiles/p/settings.json")
    );
}

fn schedule(last: Option<&str>) -> RefreshSchedule {
    RefreshSchedule {
        auto_refresh_on_start: true,
        refresh_min_interval_hours: 6,
        last_refresh: last.map(|s| s.to_string()),
    }
}

#[test]
fn a_refresh_is_due_once_the_interval_has_passed() {
    // 2024-01-01T12:00:00Z
    let noon: i64 = 1_704_110_400;
    assert!(schedule(None).due(noon, 0));
    assert!(schedule(Some("not a time")).due(noon, 0));
    assert!(!schedule(Some("2024-01-01T07:00:00Z")).due(noon, 0));
    assert!(schedule(Some("2024-01-01T06:00:00Z")).due(noon, 0));
    // the stored time's offset counts: 08:00+02:00 is 06:00 UTC
    assert!(schedule(Some("2024-01-01T08:00:00+02:00")).due(noon, 0));
    assert!(!schedule(Some("2024-01-01T06:00:00.5Z")).due(noon, 0));
    let mut off = schedule(None);
    off.auto_refresh_on_start = false;
    assert!(!off.due(noon, 0));
}

#[test]
fn a_switch_back_to_the_default_is_forgotten() {
    let mut c = SourceChoices::fresh();
    market_source_switch(&mut c, &catalog(), "custom:", "stooq", true).unwrap();
    assert_eq!(switch(&c, "stooq"), Some(true));
    market_source_switch(&mut c, &catalog(), "custom:", "stooq", false).unwrap();
    assert_eq!(switch(&c, "stooq"), None);
    market_source_switch(&mut c, &catalog(), "custom:", "ecb", false).unwrap();
    assert_eq!(switch(&c, "ecb"), Some(false));
    market_source_switch(&mut c, &catalog(), "custom:", "custom:mine", false).unwrap();
    assert_eq!(switch(&c, "custom:mine"), Some(false));
    match market_source_switch(&mut c, &catalog(), "custom:", "nobody", true) {
        Err(sq_app::error::UiError::Invalid { message }) => assert_eq!(message, "unknown source nobody"),
        other => panic!("{other:?}"),
    }
    assert_eq!(source_account("ecb"), "market:ecb");
}

/// What a new profile's settings say, field by field.
#[test]
fn a_new_profile_starts_from_the_defaults() {
    let d = AppSettings::default();
    assert_eq!(d.version, SETTINGS_VERSION);
    assert!(!d.sources_configured);
    assert!(d.market_sources.is_empty());
    assert!(d.auto_refresh_on_start);
    assert_eq!(d.refresh_min_interval_hours, 6);
    assert!(d.last_refresh.is_none());
    assert_eq!(d.language, "system");
    assert_eq!(d.ai_provider, "openai");
    assert!(d.ai_web_search);
    assert!(!d.ai_enabled);
    assert!(!d.ai_reasoning);
    assert!(d.ui.is_none());
    assert!(d.scope.kind == ScopeKind::Portfolio && d.scope.id.is_none());
    assert!(d.hidden_presets.is_empty() && d.ai_models.is_empty() && d.ai_extra_models.is_empty());
    let s = d.schedule();
    assert!(s.auto_refresh_on_start && s.refresh_min_interval_hours == 6 && s.last_refresh.is_none());
}

/// The interval only has to be one `chrono` can count where it is measured.
#[test]
fn an_unmeasured_interval_may_be_anything() {
    let noon: i64 = 1_704_110_400;
    let mut off = schedule(Some("2024-01-01T07:00:00Z"));
    off.auto_refresh_on_start = false;
    off.refresh_min_interval_hours = i64::MAX;
    assert_eq!(off.checked_due(noon, 0), Some(false));
    assert!(!off.due(noon, 0));
    let mut never = schedule(None);
    never.refresh_min_interval_hours = i64::MIN;
    assert_eq!(never.checked_due(noon, 0), Some(true));
    let mut unreadable = schedule(Some("yesterday"));
    unreadable.refresh_min_interval_hours = i64::MAX;
    assert_eq!(unreadable.checked_due(noon, 0), Some(true));
    let mut measured = schedule(Some("2024-01-01T07:00:00Z"));
    measured.refresh_min_interval_hours = i64::MAX;
    assert_eq!(measured.checked_due(noon, 0), None);
    assert_eq!(schedule(Some("2024-01-01T06:00:00Z")).checked_due(noon, 0), Some(true));
}

/// The settings sit beside the database, in the profile's folder.
#[test]
fn the_settings_sit_beside_the_database() {
    let db = "/data/profiles/p/portfolio.db";
    let beside = std::path::Path::new(&folder_of(db)).join("settings.json");
    assert_eq!(std::path::Path::new(&path_for(db)), beside.as_path());
}

/// A new profile's settings ask for a refresh at once; the interval counts once one has run.
#[test]
fn a_new_profile_refreshes_at_once() {
    let noon: i64 = 1_704_110_400;
    let mut d = AppSettings::default();
    assert!(d.due(noon, 0));
    d.last_refresh = Some("2024-01-01T07:00:00Z".to_string());
    assert!(!d.due(noon, 0));
    assert_eq!(d.checked_due(noon, 0), Some(false));
    d.refresh_min_interval_hours = i64::MIN;
    assert_eq!(d.checked_due(noon, 0), None);
}

/// A source listed twice counts as the map the file reads would have it: the later entry. A
/// switch replaces every entry of its source.
#[test]
fn a_source_listed_twice_is_switched_once() {
    let mut c = SourceChoices {
        version: SETTINGS_VERSION,
        market_sources: vec![("yahoo".to_string(), false), ("kraken".to_string(), true), ("yahoo".to_string(), true)],
        sources_configured: true,
    };
    market_source_switch(&mut c, &catalog(), "custom:", "yahoo", false).unwrap();
    let yahoo: Vec<bool> = c.market_sources.iter().filter(|(id, _)| id == "yahoo").map(|(_, on)| *on).collect();
    assert!(yahoo.len() <= 1);
    let mut old = SourceChoices {
        version: 0,
        market_sources: vec![("yahoo".to_string(), false), ("yahoo".to_string(), false)],
        sources_configured: false,
    };
    migrate(&mut old, &catalog(), &ON_BEFORE);
    assert_eq!(old.version, SETTINGS_VERSION);
    assert!(old.sources_configured);
}
