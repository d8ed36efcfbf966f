use sq_app::error::UiError;
use sq_app::profiles::{folder_of, legacy_files, Profile, Profiles, Registry, ADOPTED_ID};

fn same(a: &Profile, b: &Profile) -> bool {
    a.id == b.id && a.name == b.name && a.created_at == b.created_at
}

/// A single-profile install keeps its data: an empty list gains the first profile under the
/// fixed id its files move to.
#[test]
fn existing_data_becomes_the_first_profile() {
    let profiles = Profiles::new("/data".to_string());
    let mut registry = Registry::new();
    let first = profiles.ensure(&mut registry, "Default");
    assert_eq!(first.id, ADOPTED_ID);
    assert_eq!(first.name, "Default");
    assert_eq!(registry.last.as_deref(), Some(ADOPTED_ID));
    assert_eq!(
        std::path::Path::new(&profiles.db_path(ADOPTED_ID)),
        std::path::Path::new("/data/profiles/default/portfolio.db")
    );
    assert_eq!(
        std::path::Path::new(&folder_of(&profiles.db_path(ADOPTED_ID))).join("settings.json"),
        std::path::Path::new("/data/profiles/default/settings.json")
    );
    assert_eq!(legacy_files().len(), 6);
    assert!(legacy_files().contains(&"settings.json"));

    // A second start changes nothing.
    let again = profiles.ensure(&mut registry, "Default");
    assert!(same(&again, &first));
    assert_eq!(profiles.list(&registry).len(), 1);
}

/// The last profile opened is the one the next start opens.
#[test]
fn the_last_opened_profile_is_reopened() {
    let profiles = Profiles::new("/data".to_string());
    let mut registry = Registry::new();
    profiles.ensure(&mut registry, "Default");
    let second = profiles.create(&mut registry, "Family").unwrap();
    assert_eq!(
        profiles.ensure(&mut registry, "Default").id,
        ADOPTED_ID,
        "creating does not open"
    );

    profiles.set_last(&mut registry, &second.id);
    assert!(same(&profiles.ensure(&mut registry, "Default"), &second));
}

#[test]
fn names_are_trimmed_and_unique() {
    let profiles = Profiles::new("/data".to_string());
    let mut registry = Registry::new();
    profiles.ensure(&mut registry, "Default");
    assert!(profiles.create(&mut registry, "   ").is_err());
    assert!(
        profiles.create(&mut registry, " default ").is_err(),
        "case-insensitive duplicate"
    );
    let family = profiles.create(&mut registry, "  Family ").unwrap();
    assert_eq!(family.name, "Family");
    assert!(
        profiles.rename(&mut registry, &family.id, "Family").is_ok(),
        "its own name is not taken"
    );
}

/// The open profile and the last one are refused; anything else leaves the list.
#[test]
fn delete_refuses_the_open_and_the_last() {
    let profiles = Profiles::new("/data".to_string());
    let mut registry = Registry::new();
    let first = profiles.ensure(&mut registry, "Default");
    assert!(
        profiles.delete(&mut registry, &first.id, "elsewhere").is_err(),
        "the last one stays"
    );

    let second = profiles.create(&mut registry, "Family").unwrap();
    assert!(
        profiles.delete(&mut registry, &second.id, &second.id).is_err(),
        "the open one stays"
    );
    profiles.delete(&mut registry, &second.id, &first.id).unwrap();
    let left = profiles.list(&registry);
    assert_eq!(left.len(), 1);
    assert!(same(&left[0], &first));
    assert!(profiles.find(&registry, &second.id).is_err());
}

#[test]
fn a_new_profile_gets_a_random_uuid_and_is_found_by_it() {
    let profiles = Profiles::new("/data".to_string());
    let mut registry = Registry::new();
    profiles.ensure(&mut registry, "Default");
    let a = profiles.create(&mut registry, "A").unwrap();
    let b = profiles.create(&mut registry, "B").unwrap();
    assert_ne!(a.id, b.id);
    assert_eq!(a.id.len(), 36);
    assert_eq!(&a.id[8..9], "-");
    assert!(same(&profiles.find(&registry, &b.id).unwrap(), &b));
    match profiles.find(&registry, "nope") {
        Err(UiError::NotFound { message }) => assert_eq!(message, "profile nope"),
        other => panic!("{other:?}"),
    }
}

#[test]
fn a_long_name_is_cut_and_a_rename_keeps_the_id() {
    let profiles = Profiles::new("/data".to_string());
    let mut registry = Registry::new();
    profiles.ensure(&mut registry, "Default");
    let long = "x".repeat(70);
    let p = profiles.create(&mut registry, &long).unwrap();
    assert_eq!(p.name.chars().count(), 60);
    let renamed = profiles.rename(&mut registry, &p.id, "  Shorter ").unwrap();
    assert_eq!(renamed.id, p.id);
    assert_eq!(renamed.name, "Shorter");
    assert_eq!(profiles.find(&registry, &p.id).unwrap().name, "Shorter");
    match profiles.rename(&mut registry, "nope", "Other") {
        Err(UiError::NotFound { message }) => assert_eq!(message, "profile nope"),
        other => panic!("{other:?}"),
    }
    match profiles.rename(&mut registry, &p.id, "DEFAULT") {
        Err(UiError::Invalid { message }) => assert_eq!(message, "another profile has this name"),
        other => panic!("{other:?}"),
    }
}

#[test]
fn a_forgotten_last_profile_opens_the_first() {
    let profiles = Profiles::new("/data".to_string());
    let mut registry = Registry::new();
    profiles.ensure(&mut registry, "Default");
    profiles.set_last(&mut registry, "gone");
    assert_eq!(profiles.ensure(&mut registry, "Default").id, ADOPTED_ID);
}

/// A name of white space alone is no name, whatever kind of white space it is.
#[test]
fn a_blank_name_is_refused() {
    let profiles = Profiles::new("/data".to_string());
    let mut registry = Registry::new();
    for blank in ["   ", "\t\n", "\u{a0}\u{3000}"] {
        match profiles.create(&mut registry, blank) {
            Err(UiError::Invalid { message }) => assert_eq!(message, "a profile needs a name"),
            _ => panic!("a blank name was taken"),
        }
    }
    assert!(registry.profiles.is_empty());
}
