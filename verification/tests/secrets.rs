use sq_app::error::UiError;
use sq_app::profiles::{Profiles, Registry};
use sq_app::secrets::{
    inherits_device_keys, key_for_call, key_place, key_save_allowed, lock_allowed, locked,
    password_action, KeyPlace, PasswordAction,
};
use sq_app::vault::no_vault;

#[test]
fn only_the_first_profile_without_a_password_uses_the_device_keys() {
    assert!(inherits_device_keys("default", false));
    assert!(!inherits_device_keys("default", true));
    assert!(!inherits_device_keys("other", false));
}

#[test]
fn a_locked_profile_answers_nothing() {
    assert_eq!(key_place(true, false, true).unwrap(), KeyPlace::Vault);
    assert!(matches!(key_place(false, true, true), Err(UiError::Locked { .. })));
    assert_eq!(key_place(false, false, true).unwrap(), KeyPlace::Device);
    assert_eq!(key_place(false, false, false).unwrap(), KeyPlace::Nowhere);
    assert!(matches!(key_save_allowed(false, true), Err(UiError::Locked { .. })));
    assert!(matches!(key_save_allowed(false, false), Err(UiError::PasswordRequired { .. })));
    assert!(key_save_allowed(true, false).is_ok());
    match locked() {
        UiError::Locked { message } => assert_eq!(message, "the profile is locked"),
        other => panic!("{other:?}"),
    }
}

#[test]
fn a_missing_key_is_an_error_except_for_the_custom_provider() {
    assert_eq!(key_for_call(Some("sk".to_string()), "openai", "custom").unwrap(), "sk");
    assert_eq!(key_for_call(None, "custom", "custom").unwrap(), "");
    assert!(matches!(key_for_call(None, "openai", "custom"), Err(UiError::Auth { .. })));
}

#[test]
fn a_password_is_changed_set_or_refused() {
    assert_eq!(password_action(true, true).unwrap(), PasswordAction::Change);
    assert_eq!(password_action(false, false).unwrap(), PasswordAction::Create);
    assert!(matches!(password_action(false, true), Err(UiError::Locked { .. })));
    assert!(lock_allowed(true).is_ok());
    assert!(matches!(lock_allowed(false), Err(UiError::PasswordRequired { .. })));
}

#[test]
fn no_vault_reads_as_password_required() {
    assert!(matches!(no_vault(), UiError::PasswordRequired { .. }));
}

#[test]
fn deleting_the_open_profile_moves_to_the_first_other() {
    let profiles = Profiles::new("/data".to_string());
    let mut registry = Registry::new();
    let first = profiles.ensure(&mut registry, "Default");
    assert!(profiles.next_after(&registry, &first.id).is_err());
    let second = profiles.create(&mut registry, "Family").unwrap();
    assert_eq!(profiles.next_after(&registry, &first.id).unwrap().id, second.id);
    assert_eq!(profiles.next_after(&registry, &second.id).unwrap().id, first.id);
}
