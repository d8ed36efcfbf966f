use sq_app::error::UiError;
use sq_app::vault::{
    aad, account_for, check_password, create, recalled_key, unlock, unlock_with, Cost, VaultFile,
    MIN_PASSWORD,
};
use std::collections::BTreeMap;

/// The tests derive many keys; the arithmetic is the same at any cost.
fn light() -> Cost {
    Cost { m_kib: 1024, t: 1, p: 1 }
}

fn keys(pairs: &[(&str, &str)]) -> Vec<u8> {
    let map: BTreeMap<String, String> =
        pairs.iter().map(|(k, v)| (k.to_string(), v.to_string())).collect();
    serde_json::to_vec(&map).unwrap()
}

fn read_keys(json: &[u8]) -> BTreeMap<String, String> {
    serde_json::from_slice(json).unwrap()
}

fn file_text(file: &VaultFile) -> String {
    let mut all = String::new();
    for part in [
        &file.kdf.salt,
        &file.data_key.nonce,
        &file.data_key.data,
        &file.keys.nonce,
        &file.keys.data,
    ] {
        all.push_str(part);
        all.push('\n');
    }
    if let Some(db) = &file.db_key {
        all.push_str(&db.nonce);
        all.push_str(&db.data);
    }
    all
}

/// What goes in comes out with the right password, and nothing of it is readable in the file.
#[test]
fn keys_round_trip_and_are_not_on_disk_in_the_clear() {
    let (created, file) = create(
        false,
        "p1",
        "correct horse",
        keys(&[("openai", "sk-secret-123")]),
        &light(),
    )
    .unwrap();
    drop(created);

    let on_disk = file_text(&file);
    assert!(!on_disk.contains("sk-secret-123"));
    assert!(!on_disk.contains("correct horse"));

    let opened = unlock(&file, "p1", "correct horse").unwrap();
    assert_eq!(read_keys(opened.keys())["openai"], "sk-secret-123");
}

#[test]
fn a_wrong_password_is_its_own_error() {
    let (_, file) = create(false, "p1", "correct horse", keys(&[]), &light()).unwrap();
    let error = unlock(&file, "p1", "wrong horse!").err().unwrap();
    assert!(matches!(error, UiError::WrongPassword { .. }));
}

/// A vault copied into another profile's folder does not open there: the profile id is part
/// of what was sealed.
#[test]
fn a_vault_is_bound_to_its_profile() {
    let (_, file) = create(false, "p1", "correct horse", keys(&[]), &light()).unwrap();
    assert!(unlock(&file, "p2", "correct horse").is_err());
}

/// A new password opens the same keys; the old one no longer does. The data key is unchanged,
/// which is why a device that remembered it keeps working.
#[test]
fn changing_the_password_keeps_the_keys() {
    let (mut vault, file) = create(false, "p1", "first password", keys(&[]), &light()).unwrap();
    let next = keys(&[("anthropic", "sk-b")]);
    let file = vault.keys_file(&next, &file).unwrap();
    vault.keys_written(next);
    assert!(vault
        .change_password(&file, "not the password", "second password", &light())
        .is_err());
    let file = vault
        .change_password(&file, "first password", "second password", &light())
        .unwrap();
    let remembered = recalled_key(&vault.remembered_text()).unwrap();
    drop(vault);

    assert!(unlock(&file, "p1", "first password").is_err());
    assert_eq!(
        read_keys(unlock(&file, "p1", "second password").unwrap().keys())["anthropic"],
        "sk-b"
    );
    assert_eq!(
        read_keys(unlock_with(&file, "p1", remembered).unwrap().keys())["anthropic"],
        "sk-b"
    );
}

/// The database key comes back the same after every unlock and survives a password change: a
/// different one would leave the encrypted database unreadable.
#[test]
fn the_database_key_is_stable() {
    let (vault, file) = create(false, "p1", "first password", keys(&[]), &light()).unwrap();
    let key = vault.db_key().unwrap();
    let file = vault
        .change_password(&file, "first password", "second password", &light())
        .unwrap();
    drop(vault);
    assert_eq!(
        unlock(&file, "p1", "second password").unwrap().db_key().unwrap(),
        key
    );
}

/// A vault written before databases were encrypted gets its key on first use, once.
#[test]
fn an_older_vault_gains_a_database_key() {
    let (_, mut file) = create(false, "p1", "long enough", keys(&[]), &light()).unwrap();
    file.db_key = None;

    let mut open = unlock(&file, "p1", "long enough").unwrap();
    assert!(open.db_key().is_none());
    let (key, file) = open.fresh_db_key(&file).unwrap();
    open.db_key_written(key);
    assert_eq!(open.db_key().unwrap(), key, "created once");
    drop(open);
    assert_eq!(unlock(&file, "p1", "long enough").unwrap().db_key().unwrap(), key);
}

#[test]
fn short_passwords_and_a_second_vault_are_refused() {
    assert!(create(false, "p1", "short", keys(&[]), &light()).is_err());
    assert!(create(false, "p1", "long enough", keys(&[]), &light()).is_ok());
    assert!(create(true, "p1", "long enough", keys(&[]), &light()).is_err());
}

#[test]
fn a_password_is_counted_in_characters() {
    assert_eq!(MIN_PASSWORD, 8);
    assert!(check_password("ääääääää").is_ok());
    assert!(check_password("äääääää").is_err());
    match check_password("seven77") {
        Err(UiError::Invalid { message }) => {
            assert_eq!(message, "the password is shorter than eight characters")
        }
        other => panic!("{other:?}"),
    }
}

#[test]
fn a_file_of_another_version_is_not_read() {
    let (_, mut file) = create(false, "p1", "long enough", keys(&[]), &light()).unwrap();
    file.version = 2;
    match unlock(&file, "p1", "long enough").err().unwrap() {
        UiError::Internal { message } => assert_eq!(message, "vault version 2 is unknown"),
        other => panic!("{other:?}"),
    }
}

#[test]
fn a_sealed_blob_is_bound_to_its_purpose() {
    assert_eq!(aad("keys", "p1"), b"stonqs/vault/v1/keys/p1".to_vec());
    // the data key sealed in the keys' field is the wrong key for them
    let (_, mut file) = create(false, "p1", "long enough", keys(&[]), &light()).unwrap();
    file.keys = sq_app::vault::Sealed {
        nonce: file.db_key.as_ref().unwrap().nonce.clone(),
        data: file.db_key.as_ref().unwrap().data.clone(),
    };
    assert!(matches!(
        unlock(&file, "p1", "long enough").err().unwrap(),
        UiError::WrongPassword { .. }
    ));
}

#[test]
fn a_remembered_key_reads_back_and_a_bad_one_is_refused() {
    assert_eq!(account_for("p1"), "profile:p1");
    assert!(recalled_key("not base64!").is_err());
    // sixteen bytes are not a data key
    assert!(recalled_key("AAAAAAAAAAAAAAAAAAAAAA==").is_err());
    let (vault, _) = create(false, "p1", "long enough", keys(&[]), &light()).unwrap();
    let text = vault.remembered_text();
    assert_eq!(text.len(), 44);
    assert!(recalled_key(&text).is_ok());
}

#[test]
fn a_cost_too_small_for_argon2_is_an_internal_error() {
    let cost = Cost { m_kib: 4, t: 1, p: 1 };
    assert!(matches!(
        create(false, "p1", "long enough", keys(&[]), &cost).err().unwrap(),
        UiError::Internal { .. }
    ));
    let standard = Cost::standard();
    assert_eq!((standard.m_kib, standard.t, standard.p), (65536, 3, 1));
}

/// A file whose lane count would overflow Argon2's parameter check is refused, not a panic.
#[test]
fn an_impossible_lane_count_is_refused() {
    let (_, mut file) = create(false, "p1", "correct horse", keys(&[]), &light()).unwrap();
    file.kdf.p = u32::MAX;
    assert!(matches!(unlock(&file, "p1", "correct horse"), Err(UiError::Internal { .. })));
    let (open, file) = create(false, "p1", "correct horse", keys(&[]), &light()).unwrap();
    let mut bad = file;
    bad.kdf.p = 0x2000_0000;
    assert!(matches!(
        open.change_password(&bad, "correct horse", "battery staple", &light()),
        Err(_)
    ));
}
