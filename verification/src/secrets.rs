//! Where the open profile's provider keys are, in each of its three states: a profile without a
//! password (no key can be saved, except that the first profile still uses the device-wide keys
//! it had before passwords existed), a protected profile that is locked, and a protected profile
//! that is open (its keys come from the vault in memory). The host holds the state and the
//! keychain; which of them answers, and what is refused, is decided here.

use vstd::prelude::*;
use crate::error::UiError;
use crate::profiles::ADOPTED_ID;
use crate::text::{owned, same_text};

verus! {

pub open spec fn locked_message() -> Seq<char> {
    "the profile is locked"@
}

/// The answer to anything a locked profile is asked for.
pub fn locked() -> (e: UiError)
    ensures
        e is Locked && e.message_of() == locked_message(),
{
    UiError::Locked { message: owned("the profile is locked") }
}

/// Only the profile a single-profile install became, and only until it has a password: the
/// device-wide keys were that install's, and no other profile ever saw them.
pub fn inherits_device_keys(profile: &str, protected: bool) -> (r: bool)
    ensures
        r == (profile@ == ADOPTED_ID@ && !protected),
{
    same_text(profile, ADOPTED_ID) && !protected
}

/// Where a profile's keys are read from.
#[derive(Debug, Clone, Copy, PartialEq, Eq, Structural)]
pub enum KeyPlace {
    /// The open vault.
    Vault,
    /// The device-wide keychain entries the first profile had before passwords existed.
    Device,
    /// Nowhere: this profile has no keys.
    Nowhere,
}

/// Where a key is looked for: the open vault; a locked profile answers nothing; the first
/// profile without a password uses the device's keys; any other profile without a password has
/// none.
pub fn key_place(open: bool, is_locked: bool, inherits: bool) -> (r: Result<KeyPlace, UiError>)
    ensures
        open ==> r == Ok::<KeyPlace, UiError>(KeyPlace::Vault),
        !open && is_locked ==> r is Err && r->Err_0 is Locked && r->Err_0.message_of() == locked_message(),
        !open && !is_locked ==> r == Ok::<KeyPlace, UiError>(if inherits { KeyPlace::Device } else { KeyPlace::Nowhere }),
{
    if open {
        Ok(KeyPlace::Vault)
    } else if is_locked {
        Err(locked())
    } else if inherits {
        Ok(KeyPlace::Device)
    } else {
        Ok(KeyPlace::Nowhere)
    }
}

pub open spec fn no_key_message() -> Seq<char> {
    "no key is saved for this provider"@
}

/// The key to send with a call, given what was found for the provider. Missing is a failure
/// everywhere but the custom provider (`custom` names it), where it is normal: a model served
/// from this machine authenticates nothing, and refusing to call it would be demanding a key be
/// invented.
pub fn key_for_call(found: Option<String>, provider: &str, custom: &str) -> (r: Result<String, UiError>)
    ensures
        match found {
            Some(k) => r is Ok && r->Ok_0 == k,
            None => if provider@ == custom@ {
                r is Ok && r->Ok_0@ == Seq::<char>::empty()
            } else {
                r is Err && r->Err_0 is Auth && r->Err_0.message_of() == no_key_message()
            },
        },
{
    match found {
        Some(k) => Ok(k),
        None => if same_text(provider, custom) {
            Ok(String::new())
        } else {
            Err(UiError::Auth { message: owned("no key is saved for this provider") })
        },
    }
}

pub open spec fn keys_need_password_message() -> Seq<char> {
    "a key is kept only behind a profile password"@
}

/// Whether a key may be saved: only into an open vault.
pub fn key_save_allowed(open: bool, is_locked: bool) -> (r: Result<(), UiError>)
    ensures
        r is Ok <==> open,
        !open && is_locked ==> r is Err && r->Err_0 is Locked && r->Err_0.message_of() == locked_message(),
        !open && !is_locked ==> r is Err && r->Err_0 is PasswordRequired && r->Err_0.message_of()
            == keys_need_password_message(),
{
    if open {
        Ok(())
    } else if is_locked {
        Err(locked())
    } else {
        Err(UiError::PasswordRequired { message: owned("a key is kept only behind a profile password") })
    }
}

pub open spec fn cannot_lock_message() -> Seq<char> {
    "a profile without a password cannot be locked"@
}

/// Only a profile with a password can be locked.
pub fn lock_allowed(protected: bool) -> (r: Result<(), UiError>)
    ensures
        r is Ok <==> protected,
        !protected ==> r is Err && r->Err_0 is PasswordRequired && r->Err_0.message_of() == cannot_lock_message(),
{
    if protected {
        Ok(())
    } else {
        Err(UiError::PasswordRequired { message: owned("a profile without a password cannot be locked") })
    }
}

/// What setting a password does.
#[derive(Debug, Clone, Copy, PartialEq, Eq, Structural)]
pub enum PasswordAction {
    /// The vault is open: its password changes.
    Change,
    /// The profile has none yet: a vault is made, and the database encrypted.
    Create,
}

/// Setting a password changes the open vault's, gives an unprotected profile its first, and is
/// refused for a locked one.
pub fn password_action(open: bool, protected: bool) -> (r: Result<PasswordAction, UiError>)
    ensures
        open ==> r == Ok::<PasswordAction, UiError>(PasswordAction::Change),
        !open && protected ==> r is Err && r->Err_0 is Locked && r->Err_0.message_of() == locked_message(),
        !open && !protected ==> r == Ok::<PasswordAction, UiError>(PasswordAction::Create),
{
    if open {
        Ok(PasswordAction::Change)
    } else if protected {
        Err(locked())
    } else {
        Ok(PasswordAction::Create)
    }
}

} // verus!
