//! What the AI commands decide before any provider is asked: whether the panel may answer at
//! all, which provider and model a request names, and how long an answer may run. Talking to
//! the provider is the host's.

use vstd::prelude::*;
use crate::error::UiError;
use crate::text::{chars_of, owned, trim, trimmed};

verus! {

pub open spec fn panel_off_message() -> Seq<char> {
    "the AI panel is turned off"@
}

/// Refused while the AI panel is turned off: a key may be saved and still not be used.
pub fn panel_on(ai_enabled: bool) -> (r: Result<(), UiError>)
    ensures
        r is Ok <==> ai_enabled,
        r matches Err(e) ==> e is Invalid && e.message_of() == panel_off_message(),
{
    if !ai_enabled {
        return Err(UiError::invalid(owned("the AI panel is turned off")));
    }
    Ok(())
}

/// What a request's own choice comes to: its text trimmed, and nothing when that leaves nothing.
pub open spec fn chosen_spec(value: Option<&str>) -> Option<Seq<char>> {
    match value {
        Some(v) => if trimmed(v@).len() > 0 { Some(trimmed(v@)) } else { None },
        None => None,
    }
}

/// A request's own choice of provider or model, trimmed; blank counts as no choice.
pub fn chosen(value: Option<&str>) -> (r: Option<String>)
    ensures
        match r {
            Some(s) => chosen_spec(value) == Some(s@),
            None => chosen_spec(value) is None,
        },
{
    match value {
        Some(v) => {
            let t = trim(v);
            if chars_of(t.as_str()).len() == 0 {
                None
            } else {
                Some(t)
            }
        },
        None => None,
    }
}

/// The provider a request goes to: its own choice when it makes one, else the one the settings
/// name.
pub fn provider_for(asked: Option<&str>, setting: &str) -> (p: String)
    ensures
        p@ == match chosen_spec(asked) {
            Some(c) => c,
            None => setting@,
        },
{
    match chosen(asked) {
        Some(c) => c,
        None => owned(setting),
    }
}

/// An answer's length limit in output tokens: none when the request names none, and never below
/// `floor`, the shortest answer worth asking for.
pub fn token_limit(asked: Option<u32>, floor: u32) -> (r: Option<u32>)
    ensures
        match asked {
            Some(n) => r == Some(if n < floor { floor } else { n }),
            None => r is None,
        },
{
    match asked {
        Some(n) => Some(if n < floor { floor } else { n }),
        None => None,
    }
}

} // verus!
