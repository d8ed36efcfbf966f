//! Errors as the frontend receives them: a code and the sentence that goes with it.

use vstd::prelude::*;

verus! {

/// Structured error payload returned to the frontend.
#[derive(Debug, Clone)]
pub enum UiError {
    Storage { message: String },
    Network { message: String },
    NotFound { message: String },
    Invalid { message: String },
    MissingMarketData { kind: String, key: String, date: String, message: String },
    Math { message: String },
    /// A provider rejected the saved key: the fix is to replace the key, not to retry.
    Auth { message: String },
    /// A provider is throttling; `retry_after` is the header value in seconds, when sent.
    RateLimit { message: String, retry_after: Option<u64> },
    /// A provider answered with an error of its own.
    Provider { message: String },
    /// The model declined to answer.
    Refused { message: String },
    /// The answer reached the model's output limit and ends mid-way.
    Truncated { message: String },
    /// The open profile has a password and has not been unlocked in this run.
    Locked { message: String },
    /// A key is kept only behind a profile password, and this profile has none yet.
    PasswordRequired { message: String },
    /// The password given does not open the profile.
    WrongPassword { message: String },
    /// Something else holds what this needs; trying again once it finishes works.
    Busy { message: String },
    /// A file a plugin's reader claimed is protected and the reader needs its password.
    FileProtected { message: String },
    /// A plugin's reader claimed a file and could not read it.
    Reader { plugin: String, message: String },
    /// Host failure, such as an unavailable data directory or poisoned mutex.
    Internal { message: String },
}

pub type UiResult<T> = Result<T, UiError>;

impl UiError {
    /// The sentence every variant carries.
    pub open spec fn message_of(self) -> Seq<char> {
        match self {
            UiError::Storage { message } => message@,
            UiError::Network { message } => message@,
            UiError::NotFound { message } => message@,
            UiError::Invalid { message } => message@,
            UiError::MissingMarketData { message, .. } => message@,
            UiError::Math { message } => message@,
            UiError::Auth { message } => message@,
            UiError::RateLimit { message, .. } => message@,
            UiError::Provider { message } => message@,
            UiError::Refused { message } => message@,
            UiError::Truncated { message } => message@,
            UiError::Locked { message } => message@,
            UiError::PasswordRequired { message } => message@,
            UiError::WrongPassword { message } => message@,
            UiError::Busy { message } => message@,
            UiError::FileProtected { message } => message@,
            UiError::Reader { message, .. } => message@,
            UiError::Internal { message } => message@,
        }
    }

    pub fn internal(message: String) -> (e: UiError)
        ensures
            e == (UiError::Internal { message }),
    {
        UiError::Internal { message }
    }

    pub fn not_found(message: String) -> (e: UiError)
        ensures
            e == (UiError::NotFound { message }),
    {
        UiError::NotFound { message }
    }

    pub fn invalid(message: String) -> (e: UiError)
        ensures
            e == (UiError::Invalid { message }),
    {
        UiError::Invalid { message }
    }

    /// What the error says, as text; this is what displaying it shows.
    pub fn message(&self) -> (s: String)
        ensures
            s@ == self.message_of(),
    {
        match self {
            UiError::Storage { message } => message.clone(),
            UiError::Network { message } => message.clone(),
            UiError::NotFound { message } => message.clone(),
            UiError::Invalid { message } => message.clone(),
            UiError::MissingMarketData { message, .. } => message.clone(),
            UiError::Math { message } => message.clone(),
            UiError::Auth { message } => message.clone(),
            UiError::RateLimit { message, .. } => message.clone(),
            UiError::Provider { message } => message.clone(),
            UiError::Refused { message } => message.clone(),
            UiError::Truncated { message } => message.clone(),
            UiError::Locked { message } => message.clone(),
            UiError::PasswordRequired { message } => message.clone(),
            UiError::WrongPassword { message } => message.clone(),
            UiError::Busy { message } => message.clone(),
            UiError::FileProtected { message } => message.clone(),
            UiError::Reader { message, .. } => message.clone(),
            UiError::Internal { message } => message.clone(),
        }
    }
}

} // verus!
