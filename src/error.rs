//! The outcomes a credential operation can fail with.

use vstd::prelude::*;

verus! {

/// Why a registration, a login or a storage operation did not succeed.
#[derive(Clone, Copy, Debug, PartialEq, Eq, Structural)]
pub enum CredentialError {
    /// The username or the password is empty.
    EmptyFields,
    /// The username holds a character that is not alphanumeric.
    InvalidCharacter,
    /// The username or the password is shorter than the minimum length.
    InvalidLength,
    /// An account with this username already exists.
    UsernameTaken,
    /// The credentials match no stored account.
    AuthenticationFailed,
    /// The persisted collection could not be read or written.
    StorageUnavailable,
}

impl CredentialError {
    /// A problem with the caller's input, as opposed to one of storage.
    pub open spec fn spec_is_validation(self) -> bool {
        ||| self == CredentialError::EmptyFields
        ||| self == CredentialError::InvalidCharacter
        ||| self == CredentialError::InvalidLength
        ||| self == CredentialError::UsernameTaken
    }

    /// Whether the error is one of the validation rules.
    pub fn is_validation(&self) -> (r: bool)
        ensures
            r == self.spec_is_validation(),
    {
        match self {
            CredentialError::EmptyFields => true,
            CredentialError::InvalidCharacter => true,
            CredentialError::InvalidLength => true,
            CredentialError::UsernameTaken => true,
            CredentialError::AuthenticationFailed => false,
            CredentialError::StorageUnavailable => false,
        }
    }

    /// The human-readable reason reported to the caller.
    pub open spec fn spec_message(self) -> Seq<char> {
        match self {
            CredentialError::EmptyFields => "Cannot pass empty username nor password."@,
            CredentialError::InvalidCharacter => "Special characters used in username."@,
            CredentialError::InvalidLength => "Either password and username must be longer than 5 characters."@,
            CredentialError::UsernameTaken => "Username is taken."@,
            CredentialError::AuthenticationFailed => "Bad data"@,
            CredentialError::StorageUnavailable => "Storage unavailable."@,
        }
    }

    /// The human-readable reason reported to the caller.
    pub fn message(&self) -> (r: &'static str)
        ensures
            r@ == self.spec_message(),
    {
        match self {
            CredentialError::EmptyFields => "Cannot pass empty username nor password.",
            CredentialError::InvalidCharacter => "Special characters used in username.",
            CredentialError::InvalidLength => "Either password and username must be longer than 5 characters.",
            CredentialError::UsernameTaken => "Username is taken.",
            CredentialError::AuthenticationFailed => "Bad data",
            CredentialError::StorageUnavailable => "Storage unavailable.",
        }
    }
}

} // verus!
