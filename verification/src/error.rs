//! The outcomes that the library reports to its callers.

use vstd::prelude::*;

verus! {

/// The ways in which an operation of the library fails.
#[derive(Clone, Copy, Debug, PartialEq, Eq, Structural)]
pub enum AuthError {
    /// Durable storage could not be read or written.
    StorageError,
    /// Key material is malformed or has the wrong length.
    InvalidKeyFormat,
    /// The username or the email is already registered.
    DuplicateIdentity,
    /// The password is wrong or the identifier is unknown.
    InvalidCredentials,
    /// What was referred to does not exist.
    NotFound,
}

/// The outcome of an operation that gives a text, with the text as the
/// sequence of its characters.
pub open spec fn text_of(outcome: Result<String, AuthError>) -> Result<Seq<char>, AuthError> {
    match outcome {
        Ok(text) => Ok(text@),
        Err(e) => Err(e),
    }
}

/// A failure as it is shown to a client.
#[derive(Debug, Clone, PartialEq, Eq)]
pub struct CustomError {
    pub message: String,
}

impl CustomError {
    /// The message, as text.
    pub fn to_string(&self) -> (text: String)
        ensures
            text@ == self.message@,
    {
        self.message.clone()
    }
}

impl AuthError {
    /// The HTTP status that stands for this failure.
    pub open spec fn spec_status_code(self) -> u16 {
        match self {
            AuthError::StorageError => 500,
            AuthError::InvalidKeyFormat => 400,
            AuthError::DuplicateIdentity => 409,
            AuthError::InvalidCredentials => 401,
            AuthError::NotFound => 404,
        }
    }

    /// The text shown to a client for this failure. A duplicate does not
    /// say whether the username or the email collided, and every other
    /// failure reads the same, so that the text tells nothing about
    /// accounts or about the server's storage.
    pub open spec fn spec_message(self) -> Seq<char> {
        match self {
            AuthError::DuplicateIdentity => "Username or email taken"@,
            _ => "Unable to process request"@,
        }
    }

    /// The HTTP status that stands for this failure.
    pub fn status_code(self) -> (code: u16)
        ensures
            code == self.spec_status_code(),
    {
        match self {
            AuthError::StorageError => 500,
            AuthError::InvalidKeyFormat => 400,
            AuthError::DuplicateIdentity => 409,
            AuthError::InvalidCredentials => 401,
            AuthError::NotFound => 404,
        }
    }

    /// This failure as it is shown to a client.
    pub fn to_custom_error(self) -> (shown: CustomError)
        ensures
            shown.message@ == self.spec_message(),
    {
        match self {
            AuthError::DuplicateIdentity => CustomError {
                message: "Username or email taken".to_owned(),
            },
            _ => CustomError { message: "Unable to process request".to_owned() },
        }
    }
}

} // verus!
