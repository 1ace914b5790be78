//! What the transport layer hands to the library.

use vstd::prelude::*;

verus! {

/// A client asks for a key agreement, under the name it will use.
#[derive(Debug, Clone, Default, PartialEq, Eq)]
pub struct KeyExchangeRequest {
    pub username: String,
    pub pub_key: String,
}

/// A client logs in. `username` holds a username or an email address.
#[derive(Debug, Clone, Default, PartialEq, Eq)]
pub struct LoginRequest {
    pub username: String,
    pub password: String,
}

/// A client registers.
#[derive(Debug, Clone, Default, PartialEq, Eq)]
pub struct RegisterRequest {
    pub username: String,
    pub password: String,
    pub email: String,
}

} // verus!
