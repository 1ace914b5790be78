//! The four operations that the transport layer calls: serving the public
//! key, key exchange, registration and login.

use crate::error::{text_of, AuthError};
use crate::keys::{generate_shared_key, shared_key, Config};
use crate::password::{hash_password, password_digest};
use crate::registry::{
    can_register, lemma_names_one_user, names_user, new_record, with_session, Registry, UserRecord,
};
use crate::requests::{KeyExchangeRequest, LoginRequest, RegisterRequest};
use crate::session::{generate_session_key, is_session_key};
use crate::text::{lowercase, to_lowercase};
use crate::user_map::email_lookup;
use chrono::Local;
use vstd::prelude::*;

verus! {

/// What a key exchange gives: the secret to keep for the user, the name to
/// keep it under, and the server's public key for the reply.
#[derive(Debug, Clone, PartialEq, Eq)]
pub struct KeyExchange {
    /// The name under which the secret is kept: the username in lower case.
    pub owner: String,
    /// The shared secret, as hexadecimal text.
    pub shared_key: String,
    /// The server's public key, which the client needs to derive the same
    /// secret.
    pub server_pub_key: String,
}

/// Reads the local time with `chrono::Local::now` and writes it as year,
/// month, day, hour, minute and second. Nothing is known of the text.
#[verifier::external_body]
fn local_timestamp() -> (text: String) {
    Local::now().format("%Y-%m-%d %H:%M:%S").to_string()
}

/// The server's public key, for anyone who asks.
pub fn handle_get_server_key(config: &Config) -> (key: String)
    ensures
        key@ == config.pub_key@,
{
    config.pub_key.clone()
}

/// Derives the secret shared with the client from the client's public key
/// and the server's private key. A key that does not decode to 32 bytes is
/// refused with `InvalidKeyFormat`.
pub fn handle_key_exchange(req: KeyExchangeRequest, config: &Config) -> (outcome: Result<
    KeyExchange,
    AuthError,
>)
    ensures
        match outcome {
            Ok(exchange) => shared_key(req.pub_key@, config.priv_key@) == Ok::<
                Seq<char>,
                AuthError,
            >(exchange.shared_key@) && exchange.owner@ == lowercase(req.username@)
                && exchange.server_pub_key@ == config.pub_key@,
            Err(e) => shared_key(req.pub_key@, config.priv_key@) == Err::<Seq<char>, AuthError>(e),
        },
{
    let owner = to_lowercase(req.username.as_str());
    match generate_shared_key(req.pub_key, config.priv_key.clone()) {
        Ok(shared_key) => Ok(
            KeyExchange { owner, shared_key, server_pub_key: config.pub_key.clone() },
        ),
        Err(e) => Err(e),
    }
}

/// Registers a user: stores the digest of the password, the time of
/// registration and a fresh session token, and gives the token back. Where
/// the username or the email address is already registered the registry
/// stays as it is.
pub fn handle_register(registry: &mut Registry, req: RegisterRequest) -> (outcome: Result<
    String,
    AuthError,
>)
    requires
        old(registry).wf(),
    ensures
        final(registry).wf(),
        match outcome {
            Ok(token) => is_session_key(token@) && can_register(
                old(registry)@,
                req.username@,
                req.email@,
            ) && final(registry)@ == old(registry)@.insert(
                req.username@,
                new_record(
                    req.username@,
                    req.email@,
                    password_digest(req.password@),
                    final(registry)@[req.username@].date_created,
                    token@,
                ),
            ) && final(registry).index() == old(registry).index().insert(
                req.username@,
                req.email@,
            ) && final(registry).entries().len() == old(registry).entries().len() + 1,
            Err(e) => e == AuthError::DuplicateIdentity && !can_register(
                old(registry)@,
                req.username@,
                req.email@,
            ) && *final(registry) == *old(registry),
        },
{
    let digest = hash_password(req.password.as_str());
    let date_created = local_timestamp();
    let session_key = generate_session_key();
    registry.register(req.username, req.email, digest, date_created, session_key)
}

/// The user `identifier` names is registered with the digest `digest`.
pub open spec fn credentials_match(
    users: Map<Seq<char>, UserRecord>,
    identifier: Seq<char>,
    digest: Seq<char>,
) -> bool {
    exists|u: Seq<char>| #[trigger] names_user(users, identifier, u) && users[u].password == digest
}

/// Logs a user in by username or email address: where the password is the
/// registered one, a fresh session token takes the place of the user's
/// token and is given back. A wrong password and an unknown identifier are
/// refused alike, and leave the registry as it is.
pub fn handle_login(registry: &mut Registry, req: LoginRequest) -> (outcome: Result<
    String,
    AuthError,
>)
    requires
        old(registry).wf(),
    ensures
        final(registry).wf(),
        final(registry).index() == old(registry).index(),
        match outcome {
            Ok(token) => is_session_key(token@) && credentials_match(
                old(registry)@,
                req.username@,
                password_digest(req.password@),
            ) && forall|u: Seq<char>| #[trigger]
                names_user(old(registry)@, req.username@, u) ==> final(registry)@ == old(
                    registry,
                )@.insert(u, with_session(old(registry)@[u], token@)),
            Err(e) => e == AuthError::InvalidCredentials && !credentials_match(
                old(registry)@,
                req.username@,
                password_digest(req.password@),
            ) && *final(registry) == *old(registry),
        },
{
    let digest = hash_password(req.password.as_str());
    let ghost users = registry@;
    proof {
        registry.lemma_index_mirrors_records();
    }
    let username = match email_lookup(registry.user_map(), req.username.as_str()) {
        Ok(username) => username,
        Err(_) => {
            return Err(AuthError::InvalidCredentials);
        },
    };
    proof {
        assert forall|u: Seq<char>| #[trigger] names_user(users, req.username@, u) implies u
            == username@ by {
            if users.contains_key(username@) {
                lemma_names_one_user(users, req.username@, u, username@);
            }
        }
    }
    let session_key = generate_session_key();
    match registry.verify_and_rotate_session(username.as_str(), digest.as_str(), session_key) {
        Ok(token) => {
            assert(names_user(users, req.username@, username@));
            Ok(token)
        },
        Err(_) => Err(AuthError::InvalidCredentials),
    }
}

/// Where a client stands with the server. Nothing of it is kept in memory
/// between requests: each request starts from what storage holds of the
/// user.
#[derive(Clone, Copy, Debug, PartialEq, Eq, Structural)]
pub enum SessionState {
    /// Nothing is known of the client.
    Anonymous,
    /// A shared secret is kept under the client's name.
    KeyExchanged,
    /// The client is a registered user and holds a session token.
    Registered,
    /// The client has logged in and holds a new session token.
    Authenticated,
}

/// What a client asks of the server.
#[derive(Clone, Copy, Debug, PartialEq, Eq, Structural)]
pub enum Operation {
    ExchangeKey,
    Register,
    Login,
}

impl SessionState {
    /// The state that a successful `operation` leads to, where `operation`
    /// is open to a client in this state: a key exchange to an anonymous
    /// client, registration with or without a key exchange before it, and
    /// login to an anonymous or a registered client.
    pub open spec fn spec_after(self, operation: Operation) -> Option<SessionState> {
        match (self, operation) {
            (SessionState::Anonymous, Operation::ExchangeKey) => Some(SessionState::KeyExchanged),
            (SessionState::Anonymous, Operation::Register) => Some(SessionState::Registered),
            (SessionState::KeyExchanged, Operation::Register) => Some(SessionState::Registered),
            (SessionState::Anonymous, Operation::Login) => Some(SessionState::Authenticated),
            (SessionState::Registered, Operation::Login) => Some(SessionState::Authenticated),
            _ => None,
        }
    }

    /// The state that a successful `operation` leads to, if `operation` is
    /// open to a client in this state.
    pub fn after(self, operation: Operation) -> (next: Option<SessionState>)
        ensures
            next == self.spec_after(operation),
    {
        match operation {
            Operation::ExchangeKey => match self {
                SessionState::Anonymous => Some(SessionState::KeyExchanged),
                _ => None,
            },
            Operation::Register => match self {
                SessionState::Anonymous | SessionState::KeyExchanged => Some(
                    SessionState::Registered,
                ),
                _ => None,
            },
            Operation::Login => match self {
                SessionState::Anonymous | SessionState::Registered => Some(
                    SessionState::Authenticated,
                ),
                _ => None,
            },
        }
    }
}

} // verus!
