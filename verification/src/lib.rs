//! Session credentials for a client-server application: the server's
//! identity key pair, Diffie-Hellman key agreement, password checks, session
//! tokens, and the user registry behind them.
//!
//! The library holds no file and no socket. Its functions take what was read
//! and give back what is to be stored or sent, and each states in its
//! contract what it returns and how it changes the registry. The curve
//! arithmetic, the digest, the random source, the clock and the hexadecimal
//! codec come from other crates; the few functions that call them say in
//! their comments what is taken from those crates without proof.

pub mod error;
pub mod handlers;
pub mod hex_codec;
pub mod keyed;
pub mod keys;
pub mod password;
pub mod registry;
pub mod requests;
pub mod session;
pub mod text;
pub mod user_map;
pub mod wallet;

pub use error::{AuthError, CustomError};
pub use handlers::{
    handle_get_server_key, handle_key_exchange, handle_login, handle_register, KeyExchange,
    Operation, SessionState,
};
pub use hex_codec::{hex_string_to_u8_array, HexError};
pub use keys::{ensure_identity, generate_server_keys, generate_shared_key, server_config, Config};
pub use password::hash_password;
pub use registry::{Registry, UserData};
pub use requests::{KeyExchangeRequest, LoginRequest, RegisterRequest};
pub use session::{generate_session_key, session_key_from_indices, SESSION_KEY_LENGTH};
pub use text::{constant_time_eq, contains_at, text_eq};
pub use user_map::{email_lookup, find_key_by_value, UserMap};
pub use wallet::{convert_to_outpoint, OutPoint, SeedStore};
