//! The server's identity key pair and the key agreement made with it.

use crate::error::{text_of, AuthError};
use crate::hex_codec::{
    encode_hex, hex_decode_32, hex_encode, hex_string_to_u8_array, lemma_hex_round_trip, HexError,
};
use rand::rngs::OsRng;
use rand::RngCore;
use vstd::prelude::*;
use vstd::utf8::encode_utf8;
use x25519_dalek::{PublicKey, StaticSecret};

verus! {

/// The server's identity: an X25519 key pair, each key as hexadecimal text.
#[derive(Debug, Clone, Default, PartialEq, Eq)]
pub struct Config {
    pub pub_key: String,
    pub priv_key: String,
}

/// The X25519 public key that belongs to the secret key `secret`.
pub uninterp spec fn x25519_public(secret: Seq<u8>) -> Seq<u8>;

/// The X25519 shared secret that the holder of `secret` derives from the
/// public key `peer_public`.
pub uninterp spec fn x25519_shared(secret: Seq<u8>, peer_public: Seq<u8>) -> Seq<u8>;

/// Fills a key with bytes from the operating system's random source, by
/// `RngCore::fill_bytes` on `OsRng`. Nothing is known of the bytes.
#[verifier::external_body]
fn random_secret() -> (secret: [u8; 32]) {
    let mut secret = [0u8; 32];
    OsRng.fill_bytes(&mut secret);
    secret
}

/// Calls `PublicKey::from` on the `StaticSecret` made of `secret`: the
/// result is the public key of that secret, a function of its bytes alone.
#[verifier::external_body]
fn public_key_of(secret: [u8; 32]) -> (public: [u8; 32])
    ensures
        public@ == x25519_public(secret@),
{
    PublicKey::from(&StaticSecret::from(secret)).to_bytes()
}

/// Calls `StaticSecret::diffie_hellman`: the result is a function of the
/// two keys' bytes alone. It is also the secret that the peer derives:
/// where `peer_public` is the public key of some secret `other`, the holder
/// of `other` gets the same bytes from the public key of `secret`. This
/// agreement is the documented purpose of the exchange; it is taken from
/// the X25519 implementation and not proved here.
#[verifier::external_body]
fn diffie_hellman(secret: [u8; 32], peer_public: [u8; 32]) -> (shared: [u8; 32])
    ensures
        shared@ == x25519_shared(secret@, peer_public@),
        forall|other: Seq<u8>|
            other.len() == 32 && peer_public@ == #[trigger] x25519_public(other) ==> shared@
                == x25519_shared(other, x25519_public(secret@)),
{
    StaticSecret::from(secret).diffie_hellman(&PublicKey::from(peer_public)).to_bytes()
}

impl Config {
    /// The two texts are the keys of one pair: the private key encodes a
    /// secret of 32 bytes and the public key encodes that secret's public
    /// key.
    pub open spec fn is_pair_of(&self, secret: Seq<u8>) -> bool {
        &&& secret.len() == 32
        &&& self.priv_key@ == hex_encode(secret)
        &&& self.pub_key@ == hex_encode(x25519_public(secret))
    }

    /// The two texts are the keys of one pair, for some secret.
    pub open spec fn is_key_pair(&self) -> bool {
        exists|secret: Seq<u8>| self.is_pair_of(secret)
    }

    /// The public key, which is no secret and may be served to anyone.
    pub fn public_key(&self) -> (key: &String)
        ensures
            key@ == self.pub_key@,
    {
        &self.pub_key
    }
}

/// The identity whose private key is `secret`.
pub fn server_config(secret: [u8; 32]) -> (config: Config)
    ensures
        config.is_pair_of(secret@),
{
    let public = public_key_of(secret);
    Config { pub_key: encode_hex(public.as_slice()), priv_key: encode_hex(secret.as_slice()) }
}

/// A fresh identity, from a secret drawn at random.
pub fn generate_server_keys() -> (config: Config)
    ensures
        config.is_key_pair(),
{
    server_config(random_secret())
}

/// The identity to serve with: the stored one, unchanged, where there is
/// one, and a fresh one otherwise.
pub fn ensure_identity(stored: Option<Config>) -> (config: Config)
    ensures
        stored is Some ==> config == stored->0,
        stored is None ==> config.is_key_pair(),
{
    match stored {
        Some(config) => config,
        None => generate_server_keys(),
    }
}

/// What a key agreement gives: the shared secret as hexadecimal text where
/// both keys decode to 32 bytes, and `InvalidKeyFormat` otherwise.
pub open spec fn shared_key(pub_key: Seq<char>, private_key: Seq<char>) -> Result<
    Seq<char>,
    AuthError,
> {
    match (hex_decode_32(encode_utf8(pub_key)), hex_decode_32(encode_utf8(private_key))) {
        (Ok(peer_public), Ok(secret)) => Ok(hex_encode(x25519_shared(secret, peer_public))),
        _ => Err(AuthError::InvalidKeyFormat),
    }
}

/// `public` is the public key of the secret key `secret`, each of 32
/// bytes.
pub open spec fn key_pair(secret: Seq<u8>, public: Seq<u8>) -> bool {
    secret.len() == 32 && public.len() == 32 && public == x25519_public(secret)
}

/// The text of a key of 32 bytes decodes to that key.
pub proof fn lemma_key_text_decodes(key: Seq<u8>)
    requires
        key.len() == 32,
    ensures
        hex_decode_32(encode_utf8(hex_encode(key))) == Ok::<Seq<u8>, HexError>(key),
{
    lemma_hex_round_trip(key);
}

/// Derives the secret shared between the holder of `private_key` and the
/// holder of the secret behind `pub_key`, as hexadecimal text. A key that
/// does not decode to 32 bytes is refused with `InvalidKeyFormat`.
///
/// Both sides of an exchange derive the same text: with the public key of
/// one pair and the private key of another, the result is what the public
/// key of the second and the private key of the first give.
pub fn generate_shared_key(pub_key: String, private_key: String) -> (derived: Result<
    String,
    AuthError,
>)
    ensures
        text_of(derived) == shared_key(pub_key@, private_key@),
        forall|a_secret: Seq<u8>, a_public: Seq<u8>, b_secret: Seq<u8>, b_public: Seq<u8>|
            #[trigger] key_pair(a_secret, a_public) && #[trigger] key_pair(b_secret, b_public)
                && pub_key@ == hex_encode(a_public) && private_key@ == hex_encode(b_secret)
                ==> text_of(derived) == shared_key(hex_encode(b_public), hex_encode(a_secret)),
{
    let derived = match hex_string_to_u8_array(pub_key.as_str()) {
        Ok(peer_public) => match hex_string_to_u8_array(private_key.as_str()) {
            Ok(secret) => {
                let shared = diffie_hellman(secret, peer_public);
                Ok(encode_hex(shared.as_slice()))
            },
            Err(_) => Err(AuthError::InvalidKeyFormat),
        },
        Err(_) => Err(AuthError::InvalidKeyFormat),
    };
    proof {
        assert forall|a_secret: Seq<u8>, a_public: Seq<u8>, b_secret: Seq<u8>, b_public: Seq<u8>|
            #[trigger] key_pair(a_secret, a_public) && #[trigger] key_pair(b_secret, b_public)
                && pub_key@ == hex_encode(a_public) && private_key@ == hex_encode(
                b_secret,
            ) implies text_of(derived) == shared_key(hex_encode(b_public), hex_encode(a_secret)) by {
            lemma_key_text_decodes(a_public);
            lemma_key_text_decodes(b_secret);
            lemma_key_text_decodes(b_public);
            lemma_key_text_decodes(a_secret);
        }
    }
    derived
}

} // verus!
