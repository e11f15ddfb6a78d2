//! Public-key authenticated encryption in the style of NaCl's `crypto_box`:
//! X25519 key agreement, a key derived from the shared point, and an
//! XSalsa20Poly1305 (or XChaCha20Poly1305) secret box on top; plus sealed boxes
//! for anonymous senders.

pub mod primitives;
pub mod keys;
pub mod cipher;
pub mod cryptobox;
pub mod seal;

pub use keys::{PublicKey, SecretKey};
pub use cipher::{BoxCipher, XChaCha20, XSalsa20};
pub use cryptobox::{ChaChaBox, CryptoBox, SalsaBox};
pub use seal::{seal, seal_open, seal_with_ephemeral_key};

use vstd::prelude::*;

verus! {

/// Size of a public or secret key in bytes.
pub const KEY_SIZE: usize = 32;

/// Size of a nonce in bytes.
pub const NONCE_SIZE: usize = 24;

/// Size of a Poly1305 tag in bytes.
pub const TAG_SIZE: usize = 16;

/// Extra bytes of a sealed box over its plaintext: the ephemeral public key
/// and the tag.
pub const SEALBYTES: usize = KEY_SIZE + TAG_SIZE;

/// The one error of this crate: a failed encryption, decryption or random
/// draw. It carries no detail, so that the reasons for a failed decryption
/// cannot be told apart.
#[derive(Clone, Copy, Debug, PartialEq, Eq, Structural)]
pub struct BoxError;

} // verus!
