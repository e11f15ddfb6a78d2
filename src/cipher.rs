//! The stream-cipher backends a box can run on: each supplies the key
//! derivation that turns a shared point into a key, and the detached
//! `crypto_secretbox` encryption and decryption under that key.

use vstd::prelude::*;
use crate::primitives::{
    hchacha20, hchacha20_of, hsalsa20, hsalsa20_of, xchacha20poly1305_decrypt_detached,
    xchacha20poly1305_encrypt_detached, xchacha20poly1305_of, xsalsa20poly1305_decrypt_detached,
    xsalsa20poly1305_encrypt_detached, xsalsa20poly1305_of,
};
use crate::BoxError;

verus! {

/// A `crypto_secretbox` backend. `seal_spec(k, n, p)` is the combined
/// ciphertext of `p`: the 16-byte tag followed by the encrypted bytes. The
/// construction has no room for associated data: it is refused when present.
pub trait BoxCipher: Sized {
    /// The key derivation function (HSalsa20 or HChaCha20).
    spec fn kdf_spec(key: Seq<u8>, input: Seq<u8>) -> Seq<u8>;

    /// The combined ciphertext of `pt` under `key` and `nonce`.
    spec fn seal_spec(key: Seq<u8>, nonce: Seq<u8>, pt: Seq<u8>) -> Seq<u8>;

    /// Derives a key from `key` and a 16-byte `input`.
    fn kdf(key: &[u8; 32], input: &[u8; 16]) -> (r: [u8; 32])
        ensures
            r@ == Self::kdf_spec(key@, input@),
    ;

    /// Encrypts `buffer` in place and returns the tag.
    fn encrypt_detached(key: &[u8; 32], nonce: &[u8; 24], aad: &[u8], buffer: &mut [u8]) -> (r:
        Result<[u8; 16], BoxError>)
        ensures
            final(buffer)@.len() == old(buffer)@.len(),
            r is Ok <==> aad@.len() == 0,
            r matches Ok(tag) ==> tag@ + final(buffer)@ == Self::seal_spec(
                key@,
                nonce@,
                old(buffer)@,
            ),
            r is Err ==> final(buffer)@ == old(buffer)@,
    ;

    /// Checks `tag` against `buffer` and decrypts `buffer` in place; on
    /// failure `buffer` is left as it was.
    fn decrypt_detached(
        key: &[u8; 32],
        nonce: &[u8; 24],
        aad: &[u8],
        buffer: &mut [u8],
        tag: &[u8; 16],
    ) -> (r: Result<(), BoxError>)
        ensures
            final(buffer)@.len() == old(buffer)@.len(),
            aad@.len() > 0 ==> r is Err,
            r is Ok ==> tag@ + old(buffer)@ == Self::seal_spec(key@, nonce@, final(buffer)@),
            forall|p: Seq<u8>|
                aad@.len() == 0 && tag@ + old(buffer)@ == #[trigger] Self::seal_spec(
                    key@,
                    nonce@,
                    p,
                ) ==> r is Ok && final(buffer)@ == p,
            r is Err ==> final(buffer)@ == old(buffer)@,
    ;
}

/// The original NaCl backend: HSalsa20 and XSalsa20Poly1305.
pub struct XSalsa20;

/// The ChaCha backend: HChaCha20 and XChaCha20Poly1305 in the
/// `crypto_secretbox` layout.
pub struct XChaCha20;

impl BoxCipher for XSalsa20 {
    open spec fn kdf_spec(key: Seq<u8>, input: Seq<u8>) -> Seq<u8> {
        hsalsa20_of(key, input)
    }

    open spec fn seal_spec(key: Seq<u8>, nonce: Seq<u8>, pt: Seq<u8>) -> Seq<u8> {
        xsalsa20poly1305_of(key, nonce, pt)
    }

    fn kdf(key: &[u8; 32], input: &[u8; 16]) -> (r: [u8; 32]) {
        hsalsa20(key, input)
    }

    fn encrypt_detached(key: &[u8; 32], nonce: &[u8; 24], aad: &[u8], buffer: &mut [u8]) -> (r:
        Result<[u8; 16], BoxError>) {
        match xsalsa20poly1305_encrypt_detached(key, nonce, aad, buffer) {
            Ok(tag) => Ok(tag),
            Err(_) => Err(BoxError),
        }
    }

    fn decrypt_detached(
        key: &[u8; 32],
        nonce: &[u8; 24],
        aad: &[u8],
        buffer: &mut [u8],
        tag: &[u8; 16],
    ) -> (r: Result<(), BoxError>) {
        match xsalsa20poly1305_decrypt_detached(key, nonce, aad, buffer, tag) {
            Ok(()) => Ok(()),
            Err(_) => Err(BoxError),
        }
    }
}

impl BoxCipher for XChaCha20 {
    open spec fn kdf_spec(key: Seq<u8>, input: Seq<u8>) -> Seq<u8> {
        hchacha20_of(key, input)
    }

    open spec fn seal_spec(key: Seq<u8>, nonce: Seq<u8>, pt: Seq<u8>) -> Seq<u8> {
        xchacha20poly1305_of(key, nonce, pt)
    }

    fn kdf(key: &[u8; 32], input: &[u8; 16]) -> (r: [u8; 32]) {
        hchacha20(key, input)
    }

    fn encrypt_detached(key: &[u8; 32], nonce: &[u8; 24], aad: &[u8], buffer: &mut [u8]) -> (r:
        Result<[u8; 16], BoxError>) {
        match xchacha20poly1305_encrypt_detached(key, nonce, aad, buffer) {
            Ok(tag) => Ok(tag),
            Err(_) => Err(BoxError),
        }
    }

    fn decrypt_detached(
        key: &[u8; 32],
        nonce: &[u8; 24],
        aad: &[u8],
        buffer: &mut [u8],
        tag: &[u8; 16],
    ) -> (r: Result<(), BoxError>) {
        match xchacha20poly1305_decrypt_detached(key, nonce, aad, buffer, tag) {
            Ok(()) => Ok(()),
            Err(_) => Err(BoxError),
        }
    }
}

} // verus!
