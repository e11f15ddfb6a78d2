//! The cryptographic primitives this crate builds on, each reached through one
//! small trusted item. Curve arithmetic, the stream ciphers, Poly1305 and
//! BLAKE2b are not specified here: their results are given names, and the
//! verified code is proved against those names.

use vstd::prelude::*;
use aead::generic_array::GenericArray;
use aead::rand_core::RngCore;
use aead::{AeadInPlace, KeyInit};
use blake2::Digest;
use crypto_secretbox::Kdf;

verus! {

/// Bit mask of the first byte of a clamped X25519 scalar.
pub const CLAMP_LOW_MASK: u8 = 0b1111_1000;

/// Bit mask and bit set on the last byte of a clamped X25519 scalar.
pub const CLAMP_HIGH_MASK: u8 = 0b0111_1111;
pub const CLAMP_HIGH_BIT: u8 = 0b0100_0000;

/// X25519 scalar clamping: the three low bits and the top bit are cleared,
/// bit 254 is set.
pub open spec fn clamp_spec(b: Seq<u8>) -> Seq<u8>
    recommends
        b.len() == 32,
{
    b.update(0, b[0] & CLAMP_LOW_MASK).update(31, (b[31] & CLAMP_HIGH_MASK) | CLAMP_HIGH_BIT)
}

/// The bytes of `[clamp(k)]B`, the Montgomery u-coordinate of the base point
/// multiplied by the clamped scalar `k`.
pub uninterp spec fn x25519_base_of(k: Seq<u8>) -> Seq<u8>;

/// The bytes of `[clamp(k)]P` for the Montgomery u-coordinate `p`.
pub uninterp spec fn x25519_of(k: Seq<u8>, p: Seq<u8>) -> Seq<u8>;

/// HSalsa20 (10 double rounds) of a 32-byte key and a 16-byte input.
pub uninterp spec fn hsalsa20_of(key: Seq<u8>, input: Seq<u8>) -> Seq<u8>;

/// HChaCha20 (10 double rounds) of a 32-byte key and a 16-byte input.
pub uninterp spec fn hchacha20_of(key: Seq<u8>, input: Seq<u8>) -> Seq<u8>;

/// XSalsa20Poly1305 `crypto_secretbox` of a plaintext, in combined form:
/// the 16-byte Poly1305 tag followed by the encrypted bytes.
pub uninterp spec fn xsalsa20poly1305_of(key: Seq<u8>, nonce: Seq<u8>, pt: Seq<u8>) -> Seq<u8>;

/// XChaCha20Poly1305 `crypto_secretbox` of a plaintext, in combined form:
/// the 16-byte Poly1305 tag followed by the encrypted bytes.
pub uninterp spec fn xchacha20poly1305_of(key: Seq<u8>, nonce: Seq<u8>, pt: Seq<u8>) -> Seq<u8>;

/// BLAKE2b with a 24-byte output over the given bytes.
pub uninterp spec fn blake2b_24_of(data: Seq<u8>) -> Seq<u8>;

#[verifier::external_type_specification]
#[verifier::external_body]
pub struct ExAeadError(aead::Error);

#[verifier::external_type_specification]
#[verifier::external_body]
pub struct ExOsRng(aead::rand_core::OsRng);

#[verifier::external_type_specification]
#[verifier::external_body]
pub struct ExRandError(aead::rand_core::Error);

/// Relies on `curve25519_dalek::scalar::clamp_integer`, which clears bits
/// 0, 1, 2 and 255 and sets bit 254.
#[verifier::external_body]
pub(crate) fn clamp(b: [u8; 32]) -> (r: [u8; 32])
    ensures
        r@ == clamp_spec(b@),
{
    curve25519_dalek::scalar::clamp_integer(b)
}

/// Relies on `MontgomeryPoint::mul_base_clamped`: fixed-base X25519.
#[verifier::external_body]
pub(crate) fn x25519_base(k: &[u8; 32]) -> (r: [u8; 32])
    ensures
        r@ == x25519_base_of(k@),
{
    curve25519_dalek::MontgomeryPoint::mul_base_clamped(*k).0
}

/// Relies on `MontgomeryPoint::mul_clamped`: variable-base X25519.
#[verifier::external_body]
pub(crate) fn x25519(k: &[u8; 32], p: &[u8; 32]) -> (r: [u8; 32])
    ensures
        r@ == x25519_of(k@, p@),
{
    curve25519_dalek::MontgomeryPoint(*p).mul_clamped(*k).0
}

/// Relies on `OsRng::try_fill_bytes`: 32 bytes from the operating system's
/// random source, or its error. Nothing is known of the bytes.
#[verifier::external_body]
pub(crate) fn os_random_32(rng: &mut aead::rand_core::OsRng) -> (r: Result<[u8; 32], aead::rand_core::Error>) {
    let mut bytes = [0u8; 32];
    rng.try_fill_bytes(&mut bytes).map(|_| bytes)
}

/// Relies on `zeroize::Zeroize` for byte arrays: every byte is overwritten
/// with zero, in a way the compiler does not remove.
#[verifier::external_body]
pub(crate) fn wipe(b: &mut [u8; 32])
    ensures
        final(b)@ == Seq::new(32, |_i: int| 0u8),
    opens_invariants none
    no_unwind
{
    zeroize::Zeroize::zeroize(b)
}

/// Relies on `crypto_secretbox::Kdf` for `Salsa20`, which is
/// `salsa20::hsalsa::<U10>`.
#[verifier::external_body]
pub(crate) fn hsalsa20(key: &[u8; 32], input: &[u8; 16]) -> (r: [u8; 32])
    ensures
        r@ == hsalsa20_of(key@, input@),
{
    <salsa20::Salsa20 as Kdf>::kdf(GenericArray::from_slice(key), GenericArray::from_slice(input)).into()
}

/// Relies on `crypto_secretbox::Kdf` for `ChaCha20Legacy`, which is
/// `chacha20::hchacha::<U10>`.
#[verifier::external_body]
pub(crate) fn hchacha20(key: &[u8; 32], input: &[u8; 16]) -> (r: [u8; 32])
    ensures
        r@ == hchacha20_of(key@, input@),
{
    <chacha20::ChaCha20Legacy as Kdf>::kdf(GenericArray::from_slice(key), GenericArray::from_slice(input)).into()
}

/// Relies on `XSalsa20Poly1305::encrypt_in_place_detached`: it refuses any
/// associated data, and otherwise encrypts the buffer in place and returns
/// the tag that its combined form puts in front of the encrypted bytes.
#[verifier::external_body]
pub(crate) fn xsalsa20poly1305_encrypt_detached(
    key: &[u8; 32],
    nonce: &[u8; 24],
    aad: &[u8],
    buffer: &mut [u8],
) -> (r: Result<[u8; 16], aead::Error>)
    ensures
        final(buffer)@.len() == old(buffer)@.len(),
        r is Ok <==> aad@.len() == 0,
        r matches Ok(tag) ==> tag@ + final(buffer)@ == xsalsa20poly1305_of(key@, nonce@, old(buffer)@),
        r is Err ==> final(buffer)@ == old(buffer)@,
{
    let cipher = crypto_secretbox::XSalsa20Poly1305::new(GenericArray::from_slice(key));
    cipher.encrypt_in_place_detached(GenericArray::from_slice(nonce), aad, buffer).map(|t| t.into())
}

/// Relies on `XSalsa20Poly1305::decrypt_in_place_detached`: it refuses any
/// associated data; it decrypts the buffer exactly when the tag and the
/// buffer are the combined form of some plaintext, which is then left in the
/// buffer; on failure the buffer is untouched.
#[verifier::external_body]
pub(crate) fn xsalsa20poly1305_decrypt_detached(
    key: &[u8; 32],
    nonce: &[u8; 24],
    aad: &[u8],
    buffer: &mut [u8],
    tag: &[u8; 16],
) -> (r: Result<(), aead::Error>)
    ensures
        final(buffer)@.len() == old(buffer)@.len(),
        aad@.len() > 0 ==> r is Err,
        r is Ok ==> tag@ + old(buffer)@ == xsalsa20poly1305_of(key@, nonce@, final(buffer)@),
        forall|p: Seq<u8>|
            aad@.len() == 0 && tag@ + old(buffer)@ == #[trigger] xsalsa20poly1305_of(key@, nonce@, p)
                ==> r is Ok && final(buffer)@ == p,
        r is Err ==> final(buffer)@ == old(buffer)@,
{
    let cipher = crypto_secretbox::XSalsa20Poly1305::new(GenericArray::from_slice(key));
    cipher.decrypt_in_place_detached(GenericArray::from_slice(nonce), aad, buffer, GenericArray::from_slice(tag))
}

/// Relies on `XChaCha20Poly1305::encrypt_in_place_detached` (the
/// `crypto_secretbox` flavour): it refuses any associated data, and otherwise
/// encrypts the buffer in place and returns the tag that its combined form
/// puts in front of the encrypted bytes.
#[verifier::external_body]
pub(crate) fn xchacha20poly1305_encrypt_detached(
    key: &[u8; 32],
    nonce: &[u8; 24],
    aad: &[u8],
    buffer: &mut [u8],
) -> (r: Result<[u8; 16], aead::Error>)
    ensures
        final(buffer)@.len() == old(buffer)@.len(),
        r is Ok <==> aad@.len() == 0,
        r matches Ok(tag) ==> tag@ + final(buffer)@ == xchacha20poly1305_of(key@, nonce@, old(buffer)@),
        r is Err ==> final(buffer)@ == old(buffer)@,
{
    let cipher = crypto_secretbox::XChaCha20Poly1305::new(GenericArray::from_slice(key));
    cipher.encrypt_in_place_detached(GenericArray::from_slice(nonce), aad, buffer).map(|t| t.into())
}

/// Relies on `XChaCha20Poly1305::decrypt_in_place_detached` (the
/// `crypto_secretbox` flavour): it refuses any associated data; it decrypts
/// the buffer exactly when the tag and the buffer are the combined form of
/// some plaintext, which is then left in the buffer; on failure the buffer is
/// untouched.
#[verifier::external_body]
pub(crate) fn xchacha20poly1305_decrypt_detached(
    key: &[u8; 32],
    nonce: &[u8; 24],
    aad: &[u8],
    buffer: &mut [u8],
    tag: &[u8; 16],
) -> (r: Result<(), aead::Error>)
    ensures
        final(buffer)@.len() == old(buffer)@.len(),
        aad@.len() > 0 ==> r is Err,
        r is Ok ==> tag@ + old(buffer)@ == xchacha20poly1305_of(key@, nonce@, final(buffer)@),
        forall|p: Seq<u8>|
            aad@.len() == 0 && tag@ + old(buffer)@ == #[trigger] xchacha20poly1305_of(key@, nonce@, p)
                ==> r is Ok && final(buffer)@ == p,
        r is Err ==> final(buffer)@ == old(buffer)@,
{
    let cipher = crypto_secretbox::XChaCha20Poly1305::new(GenericArray::from_slice(key));
    cipher.decrypt_in_place_detached(GenericArray::from_slice(nonce), aad, buffer, GenericArray::from_slice(tag))
}

/// Relies on `Blake2b::<U24>::digest`: the 24-byte BLAKE2b hash of `data`.
#[verifier::external_body]
pub(crate) fn blake2b_24(data: &[u8]) -> (r: [u8; 24])
    ensures
        r@ == blake2b_24_of(data@),
{
    blake2::Blake2b::<aead::consts::U24>::digest(data).into()
}

} // verus!
