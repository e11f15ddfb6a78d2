//! Sealed boxes: anonymous encryption to a public key. Each message gets a
//! fresh ephemeral key pair; the nonce is the BLAKE2b-24 hash of the
//! ephemeral and the recipient public keys, and the ephemeral public key goes
//! in front of the ciphertext.

use vstd::prelude::*;
use crate::cipher::XSalsa20;
use crate::cryptobox::{box_key, concat, SalsaBox};
use crate::keys::{is_clamped, PublicKey, SecretKey};
use crate::primitives::{blake2b_24, blake2b_24_of, x25519_base_of, x25519_of, xsalsa20poly1305_of};
use crate::{BoxError, KEY_SIZE, SEALBYTES};

verus! {

/// The nonce of a sealed box: BLAKE2b-24 of the ephemeral public key followed
/// by the recipient's public key.
pub open spec fn seal_nonce(ephemeral_pk: Seq<u8>, recipient_pk: Seq<u8>) -> Seq<u8> {
    blake2b_24_of(ephemeral_pk + recipient_pk)
}

/// The sealed box of `pt` for `recipient_pk` made with the ephemeral secret
/// key `ephemeral_sk`: the ephemeral public key, then the XSalsa20Poly1305
/// box of `pt` under the key shared between the ephemeral secret key and the
/// recipient, with the derived nonce.
pub open spec fn sealed_box(ephemeral_sk: Seq<u8>, recipient_pk: Seq<u8>, pt: Seq<u8>) -> Seq<u8> {
    let epk = x25519_base_of(ephemeral_sk);
    epk + xsalsa20poly1305_of(
        box_key::<XSalsa20>(recipient_pk, ephemeral_sk),
        seal_nonce(epk, recipient_pk),
        pt,
    )
}

/// `c` is the sealed box of `pt` for `recipient_pk` made with the ephemeral
/// secret key `ephemeral_sk`; it starts with the ephemeral public key and is
/// 48 bytes longer than `pt`.
pub open spec fn seals_to(ephemeral_sk: Seq<u8>, recipient_pk: Seq<u8>, pt: Seq<u8>, c: Seq<u8>) -> bool {
    &&& c == sealed_box(ephemeral_sk, recipient_pk, pt)
    &&& c.len() == pt.len() + SEALBYTES
    &&& c.subrange(0, KEY_SIZE as int) == x25519_base_of(ephemeral_sk)
}

/// What opening `c` with `recipient_sk` may return: a plaintext that `c`
/// opens to, and that plaintext whenever there is one; otherwise an error.
pub open spec fn seal_open_outcome(recipient_sk: Seq<u8>, c: Seq<u8>, r: Result<Seq<u8>, BoxError>) -> bool {
    &&& r matches Ok(q) ==> opens_to(recipient_sk, c, q)
    &&& forall|p: Seq<u8>| #[trigger] opens_to(recipient_sk, c, p) ==> r == Ok::<Seq<u8>, BoxError>(p)
}

/// `c` is a sealed box that the holder of `recipient_sk` opens to `pt`: its
/// first 32 bytes are an ephemeral public key, and the rest is the box of
/// `pt` under the key shared between `recipient_sk` and that ephemeral key,
/// with the nonce derived from the ephemeral and the recipient's public keys.
pub open spec fn opens_to(recipient_sk: Seq<u8>, c: Seq<u8>, pt: Seq<u8>) -> bool {
    let epk = c.subrange(0, KEY_SIZE as int);
    &&& c.len() == pt.len() + SEALBYTES
    &&& c.subrange(KEY_SIZE as int, c.len() as int) == xsalsa20poly1305_of(
        box_key::<XSalsa20>(epk, recipient_sk),
        seal_nonce(epk, x25519_base_of(recipient_sk)),
        pt,
    )
}

/// The nonce of a sealed box, from the two public keys.
fn get_seal_nonce(ephemeral_pk: &PublicKey, recipient_pk: &PublicKey) -> (r: [u8; 24])
    ensures
        r@ == seal_nonce(ephemeral_pk@, recipient_pk@),
{
    let data = concat(ephemeral_pk.as_bytes(), recipient_pk.as_bytes());
    blake2b_24(data.as_slice())
}

/// Seals `plaintext` for `recipient_pk` with the given ephemeral secret key.
/// The sealed box is only anonymous and safe if that key is fresh and is
/// never used again; `seal` draws one for each message.
pub fn seal_with_ephemeral_key(
    ephemeral_sk: &SecretKey,
    recipient_pk: &PublicKey,
    plaintext: &[u8],
) -> (r: Vec<u8>)
    ensures
        seals_to(ephemeral_sk@, recipient_pk@, plaintext@, r@),
{
    let ephemeral_pk = ephemeral_sk.public_key();
    let nonce = get_seal_nonce(&ephemeral_pk, recipient_pk);
    let salsabox = SalsaBox::new(recipient_pk, ephemeral_sk);
    let no_aad: [u8; 0] = [];
    let encrypted = salsabox.encrypt(&nonce, &no_aad, plaintext);
    match encrypted {
        Ok(c) => {
            let out = concat(ephemeral_pk.as_bytes(), c.as_slice());
            assert(out@.subrange(0, KEY_SIZE as int) =~= ephemeral_pk@);
            out
        },
        Err(_) => {
            assert(false);
            Vec::new()
        },
    }
}

/// Seals `plaintext` for `recipient_pk` (libsodium's `crypto_box_seal`),
/// with an ephemeral key drawn from `csprng`. Fails only when the random
/// source does.
pub fn seal(csprng: &mut aead::rand_core::OsRng, recipient_pk: &PublicKey, plaintext: &[u8]) -> (r:
    Result<Vec<u8>, BoxError>)
    ensures
        r matches Ok(c) ==> exists|esk: Seq<u8>|
            is_clamped(esk) && #[trigger] seals_to(esk, recipient_pk@, plaintext@, c@),
        r matches Ok(c) ==> c@.len() == plaintext@.len() + SEALBYTES,
{
    match SecretKey::generate(csprng) {
        Ok(ephemeral_sk) => {
            let sealed = seal_with_ephemeral_key(&ephemeral_sk, recipient_pk, plaintext);
            let ghost esk = ephemeral_sk@;
            let r: Result<Vec<u8>, BoxError> = Ok(sealed);
            assert(is_clamped(esk) && seals_to(esk, recipient_pk@, plaintext@, r->Ok_0@));
            r
        },
        Err(e) => Err(e),
    }
}

/// Opens a sealed box with the recipient's secret key (libsodium's
/// `crypto_box_seal_open`). Anything of 32 bytes or fewer is refused; beyond
/// that, it succeeds exactly when the box opens to some plaintext, and
/// returns it.
pub fn seal_open(recipient_sk: &SecretKey, ciphertext: &[u8]) -> (r: Result<Vec<u8>, BoxError>)
    ensures
        ciphertext@.len() <= KEY_SIZE ==> r is Err,
        seal_open_outcome(
            recipient_sk@,
            ciphertext@,
            match r {
                Ok(q) => Ok(q@),
                Err(e) => Err(e),
            },
        ),
{
    if ciphertext.len() <= KEY_SIZE {
        return Err(BoxError);
    }
    let ephemeral_pk = match PublicKey::from_slice(
        vstd::slice::slice_subrange(ciphertext, 0, KEY_SIZE),
    ) {
        Some(k) => k,
        None => {
            assert(false);
            return Err(BoxError);
        },
    };
    let nonce = get_seal_nonce(&ephemeral_pk, &recipient_sk.public_key());
    let salsabox = SalsaBox::new(&ephemeral_pk, recipient_sk);
    let no_aad: [u8; 0] = [];
    let body = vstd::slice::slice_subrange(ciphertext, KEY_SIZE, ciphertext.len());
    let res = salsabox.decrypt(&nonce, &no_aad, body);
    proof {
        assert forall|p: Seq<u8>| #[trigger]
            opens_to(recipient_sk@, ciphertext@, p) implies salsabox.encrypts_to(
            nonce@,
            no_aad@,
            p,
            body@,
        ) by {}
    }
    res
}

/// Sealed-box round trip, given X25519 key agreement: when the shared point
/// of the ephemeral secret key and the recipient's public key equals that of
/// the recipient's secret key and the ephemeral public key, every outcome of
/// opening the sealed box of `pt` with the recipient's secret key is `Ok(pt)`.
pub proof fn lemma_seal_open_round_trip_given_agreement(
    recipient_sk: Seq<u8>,
    ephemeral_sk: Seq<u8>,
    pt: Seq<u8>,
    c: Seq<u8>,
    r: Result<Seq<u8>, BoxError>,
)
    requires
        x25519_of(ephemeral_sk, x25519_base_of(recipient_sk)) == x25519_of(
            recipient_sk,
            x25519_base_of(ephemeral_sk),
        ),
        seals_to(ephemeral_sk, x25519_base_of(recipient_sk), pt, c),
        seal_open_outcome(recipient_sk, c, r),
    ensures
        r == Ok::<Seq<u8>, BoxError>(pt),
{
    let epk = x25519_base_of(ephemeral_sk);
    let rpk = x25519_base_of(recipient_sk);
    let body = xsalsa20poly1305_of(box_key::<XSalsa20>(rpk, ephemeral_sk), seal_nonce(epk, rpk), pt);
    assert(c.subrange(KEY_SIZE as int, c.len() as int) =~= body);
    assert(opens_to(recipient_sk, c, pt));
}

} // verus!
