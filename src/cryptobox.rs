//! The box: X25519 key agreement followed by a `crypto_secretbox` under the
//! derived key.

use vstd::prelude::*;
use core::marker::PhantomData;
use crate::cipher::{BoxCipher, XChaCha20, XSalsa20};
use crate::keys::{PublicKey, SecretKey};
use crate::primitives::{wipe, x25519, x25519_of};
use crate::{BoxError, TAG_SIZE};

verus! {

/// The all-zero input the key derivation is run on.
pub open spec fn kdf_context() -> Seq<u8> {
    Seq::new(16, |_i: int| 0u8)
}

/// The symmetric key that a box over `public_key` and `secret_key` holds:
/// the key derivation applied to the shared X25519 point.
pub open spec fn box_key<C: BoxCipher>(public_key: Seq<u8>, secret_key: Seq<u8>) -> Seq<u8> {
    C::kdf_spec(x25519_of(secret_key, public_key), kdf_context())
}

/// A `Vec` holding `head` followed by `tail`.
pub(crate) fn concat(head: &[u8], tail: &[u8]) -> (r: Vec<u8>)
    ensures
        r@ == head@ + tail@,
{
    let mut out: Vec<u8> = Vec::new();
    let mut i: usize = 0;
    while i < head.len()
        invariant
            0 <= i <= head@.len(),
            out@ == head@.subrange(0, i as int),
        decreases head@.len() - i,
    {
        out.push(head[i]);
        i = i + 1;
    }
    let mut j: usize = 0;
    while j < tail.len()
        invariant
            0 <= j <= tail@.len(),
            out@ == head@ + tail@.subrange(0, j as int),
        decreases tail@.len() - j,
    {
        out.push(tail[j]);
        j = j + 1;
    }
    assert(tail@.subrange(0, tail@.len() as int) =~= tail@);
    out
}

/// The first 16 bytes of `s` as an array.
fn tag_prefix(s: &[u8]) -> (r: [u8; 16])
    requires
        s@.len() >= 16,
    ensures
        r@ == s@.subrange(0, 16),
{
    let mut tag = [0u8; 16];
    let mut i: usize = 0;
    while i < 16
        invariant
            s@.len() >= 16,
            0 <= i <= 16,
            tag@.len() == 16,
            forall|j: int| 0 <= j < i ==> tag@[j] == s@[j],
        decreases 16 - i,
    {
        tag[i] = s[i];
        i = i + 1;
    }
    assert(tag@ =~= s@.subrange(0, 16));
    tag
}

/// Public-key authenticated encryption between two parties: built from one
/// party's secret key and the other's public key, it holds the key that both
/// sides derive, and encrypts and decrypts under it with the backend `C`. The
/// key is never handed out, and is overwritten with zeros on drop.
pub struct CryptoBox<C: BoxCipher> {
    key: [u8; 32],
    cipher: PhantomData<C>,
}

/// A box on XSalsa20Poly1305, as in NaCl and libsodium.
pub type SalsaBox = CryptoBox<XSalsa20>;

/// A box on XChaCha20Poly1305.
pub type ChaChaBox = CryptoBox<XChaCha20>;

impl<C: BoxCipher> View for CryptoBox<C> {
    type V = Seq<u8>;

    closed spec fn view(&self) -> Seq<u8> {
        self.key@
    }
}

impl<C: BoxCipher> CryptoBox<C> {
    /// The combined ciphertext of `pt` under this box's key and `nonce`.
    pub open spec fn sealed(&self, nonce: Seq<u8>, pt: Seq<u8>) -> Seq<u8> {
        C::seal_spec(self@, nonce, pt)
    }

    /// Runs X25519 on `secret_key` and `public_key` and derives the box's key
    /// from the shared point, which is wiped afterwards.
    pub fn new(public_key: &PublicKey, secret_key: &SecretKey) -> (r: Self)
        ensures
            r@ == box_key::<C>(public_key@, secret_key@),
    {
        let mut shared = x25519(secret_key.as_array(), public_key.as_bytes());
        let context = [0u8; 16];
        assert(context@ =~= kdf_context());
        let key = C::kdf(&shared, &context);
        wipe(&mut shared);
        CryptoBox { key, cipher: PhantomData }
    }

    /// `c` is what encryption of `pt` under `nonce` with associated data
    /// `aad` gives: there is no associated data, and `c` is the tag followed
    /// by the encrypted bytes.
    pub open spec fn encrypts_to(&self, nonce: Seq<u8>, aad: Seq<u8>, pt: Seq<u8>, c: Seq<u8>) -> bool {
        &&& aad.len() == 0
        &&& c == self.sealed(nonce, pt)
        &&& c.len() == pt.len() + TAG_SIZE
    }

    /// What a decryption of `c` may return: a plaintext that encrypts to
    /// `c`, and that plaintext whenever there is one; otherwise an error.
    pub open spec fn decrypt_outcome(
        &self,
        nonce: Seq<u8>,
        aad: Seq<u8>,
        c: Seq<u8>,
        r: Result<Seq<u8>, BoxError>,
    ) -> bool {
        &&& r matches Ok(q) ==> self.encrypts_to(nonce, aad, q, c)
        &&& forall|p: Seq<u8>| #[trigger]
            self.encrypts_to(nonce, aad, p, c) ==> r == Ok::<Seq<u8>, BoxError>(p)
    }

    /// Encrypts `plaintext` under `nonce`. The result is the 16-byte tag
    /// followed by the encrypted bytes. Associated data is refused.
    pub fn encrypt(&self, nonce: &[u8; 24], associated_data: &[u8], plaintext: &[u8]) -> (r:
        Result<Vec<u8>, BoxError>)
        ensures
            r is Ok <==> associated_data@.len() == 0,
            r matches Ok(c) ==> self.encrypts_to(nonce@, associated_data@, plaintext@, c@),
    {
        let mut buffer = vstd::slice::slice_to_vec(plaintext);
        match self.encrypt_in_place(nonce, associated_data, &mut buffer) {
            Ok(()) => Ok(buffer),
            Err(e) => Err(e),
        }
    }

    /// Checks and decrypts `ciphertext` (tag, then encrypted bytes) under
    /// `nonce`. It succeeds exactly when `ciphertext` is the encryption of
    /// some plaintext under this key and nonce, with no associated data, and
    /// then returns that plaintext.
    pub fn decrypt(&self, nonce: &[u8; 24], associated_data: &[u8], ciphertext: &[u8]) -> (r:
        Result<Vec<u8>, BoxError>)
        ensures
            self.decrypt_outcome(
                nonce@,
                associated_data@,
                ciphertext@,
                match r {
                    Ok(q) => Ok(q@),
                    Err(e) => Err(e),
                },
            ),
            ciphertext@.len() < TAG_SIZE ==> r is Err,
    {
        let mut buffer = vstd::slice::slice_to_vec(ciphertext);
        match self.decrypt_in_place(nonce, associated_data, &mut buffer) {
            Ok(()) => Ok(buffer),
            Err(e) => Err(e),
        }
    }

    /// Encrypts `buffer` in place into its combined form (tag, then
    /// encrypted bytes); on failure `buffer` is left as it was.
    pub fn encrypt_in_place(&self, nonce: &[u8; 24], associated_data: &[u8], buffer: &mut Vec<
        u8,
    >) -> (r: Result<(), BoxError>)
        ensures
            r is Ok <==> associated_data@.len() == 0,
            r is Ok ==> self.encrypts_to(nonce@, associated_data@, old(buffer)@, final(buffer)@),
            r is Err ==> final(buffer)@ == old(buffer)@,
    {
        let res = C::encrypt_detached(&self.key, nonce, associated_data, buffer.as_mut_slice());
        match res {
            Ok(tag) => {
                let sealed = concat(&tag, buffer.as_slice());
                *buffer = sealed;
                Ok(())
            },
            Err(e) => Err(e),
        }
    }

    /// Checks and decrypts a combined ciphertext in place; on failure
    /// `buffer` is left as it was.
    pub fn decrypt_in_place(&self, nonce: &[u8; 24], associated_data: &[u8], buffer: &mut Vec<
        u8,
    >) -> (r: Result<(), BoxError>)
        ensures
            r is Ok ==> self.encrypts_to(nonce@, associated_data@, final(buffer)@, old(buffer)@),
            forall|p: Seq<u8>| #[trigger]
                self.encrypts_to(nonce@, associated_data@, p, old(buffer)@) ==> r is Ok
                    && final(buffer)@ == p,
            old(buffer)@.len() < TAG_SIZE ==> r is Err,
            r is Err ==> final(buffer)@ == old(buffer)@,
    {
        if buffer.len() < TAG_SIZE {
            return Err(BoxError);
        }
        let tag = tag_prefix(buffer.as_slice());
        let mut body = vstd::slice::slice_to_vec(
            vstd::slice::slice_subrange(buffer.as_slice(), TAG_SIZE, buffer.len()),
        );
        assert(buffer@ =~= tag@ + body@);
        let res = C::decrypt_detached(&self.key, nonce, associated_data, body.as_mut_slice(), &tag);
        match res {
            Ok(()) => {
                *buffer = body;
                Ok(())
            },
            Err(e) => Err(e),
        }
    }

    /// Encrypts `buffer` in place and returns the tag separately.
    pub fn encrypt_in_place_detached(
        &self,
        nonce: &[u8; 24],
        associated_data: &[u8],
        buffer: &mut [u8],
    ) -> (r: Result<[u8; 16], BoxError>)
        ensures
            final(buffer)@.len() == old(buffer)@.len(),
            r is Ok <==> associated_data@.len() == 0,
            r matches Ok(tag) ==> tag@ + final(buffer)@ == self.sealed(nonce@, old(buffer)@),
            r is Err ==> final(buffer)@ == old(buffer)@,
    {
        C::encrypt_detached(&self.key, nonce, associated_data, buffer)
    }

    /// Checks `tag` against `buffer` and decrypts `buffer` in place; on
    /// failure `buffer` is left as it was.
    pub fn decrypt_in_place_detached(
        &self,
        nonce: &[u8; 24],
        associated_data: &[u8],
        buffer: &mut [u8],
        tag: &[u8; 16],
    ) -> (r: Result<(), BoxError>)
        ensures
            final(buffer)@.len() == old(buffer)@.len(),
            r is Ok ==> associated_data@.len() == 0 && tag@ + old(buffer)@ == self.sealed(
                nonce@,
                final(buffer)@,
            ),
            forall|p: Seq<u8>|
                associated_data@.len() == 0 && tag@ + old(buffer)@ == #[trigger] self.sealed(
                    nonce@,
                    p,
                ) ==> r is Ok && final(buffer)@ == p,
            r is Err ==> final(buffer)@ == old(buffer)@,
    {
        C::decrypt_detached(&self.key, nonce, associated_data, buffer, tag)
    }
}

impl<C: BoxCipher> Drop for CryptoBox<C> {
    fn drop(&mut self)
        opens_invariants none
        no_unwind
    {
        wipe(&mut self.key);
    }
}

/// Decryption undoes encryption: when `c` is what `encrypt` returned for
/// `pt`, every outcome that `decrypt` may have on `c`, under the same nonce
/// and associated data, is `Ok(pt)`.
pub proof fn lemma_round_trip<C: BoxCipher>(
    b: &CryptoBox<C>,
    nonce: Seq<u8>,
    aad: Seq<u8>,
    pt: Seq<u8>,
    c: Seq<u8>,
    r: Result<Seq<u8>, BoxError>,
)
    requires
        b.encrypts_to(nonce, aad, pt, c),
        b.decrypt_outcome(nonce, aad, c, r),
    ensures
        r == Ok::<Seq<u8>, BoxError>(pt),
{
}

/// A ciphertext that differs in any bit from the encryption of `pt` never
/// decrypts to `pt`: it either fails or opens to another plaintext of which
/// it is the genuine encryption.
pub proof fn lemma_tampered_ciphertext_not_opened<C: BoxCipher>(
    b: &CryptoBox<C>,
    nonce: Seq<u8>,
    aad: Seq<u8>,
    pt: Seq<u8>,
    c: Seq<u8>,
    tampered: Seq<u8>,
    r: Result<Seq<u8>, BoxError>,
)
    requires
        b.encrypts_to(nonce, aad, pt, c),
        tampered != c,
        b.decrypt_outcome(nonce, aad, tampered, r),
    ensures
        r != Ok::<Seq<u8>, BoxError>(pt),
        r matches Ok(q) ==> b.encrypts_to(nonce, aad, q, tampered),
{
}

/// Decryption with any associated data fails.
pub proof fn lemma_associated_data_refused<C: BoxCipher>(
    b: &CryptoBox<C>,
    nonce: Seq<u8>,
    aad: Seq<u8>,
    c: Seq<u8>,
    r: Result<Seq<u8>, BoxError>,
)
    requires
        aad.len() > 0,
        b.decrypt_outcome(nonce, aad, c, r),
    ensures
        r is Err,
{
}

/// Encryption is deterministic: boxes holding the same key give
/// byte-identical ciphertexts for the same nonce, associated data and
/// plaintext.
pub proof fn lemma_encrypt_deterministic<C: BoxCipher>(
    b1: &CryptoBox<C>,
    b2: &CryptoBox<C>,
    nonce: Seq<u8>,
    aad: Seq<u8>,
    pt: Seq<u8>,
    c1: Seq<u8>,
    c2: Seq<u8>,
)
    requires
        b1@ == b2@,
        b1.encrypts_to(nonce, aad, pt, c1),
        b2.encrypts_to(nonce, aad, pt, c2),
    ensures
        c1 == c2,
{
}

} // verus!
