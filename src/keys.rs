//! Secret and public X25519 keys.

use vstd::prelude::*;
use crate::primitives::{clamp, clamp_spec, os_random_32, wipe, x25519_base, x25519_base_of};
use crate::BoxError;

verus! {

/// A 32-byte string that clamping leaves as it is.
pub open spec fn is_clamped(b: Seq<u8>) -> bool {
    b.len() == 32 && clamp_spec(b) == b
}

/// Clamping is idempotent, so every clamped string is a valid secret key.
pub proof fn lemma_clamp_is_clamped(b: Seq<u8>)
    requires
        b.len() == 32,
    ensures
        is_clamped(clamp_spec(b)),
{
    let c = clamp_spec(b);
    let x = b[0];
    let y = b[31];
    assert((x & 0b1111_1000u8) & 0b1111_1000u8 == x & 0b1111_1000u8) by (bit_vector);
    assert((((y & 0b0111_1111u8) | 0b0100_0000u8) & 0b0111_1111u8) | 0b0100_0000u8
        == (y & 0b0111_1111u8) | 0b0100_0000u8) by (bit_vector);
    assert(clamp_spec(c) =~= c);
}

/// A secret X25519 key: 32 clamped bytes. Its bytes are overwritten with
/// zeros when it is dropped; it has neither equality nor ordering.
#[derive(Clone)]
pub struct SecretKey {
    bytes: [u8; 32],
}

impl View for SecretKey {
    type V = Seq<u8>;

    closed spec fn view(&self) -> Seq<u8> {
        self.bytes@
    }
}

impl SecretKey {
    /// The key's bytes are clamped.
    pub closed spec fn wf(&self) -> bool {
        is_clamped(self.bytes@)
    }

    /// A secret key from 32 raw bytes, clamped on the way in.
    pub fn from_bytes(bytes: [u8; 32]) -> (r: SecretKey)
        ensures
            r@ == clamp_spec(bytes@),
            r.wf(),
    {
        proof {
            lemma_clamp_is_clamped(bytes@);
        }
        SecretKey { bytes: clamp(bytes) }
    }

    /// A fresh secret key from the operating system's random source; the
    /// source's failure is handed on.
    pub fn generate(csprng: &mut aead::rand_core::OsRng) -> (r: Result<SecretKey, BoxError>)
        ensures
            r matches Ok(k) ==> k.wf() && is_clamped(k@),
    {
        match os_random_32(csprng) {
            Ok(bytes) => Ok(SecretKey::from_bytes(bytes)),
            Err(_) => Err(BoxError),
        }
    }

    /// The public key `[k]B` of this secret key.
    pub fn public_key(&self) -> (r: PublicKey)
        ensures
            r@ == x25519_base_of(self@),
    {
        PublicKey { bytes: x25519_base(&self.bytes) }
    }

    /// The key's 32 bytes. These are secret key material.
    pub fn to_bytes(&self) -> (r: [u8; 32])
        ensures
            r@ == self@,
    {
        self.bytes
    }

    pub(crate) fn as_array(&self) -> (r: &[u8; 32])
        ensures
            r@ == self@,
    {
        &self.bytes
    }
}

impl From<[u8; 32]> for SecretKey {
    fn from(bytes: [u8; 32]) -> (r: SecretKey) {
        let r = SecretKey::from_bytes(bytes);
        proof {
            let k = choose|k: SecretKey| k@ == clamp_spec(bytes@);
            assert(k.bytes =~= r.bytes);
        }
        r
    }
}

impl vstd::std_specs::convert::FromSpecImpl<[u8; 32]> for SecretKey {
    open spec fn obeys_from_spec() -> bool {
        true
    }

    /// The secret key whose bytes are the clamped `bytes`.
    open spec fn from_spec(bytes: [u8; 32]) -> SecretKey {
        choose|k: SecretKey| k@ == clamp_spec(bytes@)
    }
}

impl Drop for SecretKey {
    fn drop(&mut self)
        opens_invariants none
        no_unwind
    {
        wipe(&mut self.bytes);
    }
}

/// A public X25519 key: 32 bytes, taken as they are, with no check that they
/// name a point of the curve's prime-order subgroup.
#[derive(Clone, Copy, Debug, Eq, Hash, PartialOrd, Ord)]
pub struct PublicKey {
    bytes: [u8; 32],
}

impl View for PublicKey {
    type V = Seq<u8>;

    closed spec fn view(&self) -> Seq<u8> {
        self.bytes@
    }
}

impl PartialEq for PublicKey {
    fn eq(&self, o: &PublicKey) -> (r: bool) {
        let mut i: usize = 0;
        while i < 32
            invariant
                0 <= i <= 32,
                self.bytes@.len() == 32,
                o.bytes@.len() == 32,
                forall|j: int| 0 <= j < i ==> self.bytes@[j] == o.bytes@[j],
            decreases 32 - i,
        {
            if self.bytes[i] != o.bytes[i] {
                return false;
            }
            i = i + 1;
        }
        assert(self.bytes@ =~= o.bytes@);
        true
    }
}

impl vstd::std_specs::cmp::PartialEqSpecImpl for PublicKey {
    open spec fn obeys_eq_spec() -> bool {
        true
    }

    open spec fn eq_spec(&self, o: &PublicKey) -> bool {
        self@ == o@
    }
}

impl AsRef<[u8]> for PublicKey {
    fn as_ref(&self) -> &[u8] {
        self.bytes.as_slice()
    }
}

impl From<[u8; 32]> for PublicKey {
    fn from(bytes: [u8; 32]) -> (r: PublicKey) {
        let r = PublicKey::from_bytes(bytes);
        proof {
            let k = choose|k: PublicKey| k@ == bytes@;
            assert(k.bytes =~= r.bytes);
        }
        r
    }
}

impl vstd::std_specs::convert::FromSpecImpl<[u8; 32]> for PublicKey {
    open spec fn obeys_from_spec() -> bool {
        true
    }

    open spec fn from_spec(bytes: [u8; 32]) -> PublicKey {
        choose|k: PublicKey| k@ == bytes@
    }
}

impl From<&SecretKey> for PublicKey {
    fn from(secret_key: &SecretKey) -> (r: PublicKey) {
        let r = secret_key.public_key();
        proof {
            let k = choose|k: PublicKey| k@ == x25519_base_of(secret_key@);
            assert(k.bytes =~= r.bytes);
        }
        r
    }
}

impl vstd::std_specs::convert::FromSpecImpl<&SecretKey> for PublicKey {
    open spec fn obeys_from_spec() -> bool {
        true
    }

    /// The public key of `secret_key`.
    open spec fn from_spec(secret_key: &SecretKey) -> PublicKey {
        choose|k: PublicKey| k@ == x25519_base_of(secret_key@)
    }
}

impl PublicKey {
    /// A public key with the given bytes.
    pub fn from_bytes(bytes: [u8; 32]) -> (r: PublicKey)
        ensures
            r@ == bytes@,
    {
        PublicKey { bytes }
    }

    /// A public key copied from a slice of exactly 32 bytes; `None` for any
    /// other length.
    pub fn from_slice(slice: &[u8]) -> (r: Option<PublicKey>)
        ensures
            r is Some <==> slice@.len() == 32,
            r matches Some(k) ==> k@ == slice@,
    {
        if slice.len() != 32 {
            return None;
        }
        let mut bytes = [0u8; 32];
        let mut i: usize = 0;
        while i < 32
            invariant
                slice@.len() == 32,
                0 <= i <= 32,
                bytes@.len() == 32,
                forall|j: int| 0 <= j < i ==> bytes@[j] == slice@[j],
            decreases 32 - i,
        {
            bytes[i] = slice[i];
            i = i + 1;
        }
        assert(bytes@ =~= slice@);
        Some(PublicKey { bytes })
    }

    /// The key's bytes, borrowed.
    pub fn as_bytes(&self) -> (r: &[u8; 32])
        ensures
            r@ == self@,
    {
        &self.bytes
    }

    /// The key's bytes.
    pub fn to_bytes(&self) -> (r: [u8; 32])
        ensures
            r@ == self@,
    {
        self.bytes
    }
}

/// Key-pair determinism: secret keys made from the same bytes have the same
/// public key.
pub proof fn lemma_key_pair_deterministic(
    b: Seq<u8>,
    k1: SecretKey,
    k2: SecretKey,
    p1: PublicKey,
    p2: PublicKey,
)
    requires
        k1@ == clamp_spec(b),
        k2@ == clamp_spec(b),
        p1@ == x25519_base_of(k1@),
        p2@ == x25519_base_of(k2@),
    ensures
        p1 == p2,
{
    assert(p1.bytes =~= p2.bytes);
}

} // verus!
