use crypto_box::{seal, seal_open, seal_with_ephemeral_key, BoxError, PublicKey, SalsaBox, SecretKey, SEALBYTES};

const RECIPIENT_SECRET: [u8; 32] = [
    0x5d, 0xab, 0x08, 0x7e, 0x62, 0x4a, 0x8a, 0x4b, 0x79, 0xe1, 0x7f, 0x8b, 0x83, 0x80, 0x0e, 0xe6,
    0x6f, 0x3b, 0xb1, 0x29, 0x26, 0x18, 0xb6, 0xfd, 0x1c, 0x2f, 0x8b, 0x27, 0xff, 0x88, 0xe0, 0xeb,
];

const EPHEMERAL_SECRET: [u8; 32] = [
    0x77, 0x07, 0x6d, 0x0a, 0x73, 0x18, 0xa5, 0x7d, 0x3c, 0x16, 0xc1, 0x72, 0x51, 0xb2, 0x66, 0x45,
    0xdf, 0x4c, 0x2f, 0x87, 0xeb, 0xc0, 0x99, 0x2a, 0xb1, 0x77, 0xfb, 0xa5, 0x1d, 0xb9, 0x2c, 0x2a,
];

#[test]
fn sealed_box_round_trip() {
    let mut rng = aead::rand_core::OsRng;
    let sk = SecretKey::from(RECIPIENT_SECRET);
    let pk = sk.public_key();
    for pt in [&b""[..], &b"x"[..], &b"Top secret message we're encrypting"[..]] {
        let sealed = seal(&mut rng, &pk, pt).unwrap();
        assert_eq!(sealed.len(), pt.len() + 48);
        assert_eq!(seal_open(&sk, &sealed).unwrap(), pt);
    }
}

#[test]
fn sealed_box_length() {
    let mut rng = aead::rand_core::OsRng;
    let pk = SecretKey::from(RECIPIENT_SECRET).public_key();
    assert_eq!(SEALBYTES, 48);
    for len in [0usize, 1, 31, 32, 33, 1000] {
        let sealed = seal(&mut rng, &pk, &vec![1u8; len]).unwrap();
        assert_eq!(sealed.len(), len + SEALBYTES);
    }
}

#[test]
fn sealed_boxes_use_fresh_ephemeral_keys() {
    let mut rng = aead::rand_core::OsRng;
    let pk = SecretKey::from(RECIPIENT_SECRET).public_key();
    let a = seal(&mut rng, &pk, b"same").unwrap();
    let b = seal(&mut rng, &pk, b"same").unwrap();
    assert_ne!(&a[..32], &b[..32]);
}

#[test]
fn sealed_box_with_given_ephemeral_key() {
    let rsk = SecretKey::from(RECIPIENT_SECRET);
    let esk = SecretKey::from(EPHEMERAL_SECRET);
    let a = seal_with_ephemeral_key(&esk, &rsk.public_key(), b"hello");
    let b = seal_with_ephemeral_key(&esk, &rsk.public_key(), b"hello");
    assert_eq!(a, b);
    assert_eq!(&a[..32], &esk.public_key().to_bytes()[..]);
    assert_eq!(seal_open(&rsk, &a).unwrap(), b"hello");
}

#[test]
fn sealed_box_nonce_is_a_hash_of_both_keys() {
    let rsk = SecretKey::from(RECIPIENT_SECRET);
    let esk = SecretKey::from(EPHEMERAL_SECRET);
    let sealed = seal_with_ephemeral_key(&esk, &rsk.public_key(), b"hello");
    let epk = PublicKey::from_slice(&sealed[..32]).unwrap();
    let salsabox = SalsaBox::new(&epk, &rsk);
    let mut prefix_nonce = [0u8; 24];
    prefix_nonce.copy_from_slice(&sealed[..24]);
    assert_eq!(salsabox.decrypt(&prefix_nonce, &[], &sealed[32..]), Err(BoxError));
    assert_eq!(salsabox.decrypt(&[0u8; 24], &[], &sealed[32..]), Err(BoxError));
}

#[test]
fn short_sealed_box_is_refused() {
    let sk = SecretKey::from(RECIPIENT_SECRET);
    assert_eq!(seal_open(&sk, &[]), Err(BoxError));
    assert_eq!(seal_open(&sk, &[0u8; 32]), Err(BoxError));
    assert_eq!(seal_open(&sk, &[0u8; 33]), Err(BoxError));
    assert_eq!(seal_open(&sk, &[0u8; 48]), Err(BoxError));
}

#[test]
fn sealed_box_for_another_recipient_is_refused() {
    let mut rng = aead::rand_core::OsRng;
    let other = SecretKey::from(EPHEMERAL_SECRET);
    let pk = SecretKey::from(RECIPIENT_SECRET).public_key();
    let mut sealed = seal(&mut rng, &pk, b"for the recipient only").unwrap();
    assert_eq!(seal_open(&other, &sealed), Err(BoxError));
    let last = sealed.len() - 1;
    sealed[last] ^= 1;
    assert_eq!(seal_open(&SecretKey::from(RECIPIENT_SECRET), &sealed), Err(BoxError));
}
