use crypto_box::{BoxError, ChaChaBox, PublicKey, SalsaBox, SecretKey};

const ALICE_SECRET: [u8; 32] = [
    0x77, 0x07, 0x6d, 0x0a, 0x73, 0x18, 0xa5, 0x7d, 0x3c, 0x16, 0xc1, 0x72, 0x51, 0xb2, 0x66, 0x45,
    0xdf, 0x4c, 0x2f, 0x87, 0xeb, 0xc0, 0x99, 0x2a, 0xb1, 0x77, 0xfb, 0xa5, 0x1d, 0xb9, 0x2c, 0x2a,
];

const BOB_SECRET: [u8; 32] = [
    0x5d, 0xab, 0x08, 0x7e, 0x62, 0x4a, 0x8a, 0x4b, 0x79, 0xe1, 0x7f, 0x8b, 0x83, 0x80, 0x0e, 0xe6,
    0x6f, 0x3b, 0xb1, 0x29, 0x26, 0x18, 0xb6, 0xfd, 0x1c, 0x2f, 0x8b, 0x27, 0xff, 0x88, 0xe0, 0xeb,
];

const BOB_PUBLIC: [u8; 32] = [
    0xde, 0x9e, 0xdb, 0x7d, 0x7b, 0x7d, 0xc1, 0xb4, 0xd3, 0x5b, 0x61, 0xc2, 0xec, 0xe4, 0x35, 0x37,
    0x3f, 0x83, 0x43, 0xc8, 0x5b, 0x78, 0x67, 0x4d, 0xad, 0xfc, 0x7e, 0x14, 0x6f, 0x88, 0x2b, 0x4f,
];

const NONCE: [u8; 24] = [
    0x69, 0x69, 0x6e, 0xe9, 0x55, 0xb6, 0x2b, 0x73, 0xcd, 0x62, 0xbd, 0xa8, 0x75, 0xfc, 0x73, 0xd6,
    0x82, 0x19, 0xe0, 0x03, 0x6b, 0x7a, 0x0b, 0x37,
];

const PLAINTEXT: &[u8] = b"Top secret message we're encrypting";

fn alice_box() -> SalsaBox {
    SalsaBox::new(&PublicKey::from(BOB_PUBLIC), &SecretKey::from(ALICE_SECRET))
}

fn bob_box() -> SalsaBox {
    let alice_pk = SecretKey::from(ALICE_SECRET).public_key();
    SalsaBox::new(&alice_pk, &SecretKey::from(BOB_SECRET))
}

#[test]
fn bob_public_key_matches_secret() {
    assert_eq!(SecretKey::from(BOB_SECRET).public_key().to_bytes(), BOB_PUBLIC);
}

#[test]
fn peer_decrypts_literal_message() {
    let ciphertext = alice_box().encrypt(&NONCE, &[], PLAINTEXT).unwrap();
    let decrypted = bob_box().decrypt(&NONCE, &[], &ciphertext).unwrap();
    assert_eq!(decrypted, PLAINTEXT);
}

#[test]
fn both_sides_agree_in_both_directions() {
    let ciphertext = bob_box().encrypt(&NONCE, &[], b"reply").unwrap();
    assert_eq!(alice_box().decrypt(&NONCE, &[], &ciphertext).unwrap(), b"reply");
    let a = alice_box().encrypt(&NONCE, &[], PLAINTEXT).unwrap();
    let b = bob_box().encrypt(&NONCE, &[], PLAINTEXT).unwrap();
    assert_eq!(a, b);
}

#[test]
fn known_answer_of_nacl_box() {
    // The first block of the classic NaCl box test message and its encryption.
    let message: [u8; 16] = [
        0xbe, 0x07, 0x5f, 0xc5, 0x3c, 0x81, 0xf2, 0xd5, 0xcf, 0x14, 0x13, 0x16, 0xeb, 0xeb, 0x0c,
        0x7b,
    ];
    let expected_body: [u8; 16] = [
        0x8e, 0x99, 0x3b, 0x9f, 0x48, 0x68, 0x12, 0x73, 0xc2, 0x96, 0x50, 0xba, 0x32, 0xfc, 0x76,
        0xce,
    ];
    let ciphertext = alice_box().encrypt(&NONCE, &[], &message).unwrap();
    assert_eq!(ciphertext.len(), 32);
    assert_eq!(&ciphertext[16..], &expected_body[..]);
}

#[test]
fn ciphertext_is_sixteen_bytes_longer() {
    for len in [0usize, 1, 15, 16, 17, 100] {
        let pt = vec![7u8; len];
        let ct = alice_box().encrypt(&NONCE, &[], &pt).unwrap();
        assert_eq!(ct.len(), len + 16);
        assert_eq!(bob_box().decrypt(&NONCE, &[], &ct).unwrap(), pt);
    }
}

#[test]
fn encryption_is_deterministic() {
    let a = alice_box().encrypt(&NONCE, &[], PLAINTEXT).unwrap();
    let b = alice_box().encrypt(&NONCE, &[], PLAINTEXT).unwrap();
    assert_eq!(a, b);
    assert_ne!(&a[16..], PLAINTEXT);
}

#[test]
fn every_flipped_bit_is_detected() {
    let ciphertext = alice_box().encrypt(&NONCE, &[], b"short").unwrap();
    let bob = bob_box();
    for i in 0..ciphertext.len() {
        for bit in 0..8 {
            let mut tampered = ciphertext.clone();
            tampered[i] ^= 1 << bit;
            assert_eq!(bob.decrypt(&NONCE, &[], &tampered), Err(BoxError));
        }
    }
    for i in 0..NONCE.len() {
        let mut nonce = NONCE;
        nonce[i] ^= 0x80;
        assert_eq!(bob.decrypt(&nonce, &[], &ciphertext), Err(BoxError));
    }
}

#[test]
fn associated_data_is_refused() {
    assert_eq!(alice_box().encrypt(&NONCE, b"aad", PLAINTEXT), Err(BoxError));
    let ciphertext = alice_box().encrypt(&NONCE, &[], PLAINTEXT).unwrap();
    assert_eq!(bob_box().decrypt(&NONCE, &[0], &ciphertext), Err(BoxError));
}

#[test]
fn short_ciphertext_is_refused() {
    let bob = bob_box();
    assert_eq!(bob.decrypt(&NONCE, &[], &[]), Err(BoxError));
    assert_eq!(bob.decrypt(&NONCE, &[], &[0u8; 15]), Err(BoxError));
    assert_eq!(bob.decrypt(&NONCE, &[], &[0u8; 16]), Err(BoxError));
}

#[test]
fn wrong_key_is_refused() {
    let ciphertext = alice_box().encrypt(&NONCE, &[], PLAINTEXT).unwrap();
    let eve = SalsaBox::new(&PublicKey::from(BOB_PUBLIC), &SecretKey::from(BOB_SECRET));
    assert_eq!(eve.decrypt(&NONCE, &[], &ciphertext), Err(BoxError));
}

#[test]
fn in_place_round_trip() {
    let mut buffer = PLAINTEXT.to_vec();
    alice_box().encrypt_in_place(&NONCE, &[], &mut buffer).unwrap();
    assert_eq!(buffer, alice_box().encrypt(&NONCE, &[], PLAINTEXT).unwrap());
    bob_box().decrypt_in_place(&NONCE, &[], &mut buffer).unwrap();
    assert_eq!(buffer, PLAINTEXT);
}

#[test]
fn failed_in_place_leaves_buffer() {
    let mut buffer = PLAINTEXT.to_vec();
    assert_eq!(alice_box().encrypt_in_place(&NONCE, &[1], &mut buffer), Err(BoxError));
    assert_eq!(buffer, PLAINTEXT);
    assert_eq!(bob_box().decrypt_in_place(&NONCE, &[], &mut buffer), Err(BoxError));
    assert_eq!(buffer, PLAINTEXT);
}

#[test]
fn detached_matches_combined() {
    let combined = alice_box().encrypt(&NONCE, &[], PLAINTEXT).unwrap();
    let mut buffer = PLAINTEXT.to_vec();
    let tag = alice_box().encrypt_in_place_detached(&NONCE, &[], &mut buffer).unwrap();
    assert_eq!(&combined[..16], &tag[..]);
    assert_eq!(&combined[16..], &buffer[..]);

    let mut wrong_tag = tag;
    wrong_tag[0] ^= 1;
    let before = buffer.clone();
    assert_eq!(bob_box().decrypt_in_place_detached(&NONCE, &[], &mut buffer, &wrong_tag), Err(BoxError));
    assert_eq!(buffer, before);
    bob_box().decrypt_in_place_detached(&NONCE, &[], &mut buffer, &tag).unwrap();
    assert_eq!(buffer, PLAINTEXT);
}

#[test]
fn chacha_box_round_trip() {
    let alice = ChaChaBox::new(&PublicKey::from(BOB_PUBLIC), &SecretKey::from(ALICE_SECRET));
    let bob = ChaChaBox::new(&SecretKey::from(ALICE_SECRET).public_key(), &SecretKey::from(BOB_SECRET));
    let ciphertext = alice.encrypt(&NONCE, &[], PLAINTEXT).unwrap();
    assert_eq!(ciphertext.len(), PLAINTEXT.len() + 16);
    assert_eq!(bob.decrypt(&NONCE, &[], &ciphertext).unwrap(), PLAINTEXT);
    let salsa = alice_box().encrypt(&NONCE, &[], PLAINTEXT).unwrap();
    assert_ne!(ciphertext, salsa);
    assert_eq!(alice_box().decrypt(&NONCE, &[], &ciphertext), Err(BoxError));
}
