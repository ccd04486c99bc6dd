use clawmesh::channel::{agree, agree_outcome, generate_ephemeral_key, CounterNonce};
use clawmesh::{ChannelError, EncryptedChannel};

fn make_channel_pair() -> (EncryptedChannel, EncryptedChannel) {
    let (priv_a, pub_a) = generate_ephemeral_key().unwrap();
    let (priv_b, pub_b) = generate_ephemeral_key().unwrap();
    let secret_a = agree(priv_a, pub_b.as_ref()).unwrap();
    let secret_b = agree(priv_b, pub_a.as_ref()).unwrap();
    assert_eq!(secret_a, secret_b);
    let chan_a = EncryptedChannel::new(&secret_a, true).unwrap();
    let chan_b = EncryptedChannel::new(&secret_b, false).unwrap();
    (chan_a, chan_b)
}

#[test]
fn seal_and_open_roundtrip() {
    let (mut alice, mut bob) = make_channel_pair();
    let plaintext = b"hello from alice";
    let ciphertext = alice.seal(plaintext).unwrap();
    assert_ne!(&ciphertext[..plaintext.len()], plaintext);
    let decrypted = bob.open(&ciphertext).unwrap();
    assert_eq!(decrypted, plaintext);
}

#[test]
fn bidirectional_communication() {
    let (mut alice, mut bob) = make_channel_pair();
    let ct1 = alice.seal(b"ping").unwrap();
    assert_eq!(bob.open(&ct1).unwrap(), b"ping");
    let ct2 = bob.seal(b"pong").unwrap();
    assert_eq!(alice.open(&ct2).unwrap(), b"pong");
    let ct3 = alice.seal(b"message 2").unwrap();
    assert_eq!(bob.open(&ct3).unwrap(), b"message 2");
}

#[test]
fn tampered_ciphertext_rejected() {
    let (mut alice, mut bob) = make_channel_pair();
    let mut ciphertext = alice.seal(b"secret data").unwrap();
    ciphertext[0] ^= 0xff;
    assert!(bob.open(&ciphertext).is_err());
}

#[test]
fn wrong_direction_rejected() {
    let (mut alice, mut _bob) = make_channel_pair();
    let ciphertext = alice.seal(b"self-talk").unwrap();
    assert!(alice.open(&ciphertext).is_err());
}

#[test]
fn key_agreement_roundtrip() {
    let (priv_a, pub_a) = generate_ephemeral_key().unwrap();
    let (priv_b, pub_b) = generate_ephemeral_key().unwrap();
    let secret_a = agree(priv_a, pub_b.as_ref()).unwrap();
    let secret_b = agree(priv_b, pub_a.as_ref()).unwrap();
    assert_eq!(secret_a.len(), 32);
    assert_eq!(secret_a, secret_b);
}

#[test]
fn different_keys_different_secrets() {
    let (priv_a, _pub_a) = generate_ephemeral_key().unwrap();
    let (_, pub_c) = generate_ephemeral_key().unwrap();
    let secret_ac = agree(priv_a, pub_c.as_ref()).unwrap();
    let (_priv_b, pub_b) = generate_ephemeral_key().unwrap();
    let (priv_d, _pub_d) = generate_ephemeral_key().unwrap();
    let secret_bd = agree(priv_d, pub_b.as_ref()).unwrap();
    assert_ne!(secret_ac, secret_bd);
}

#[test]
fn empty_plaintext() {
    let (mut alice, mut bob) = make_channel_pair();
    let ct = alice.seal(b"").unwrap();
    let pt = bob.open(&ct).unwrap();
    assert!(pt.is_empty());
}

#[test]
fn large_message() {
    let (mut alice, mut bob) = make_channel_pair();
    let big = vec![0xABu8; 64 * 1024];
    let ct = alice.seal(&big).unwrap();
    let pt = bob.open(&ct).unwrap();
    assert_eq!(pt, big);
}

#[test]
fn keys_have_32_bytes() {
    assert!(matches!(EncryptedChannel::new(&[0u8; 31], true), Err(ChannelError::InvalidKey)));
    assert!(matches!(EncryptedChannel::new(&[0u8; 33], true), Err(ChannelError::InvalidKey)));
    assert!(EncryptedChannel::new(&[0u8; 32], true).is_ok());
}

#[test]
fn bad_public_keys_are_rejected() {
    let (private, _) = generate_ephemeral_key().unwrap();
    assert_eq!(agree(private, &[1u8; 31]), Err(ChannelError::KeyAgreement));
    let (private, _) = generate_ephemeral_key().unwrap();
    assert_eq!(agree(private, &[0u8; 32]), Err(ChannelError::KeyAgreement));
    assert_eq!(agree_outcome(None), Err(ChannelError::KeyAgreement));
    assert_eq!(agree_outcome(Some(vec![7])), Ok(vec![7]));
}

#[test]
fn sealing_adds_a_tag() {
    let (mut alice, mut bob) = make_channel_pair();
    assert_eq!(alice.seal(b"12345").unwrap().len(), 21);
    assert_eq!(bob.open(b"short"), Err(ChannelError::OpenFailed));
}

#[test]
fn nonces_count_up() {
    let secret = [9u8; 32];
    let mut alice = EncryptedChannel::new(&secret, true).unwrap();
    let first = alice.seal(b"same").unwrap();
    let second = alice.seal(b"same").unwrap();
    assert_ne!(first, second);
    let mut bob = EncryptedChannel::new(&secret, false).unwrap();
    assert!(bob.open(&second).is_err());
    // The failed attempt used up the first number.
    assert_eq!(bob.open(&second).unwrap(), b"same");
}

#[test]
fn sealing_is_chacha20_poly1305_with_counted_nonces() {
    let secret = [3u8; 32];
    let mut alice = EncryptedChannel::new(&secret, true).unwrap();
    let mut bob = EncryptedChannel::new(&secret, false).unwrap();
    alice.seal(b"zero").unwrap();
    let sealed = alice.seal(b"one").unwrap();
    let answer = bob.seal(b"zero").unwrap();
    let open = |nonce: [u8; 12], mut data: Vec<u8>| -> Vec<u8> {
        let key =
            ring::aead::UnboundKey::new(&ring::aead::CHACHA20_POLY1305, &secret).unwrap();
        let nonce = ring::aead::Nonce::assume_unique_for_key(nonce);
        ring::aead::LessSafeKey::new(key)
            .open_in_place(nonce, ring::aead::Aad::empty(), &mut data)
            .unwrap()
            .to_vec()
    };
    assert_eq!(open([0, 0, 0, 1, 1, 0, 0, 0, 0, 0, 0, 0], sealed), b"one");
    assert_eq!(open([0, 0, 0, 2, 0, 0, 0, 0, 0, 0, 0, 0], answer), b"zero");
}

#[test]
fn channel_errors_have_texts() {
    assert_eq!(ChannelError::KeyAgreement.to_string(), "key agreement failed");
    assert_eq!(ChannelError::SealFailed.to_string(), "encryption failed");
    assert_eq!(ChannelError::OpenFailed.to_string(), "decryption failed");
    assert_eq!(ChannelError::NonceOverflow.to_string(), "nonce overflow");
    assert_eq!(ChannelError::InvalidKey.to_string(), "invalid key material");
}

#[test]
fn no_nonce_comes_twice() {
    let mut a = CounterNonce::new([1, 2, 3, 4]);
    let mut b = CounterNonce::new([1, 2, 3, 5]);
    assert_eq!(a.advance().unwrap(), vec![1, 2, 3, 4, 0, 0, 0, 0, 0, 0, 0, 0]);
    let mut all = vec![];
    for _ in 0..300 {
        all.push(a.advance().unwrap());
        all.push(b.advance().unwrap());
    }
    assert_eq!(all[598], vec![1, 2, 3, 4, 44, 1, 0, 0, 0, 0, 0, 0]);
    all.sort();
    all.dedup();
    assert_eq!(all.len(), 600);
}
