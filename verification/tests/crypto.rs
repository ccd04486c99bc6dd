use clawmesh::crypto::{random_bytes, verify, verify_outcome, Base64Error};
use clawmesh::{CryptoError, PeerIdentity, PublicKeyBytes, Signature};

#[test]
fn generate_and_sign_verify() {
    let id = PeerIdentity::generate().unwrap();
    let msg = b"hello mesh";
    let sig = id.sign(msg);
    let pk = id.public_key();
    assert!(verify(&pk, msg, &sig).is_ok());
}

#[test]
fn verify_rejects_wrong_message() {
    let id = PeerIdentity::generate().unwrap();
    let sig = id.sign(b"correct message");
    let pk = id.public_key();
    assert!(verify(&pk, b"wrong message", &sig).is_err());
}

#[test]
fn verify_rejects_wrong_key() {
    let id_a = PeerIdentity::generate().unwrap();
    let id_b = PeerIdentity::generate().unwrap();
    let msg = b"hello";
    let sig = id_a.sign(msg);
    assert!(verify(&id_b.public_key(), msg, &sig).is_err());
}

#[test]
fn random_bytes_returns_requested_length() {
    let bytes = random_bytes(32).unwrap();
    assert_eq!(bytes.len(), 32);
    let bytes2 = random_bytes(32).unwrap();
    assert_ne!(bytes, bytes2);
}

#[test]
fn a_second_handle_has_the_same_key() {
    let id = PeerIdentity::generate().unwrap();
    let second = id.clone_for_auth();
    assert_eq!(id.public_key().key, second.public_key().key);
    assert_eq!(id.sign(b"m").sig, second.sign(b"m").sig);
    assert_ne!(id.sign(b"m").sig, id.sign(b"n").sig);
    assert_eq!(id.public_key().key.len(), 44);
    assert_eq!(id.sign(b"m").sig.len(), 88);
}

#[test]
fn bad_key_documents_are_rejected() {
    assert!(matches!(
        PeerIdentity::from_pkcs8_base64("bm8ga2V5"),
        Err(CryptoError::InvalidKey)
    ));
    assert!(matches!(
        PeerIdentity::from_pkcs8_base64("*"),
        Err(CryptoError::Base64Decode(_))
    ));
    assert!(matches!(PeerIdentity::from_pkcs8_der(vec![1, 2, 3]), Err(CryptoError::InvalidKey)));
}

#[test]
fn a_key_document_gives_its_identity() {
    // The test vector of RFC 8032, 7.1, with the empty message.
    let seed = "9d61b19deffd5a60ba844af492ec2cc44449c5697b326919703bac031cae7f60";
    let public = "d75a980182b10ab7d54bfed3c964073a0ee172f3daa62325af021a68f707511a";
    let unhex = |s: &str| -> Vec<u8> {
        (0..s.len()).step_by(2).map(|i| u8::from_str_radix(&s[i..i + 2], 16).unwrap()).collect()
    };
    let mut der = vec![
        0x30, 0x53, 0x02, 0x01, 0x01, 0x30, 0x05, 0x06, 0x03, 0x2b, 0x65, 0x70, 0x04, 0x22, 0x04,
        0x20,
    ];
    der.extend(unhex(seed));
    der.extend([0xa1, 0x23, 0x03, 0x21, 0x00]);
    der.extend(unhex(public));
    let id = PeerIdentity::from_pkcs8_der(der).unwrap();
    assert_eq!(id.public_key().key, "11qYAYKxCrfVS/7TyWQHOg7hcvPapiMlrwIaaPcHURo=");
    assert_eq!(
        id.sign(b"").sig,
        "5VZDAMNgrHKQhuLMgG6CioSHfx645dl02HPgZSJJAVVfuIIVkKM7rMYeOXAc\
         +bRr0lv18FlbviRlUUFDjnoQCw=="
    );
}

#[test]
fn undecodable_parts_are_errors() {
    let id = PeerIdentity::generate().unwrap();
    let sig = id.sign(b"m");
    let bad_key = PublicKeyBytes { key: "a*==".into() };
    let bad_sig = Signature { sig: "AAAAA".into() };
    assert_eq!(
        verify(&bad_key, b"m", &bad_sig),
        Err(CryptoError::Base64Decode(Base64Error::InvalidByte(1, b'*')))
    );
    assert!(matches!(
        verify(&id.public_key(), b"m", &bad_sig),
        Err(CryptoError::Base64Decode(_))
    ));
    assert!(verify(&id.public_key(), b"m", &sig).is_ok());
    assert_eq!(verify_outcome(false), Err(CryptoError::VerificationFailed));
    assert_eq!(verify_outcome(true), Ok(()));
}

#[test]
fn crypto_errors_have_texts() {
    assert_eq!(CryptoError::KeyGeneration.to_string(), "key generation failed");
    assert_eq!(CryptoError::SigningFailed.to_string(), "signing failed");
    assert_eq!(CryptoError::VerificationFailed.to_string(), "signature verification failed");
    assert_eq!(CryptoError::InvalidKey.to_string(), "invalid key material");
    let pairs = vec![
        (Base64Error::InvalidByte(12, 42), base64::DecodeError::InvalidByte(12, 42)),
        (Base64Error::InvalidLength(5), base64::DecodeError::InvalidLength(5)),
        (Base64Error::InvalidLastSymbol(7, 255), base64::DecodeError::InvalidLastSymbol(7, 255)),
        (Base64Error::InvalidPadding, base64::DecodeError::InvalidPadding),
    ];
    for (ours, theirs) in pairs {
        assert_eq!(ours.to_string(), theirs.to_string());
        assert_eq!(
            CryptoError::Base64Decode(ours).to_string(),
            format!("base64 decode error: {theirs}")
        );
    }
}
