use base64::engine::general_purpose::STANDARD as BASE64;
use base64::Engine;
use clawmesh::{
    AuthChallenge, AuthError, AuthResponse, CryptoError, PeerAuthenticator, PeerIdentity,
    PublicKeyBytes, Signature,
};

fn make_authenticator(name: &str) -> PeerAuthenticator {
    let identity = PeerIdentity::generate().unwrap();
    PeerAuthenticator::new(&format!("agent:{name}"), identity)
}

#[test]
fn full_mutual_auth_handshake() {
    let mut alice = make_authenticator("alice");
    let mut bob = make_authenticator("bob");
    let hello = alice.make_hello();
    assert_eq!(hello.agent_id, "agent:alice");
    let challenge = bob.handle_hello(hello.clone()).unwrap();
    assert_eq!(challenge.agent_id, "agent:bob");
    let response = alice.sign_challenge(&challenge);
    assert_eq!(response.agent_id, "agent:alice");
    let confirm = bob.handle_response(response, &hello.public_key).unwrap();
    assert_eq!(confirm.agent_id, "agent:bob");
    assert!(bob.is_authenticated("agent:alice"));
    let peer = alice.handle_confirm(confirm, &challenge.nonce, &challenge.public_key).unwrap();
    assert_eq!(peer.agent_id, "agent:bob");
    assert!(alice.is_authenticated("agent:bob"));
}

#[test]
fn wrong_signature_rejected() {
    let alice = make_authenticator("alice");
    let mut bob = make_authenticator("bob");
    let mallory = make_authenticator("mallory");
    let hello = alice.make_hello();
    let challenge = bob.handle_hello(hello.clone()).unwrap();
    let forged_response = mallory.sign_challenge(&challenge);
    let forged = AuthResponse {
        agent_id: "agent:alice".into(),
        signature: forged_response.signature,
    };
    let result = bob.handle_response(forged, &hello.public_key);
    assert!(result.is_err());
    assert!(!bob.is_authenticated("agent:alice"));
}

#[test]
fn no_pending_challenge_rejected() {
    let mut bob = make_authenticator("bob");
    let fake_response = AuthResponse {
        agent_id: "agent:ghost".into(),
        signature: Signature { sig: BASE64.encode(b"fake") },
    };
    let pk = PublicKeyBytes { key: BASE64.encode(b"fake-key-bytes-32-chars-exactly!") };
    let result = bob.handle_response(fake_response, &pk);
    assert!(matches!(result, Err(AuthError::NoPendingChallenge(_))));
}

#[test]
fn remove_authenticated_peer() {
    let alice = make_authenticator("alice");
    let mut bob = make_authenticator("bob");
    let hello = alice.make_hello();
    let challenge = bob.handle_hello(hello.clone()).unwrap();
    let response = alice.sign_challenge(&challenge);
    bob.handle_response(response, &hello.public_key).unwrap();
    assert!(bob.is_authenticated("agent:alice"));
    bob.remove_peer("agent:alice");
    assert!(!bob.is_authenticated("agent:alice"));
}

#[test]
fn authenticated_peers_list() {
    let alice = make_authenticator("alice");
    let mut bob = make_authenticator("bob");
    let carol = make_authenticator("carol");
    let hello = alice.make_hello();
    let challenge = bob.handle_hello(hello.clone()).unwrap();
    let response = alice.sign_challenge(&challenge);
    bob.handle_response(response, &hello.public_key).unwrap();
    let hello_c = carol.make_hello();
    let challenge_c = bob.handle_hello(hello_c.clone()).unwrap();
    let response_c = carol.sign_challenge(&challenge_c);
    bob.handle_response(response_c, &hello_c.public_key).unwrap();
    let peers = bob.authenticated_peers();
    assert_eq!(peers.len(), 2);
}

#[test]
fn a_challenge_is_used_up() {
    let alice = make_authenticator("alice");
    let mut bob = make_authenticator("bob");
    let hello = alice.make_hello();
    let challenge = bob.handle_hello_with(hello.clone(), vec![1, 2, 3]);
    assert_eq!(challenge.nonce, "AQID");
    let response = alice.sign_challenge(&challenge);
    bob.handle_response(response.clone(), &hello.public_key).unwrap();
    assert!(matches!(
        bob.handle_response(response, &hello.public_key),
        Err(AuthError::NoPendingChallenge(_))
    ));
    let record = bob.get_authenticated("agent:alice").unwrap();
    assert_eq!(record.public_key.key, alice.public_key().key);
}

#[test]
fn challenges_are_random() {
    let mut bob = make_authenticator("bob");
    let hello = make_authenticator("alice").make_hello();
    let one = bob.handle_hello(hello.clone()).unwrap();
    let two = bob.handle_hello(hello).unwrap();
    assert_ne!(one.nonce, two.nonce);
    assert_eq!(BASE64.decode(&one.nonce).unwrap().len(), 32);
}

#[test]
fn undecodable_challenges_are_errors() {
    let mut alice = make_authenticator("alice");
    let bob = make_authenticator("bob");
    let challenge = AuthChallenge {
        agent_id: "agent:bob".into(),
        public_key: bob.public_key(),
        nonce: "?".into(),
    };
    assert!(alice.try_sign_challenge(&challenge).is_err());
    let signed = bob.try_sign_challenge(&AuthChallenge { nonce: "AQID".into(), ..challenge });
    let confirm = clawmesh::AuthConfirm {
        agent_id: "agent:bob".into(),
        signature: signed.unwrap().signature,
    };
    let err = alice.handle_confirm(confirm.clone(), "?", &bob.public_key()).unwrap_err();
    assert!(matches!(err, AuthError::Base64Decode(_)));
    assert!(matches!(
        alice.handle_confirm(confirm.clone(), "AQIE", &bob.public_key()),
        Err(AuthError::VerificationFailed)
    ));
    assert!(alice.handle_confirm(confirm, "AQID", &bob.public_key()).is_ok());
}

#[test]
fn auth_errors_have_texts() {
    assert_eq!(AuthError::PeerNotFound("p".into()).to_string(), "peer not found: p");
    assert_eq!(
        AuthError::NoPendingChallenge("p".into()).to_string(),
        "no pending challenge for peer: p"
    );
    assert_eq!(
        AuthError::VerificationFailed.to_string(),
        "challenge-response verification failed"
    );
    assert_eq!(
        AuthError::AlreadyAuthenticated("p".into()).to_string(),
        "peer already authenticated: p"
    );
    assert_eq!(
        AuthError::Crypto(CryptoError::KeyGeneration).to_string(),
        "crypto error: key generation failed"
    );
}
