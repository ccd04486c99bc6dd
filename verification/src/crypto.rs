//! Ed25519 identities of peers, signatures and random bytes.
use crate::text::{cat2, cat5, decimal, decimal_usize, numeral};
use base64::Engine;
use ring::rand::SecureRandom;
use ring::signature::KeyPair;
use vstd::prelude::*;

verus! {

/// Why a text is not base64.
#[derive(Clone, Copy, Debug, PartialEq, Eq, Structural)]
pub enum Base64Error {
    /// The byte at this offset is none of the symbols.
    InvalidByte(usize, u8),
    /// The number of symbols is impossible.
    InvalidLength(usize),
    /// The last symbol, at this offset, holds bits that would be lost.
    InvalidLastSymbol(usize, u8),
    /// The padding is wrong.
    InvalidPadding,
}

impl Base64Error {
    /// The text of the error.
    pub open spec fn text(self) -> Seq<char> {
        match self {
            Base64Error::InvalidByte(index, byte) => "Invalid symbol "@ + numeral(byte as nat)
                + ", offset "@ + numeral(index as nat) + "."@,
            Base64Error::InvalidLength(len) => "Invalid input length: "@ + numeral(len as nat),
            Base64Error::InvalidLastSymbol(index, byte) => "Invalid last symbol "@ + numeral(
                byte as nat,
            ) + ", offset "@ + numeral(index as nat) + "."@,
            Base64Error::InvalidPadding => "Invalid padding"@,
        }
    }

    /// The text of the error.
    pub fn to_string(&self) -> (r: String)
        ensures
            r@ == self.text(),
    {
        match self {
            Base64Error::InvalidByte(index, byte) => cat5(
                "Invalid symbol ",
                decimal(*byte as u64).as_str(),
                ", offset ",
                decimal_usize(*index).as_str(),
                ".",
            ),
            Base64Error::InvalidLength(len) => cat2(
                "Invalid input length: ",
                decimal_usize(*len).as_str(),
            ),
            Base64Error::InvalidLastSymbol(index, byte) => cat5(
                "Invalid last symbol ",
                decimal(*byte as u64).as_str(),
                ", offset ",
                decimal_usize(*index).as_str(),
                ".",
            ),
            Base64Error::InvalidPadding => "Invalid padding".to_owned(),
        }
    }
}

/// What can go wrong with keys and signatures.
#[derive(Clone, Copy, Debug, PartialEq, Eq, Structural)]
pub enum CryptoError {
    KeyGeneration,
    SigningFailed,
    VerificationFailed,
    InvalidKey,
    Base64Decode(Base64Error),
}

impl CryptoError {
    /// The text of the error.
    pub open spec fn text(self) -> Seq<char> {
        match self {
            CryptoError::KeyGeneration => "key generation failed"@,
            CryptoError::SigningFailed => "signing failed"@,
            CryptoError::VerificationFailed => "signature verification failed"@,
            CryptoError::InvalidKey => "invalid key material"@,
            CryptoError::Base64Decode(e) => "base64 decode error: "@ + e.text(),
        }
    }

    /// The text of the error.
    pub fn to_string(&self) -> (r: String)
        ensures
            r@ == self.text(),
    {
        match self {
            CryptoError::KeyGeneration => "key generation failed".to_owned(),
            CryptoError::SigningFailed => "signing failed".to_owned(),
            CryptoError::VerificationFailed => "signature verification failed".to_owned(),
            CryptoError::InvalidKey => "invalid key material".to_owned(),
            CryptoError::Base64Decode(e) => cat2("base64 decode error: ", e.to_string().as_str()),
        }
    }
}

/// A public key of a peer: the base64 encoding of its 32 bytes.
#[derive(Debug)]
pub struct PublicKeyBytes {
    pub key: String,
}

/// The content of a `PublicKeyBytes`.
#[verifier::ext_equal]
pub struct PublicKeyBytesView {
    pub key: Seq<char>,
}

impl View for PublicKeyBytes {
    type V = PublicKeyBytesView;

    open spec fn view(&self) -> PublicKeyBytesView {
        PublicKeyBytesView {
            key: self.key@,
        }
    }
}

impl Clone for PublicKeyBytes {
    fn clone(&self) -> (r: Self)
        ensures
            r@ == self@,
    {
        PublicKeyBytes {
            key: self.key.clone(),
        }
    }
}

/// A signature: the base64 encoding of its 64 bytes.
#[derive(Debug)]
pub struct Signature {
    pub sig: String,
}

/// The content of a `Signature`.
#[verifier::ext_equal]
pub struct SignatureView {
    pub sig: Seq<char>,
}

impl View for Signature {
    type V = SignatureView;

    open spec fn view(&self) -> SignatureView {
        SignatureView {
            sig: self.sig@,
        }
    }
}

impl Clone for Signature {
    fn clone(&self) -> (r: Self)
        ensures
            r@ == self@,
    {
        Signature {
            sig: self.sig.clone(),
        }
    }
}

/// The standard base64 encoding of the bytes, with padding.
pub uninterp spec fn base64_text(bytes: Seq<u8>) -> Seq<char>;

/// The bytes that a standard base64 text encodes, or why it is none.
pub uninterp spec fn base64_bytes(text: Seq<char>) -> Result<Seq<u8>, Base64Error>;

/// The public key of the Ed25519 key pair in a PKCS#8 v2 document; `None` where
/// the document holds no such key pair.
pub uninterp spec fn ed25519_public(pkcs8: Seq<u8>) -> Option<Seq<u8>>;

/// The signature of the message by the Ed25519 key pair in a PKCS#8 v2 document;
/// `None` where the document holds no such key pair.
pub uninterp spec fn ed25519_signature(pkcs8: Seq<u8>, message: Seq<u8>) -> Option<Seq<u8>>;

/// The signature is one of the message under the Ed25519 public key.
pub uninterp spec fn ed25519_verifies(
    public_key: Seq<u8>,
    message: Seq<u8>,
    signature: Seq<u8>,
) -> bool;

/// `base64::Engine::encode` of the standard engine: the named text, which decodes
/// to the same bytes. It panics where the text would not fit in memory.
#[verifier::external_body]
pub(crate) fn base64_encode(bytes: &[u8]) -> (r: String)
    requires
        bytes@.len() <= usize::MAX / 4,
    ensures
        r@ == base64_text(bytes@),
        base64_bytes(r@) is Ok && base64_bytes(r@)->Ok_0 == bytes@,
{
    base64::engine::general_purpose::STANDARD.encode(bytes)
}

/// `base64::Engine::decode` of the standard engine: the named bytes, or the named
/// error, each of whose variants stands for the variant of the same name.
#[verifier::external_body]
pub(crate) fn base64_decode(text: &str) -> (r: Result<Vec<u8>, Base64Error>)
    ensures
        match r {
            Ok(bytes) => base64_bytes(text@) is Ok && base64_bytes(text@)->Ok_0 == bytes@,
            Err(e) => base64_bytes(text@) is Err && base64_bytes(text@)->Err_0 == e,
        },
{
    base64::engine::general_purpose::STANDARD.decode(text).map_err(
        |e| match e {
            base64::DecodeError::InvalidByte(index, byte) => Base64Error::InvalidByte(index, byte),
            base64::DecodeError::InvalidLength(len) => Base64Error::InvalidLength(len),
            base64::DecodeError::InvalidLastSymbol(index, byte) =>
                Base64Error::InvalidLastSymbol(index, byte),
            base64::DecodeError::InvalidPadding => Base64Error::InvalidPadding,
        },
    )
}

/// `ring::signature::Ed25519KeyPair::generate_pkcs8`: a PKCS#8 v2 document with a
/// fresh key pair, `None` where the system gives no randomness. Chance decides
/// which, so nothing is claimed of the result.
#[verifier::external_body]
fn ed25519_generate() -> (r: Option<Vec<u8>>) {
    let rng = ring::rand::SystemRandom::new();
    ring::signature::Ed25519KeyPair::generate_pkcs8(&rng).ok().map(|d| d.as_ref().to_vec())
}

/// `ring::signature::Ed25519KeyPair::from_pkcs8` and the `public_key` of the key
/// pair: the named 32 bytes, `None` where the document is rejected.
#[verifier::external_body]
fn ed25519_public_of(pkcs8: &[u8]) -> (r: Option<Vec<u8>>)
    ensures
        match r {
            Some(key) => ed25519_public(pkcs8@) == Some(key@) && key@.len() == 32,
            None => ed25519_public(pkcs8@) is None,
        },
{
    let pair = ring::signature::Ed25519KeyPair::from_pkcs8(pkcs8).ok()?;
    Some(pair.public_key().as_ref().to_vec())
}

/// `ring::signature::Ed25519KeyPair::sign` of the key pair in a document: the
/// named 64 bytes, which verify under the public key of the pair, `None` where the
/// document is rejected.
#[verifier::external_body]
fn ed25519_sign(pkcs8: &[u8], message: &[u8]) -> (r: Option<Vec<u8>>)
    ensures
        r is Some <==> ed25519_public(pkcs8@) is Some,
        match r {
            Some(sig) => {
                &&& ed25519_signature(pkcs8@, message@) == Some(sig@)
                &&& sig@.len() == 64
                &&& ed25519_verifies(ed25519_public(pkcs8@)->0, message@, sig@)
            },
            None => ed25519_signature(pkcs8@, message@) is None,
        },
{
    let pair = ring::signature::Ed25519KeyPair::from_pkcs8(pkcs8).ok()?;
    Some(pair.sign(message).as_ref().to_vec())
}

/// `ring::signature::UnparsedPublicKey::verify` with `ring::signature::ED25519`:
/// whether it accepts the signature, as named.
#[verifier::external_body]
fn ed25519_verify(public_key: &[u8], message: &[u8], signature: &[u8]) -> (r: bool)
    ensures
        r == ed25519_verifies(public_key@, message@, signature@),
{
    ring::signature::UnparsedPublicKey::new(&ring::signature::ED25519, public_key)
        .verify(message, signature)
        .is_ok()
}

/// `ring::rand::SecureRandom::fill` of the system's source: overwrites the bytes
/// with random ones, as many as there were. Whether that succeeds and what they
/// are is up to the system.
#[verifier::external_body]
fn fill_random(buf: &mut Vec<u8>) -> (r: bool)
    ensures
        final(buf)@.len() == old(buf)@.len(),
{
    ring::rand::SystemRandom::new().fill(buf).is_ok()
}

/// What `verify` returns: the key and the signature are decoded, the key first,
/// and the signature is then checked.
pub open spec fn verdict(key: Seq<char>, message: Seq<u8>, sig: Seq<char>) -> Result<
    (),
    CryptoError,
> {
    match (base64_bytes(key), base64_bytes(sig)) {
        (Err(e), _) => Err(CryptoError::Base64Decode(e)),
        (Ok(_), Err(e)) => Err(CryptoError::Base64Decode(e)),
        (Ok(k), Ok(s)) => verdict_on_bytes(ed25519_verifies(k, message, s)),
    }
}

/// What `verify` returns once both parts were decoded and the signature was or was
/// not accepted.
pub open spec fn verdict_on_bytes(accepted: bool) -> Result<(), CryptoError> {
    if accepted {
        Ok(())
    } else {
        Err(CryptoError::VerificationFailed)
    }
}

/// An Ed25519 key pair that identifies a peer. Its view is the PKCS#8 document
/// with the pair.
pub struct PeerIdentity {
    pkcs8_der: Vec<u8>,
    public_key: String,
}

impl View for PeerIdentity {
    type V = Seq<u8>;

    closed spec fn view(&self) -> Seq<u8> {
        self.pkcs8_der@
    }
}

/// The public key of an identity, in base64.
pub open spec fn public_text(identity: Seq<u8>) -> Seq<char> {
    base64_text(ed25519_public(identity)->0)
}

/// The signature of an identity over a message, in base64.
pub open spec fn signature_text(identity: Seq<u8>, message: Seq<u8>) -> Seq<char> {
    base64_text(ed25519_signature(identity, message)->0)
}

impl PeerIdentity {
    #[verifier::type_invariant]
    spec fn inv(self) -> bool {
        &&& ed25519_public(self.pkcs8_der@) is Some
        &&& self.public_key@ == public_text(self.pkcs8_der@)
        &&& base64_bytes(self.public_key@) is Ok
        &&& base64_bytes(self.public_key@)->Ok_0 == ed25519_public(self.pkcs8_der@)->0
    }

    /// A fresh identity. Where the system gives no randomness the error is
    /// `KeyGeneration`.
    pub fn generate() -> (r: Result<Self, CryptoError>)
        ensures
            match r {
                Ok(id) => ed25519_public(id@) is Some,
                Err(e) => e == CryptoError::KeyGeneration,
            },
    {
        match ed25519_generate() {
            None => Err(CryptoError::KeyGeneration),
            Some(der) => match PeerIdentity::from_pkcs8_der(der) {
                Ok(id) => Ok(id),
                Err(_) => Err(CryptoError::KeyGeneration),
            },
        }
    }

    /// The identity in the base64 encoding of a PKCS#8 v2 document.
    pub fn from_pkcs8_base64(encoded: &str) -> (r: Result<Self, CryptoError>)
        ensures
            match base64_bytes(encoded@) {
                Err(e) => r == Err::<PeerIdentity, CryptoError>(CryptoError::Base64Decode(e)),
                Ok(der) => if ed25519_public(der) is Some {
                    r is Ok && r->Ok_0@ == der
                } else {
                    r == Err::<PeerIdentity, CryptoError>(CryptoError::InvalidKey)
                },
            },
    {
        match base64_decode(encoded) {
            Err(e) => Err(CryptoError::Base64Decode(e)),
            Ok(der) => PeerIdentity::from_pkcs8_der(der),
        }
    }

    /// The identity in a PKCS#8 v2 document.
    pub fn from_pkcs8_der(der: Vec<u8>) -> (r: Result<Self, CryptoError>)
        ensures
            if ed25519_public(der@) is Some {
                r is Ok && r->Ok_0@ == der@
            } else {
                r == Err::<PeerIdentity, CryptoError>(CryptoError::InvalidKey)
            },
    {
        match ed25519_public_of(der.as_slice()) {
            None => Err(CryptoError::InvalidKey),
            Some(public) => {
                let public_key = base64_encode(public.as_slice());
                Ok(PeerIdentity { pkcs8_der: der, public_key })
            },
        }
    }

    /// A second handle of the same identity.
    pub fn clone_for_auth(&self) -> (r: Self)
        ensures
            r@ == self@,
    {
        proof {
            use_type_invariant(self);
        }
        let pkcs8_der = self.pkcs8_der.clone();
        assert(pkcs8_der@ =~= self.pkcs8_der@);
        PeerIdentity { pkcs8_der, public_key: self.public_key.clone() }
    }

    /// The public key.
    pub fn public_key(&self) -> (r: PublicKeyBytes)
        ensures
            ed25519_public(self@) is Some,
            r@.key == public_text(self@),
            base64_bytes(r@.key) is Ok,
            base64_bytes(r@.key)->Ok_0 == ed25519_public(self@)->0,
    {
        proof {
            use_type_invariant(self);
        }
        PublicKeyBytes { key: self.public_key.clone() }
    }

    /// Signs a message. The signature verifies under the public key.
    pub fn sign(&self, message: &[u8]) -> (r: Signature)
        ensures
            r@.sig == signature_text(self@, message@),
            verdict(public_text(self@), message@, r@.sig) == Ok::<(), CryptoError>(()),
    {
        proof {
            use_type_invariant(self);
        }
        match ed25519_sign(self.pkcs8_der.as_slice(), message) {
            Some(sig) => Signature { sig: base64_encode(sig.as_slice()) },
            None => vstd::pervasive::unreached(),
        }
    }
}

/// Checks a signature of a message against a public key.
pub fn verify(public_key: &PublicKeyBytes, message: &[u8], signature: &Signature) -> (r: Result<
    (),
    CryptoError,
>)
    ensures
        r == verdict(public_key@.key, message@, signature@.sig),
{
    let key_bytes = match base64_decode(public_key.key.as_str()) {
        Ok(bytes) => bytes,
        Err(e) => {
            return Err(CryptoError::Base64Decode(e));
        },
    };
    let sig_bytes = match base64_decode(signature.sig.as_str()) {
        Ok(bytes) => bytes,
        Err(e) => {
            return Err(CryptoError::Base64Decode(e));
        },
    };
    let accepted = ed25519_verify(key_bytes.as_slice(), message, sig_bytes.as_slice());
    verify_outcome(accepted)
}

/// What a check gives once the signature was or was not accepted.
pub fn verify_outcome(accepted: bool) -> (r: Result<(), CryptoError>)
    ensures
        r == verdict_on_bytes(accepted),
{
    if accepted {
        Ok(())
    } else {
        Err(CryptoError::VerificationFailed)
    }
}

/// Secure random bytes, such as for challenges. Where the system gives no
/// randomness the error is `KeyGeneration`.
pub fn random_bytes(len: usize) -> (r: Result<Vec<u8>, CryptoError>)
    requires
        len <= isize::MAX,
    ensures
        match r {
            Ok(bytes) => bytes@.len() == len,
            Err(e) => e == CryptoError::KeyGeneration,
        },
{
    let mut buf: Vec<u8> = vec![0u8; len];
    if fill_random(&mut buf) {
        Ok(buf)
    } else {
        Err(CryptoError::KeyGeneration)
    }
}

/// A signature passes exactly if key and signature are base64 and the bytes of the one
/// verify the message under the bytes of the other. Text that is no base64 is reported, the
/// key's first.
pub proof fn which_signatures_pass(key: Seq<char>, message: Seq<u8>, sig: Seq<char>)
    ensures
        verdict(key, message, sig) is Ok <==> base64_bytes(key) is Ok && base64_bytes(sig) is Ok
            && ed25519_verifies(base64_bytes(key)->Ok_0, message, base64_bytes(sig)->Ok_0),
        base64_bytes(key) is Err ==> verdict(key, message, sig) == Err::<(), CryptoError>(
            CryptoError::Base64Decode(base64_bytes(key)->Err_0),
        ),
        base64_bytes(key) is Ok && base64_bytes(sig) is Err ==> verdict(key, message, sig) == Err::<
            (),
            CryptoError,
        >(CryptoError::Base64Decode(base64_bytes(sig)->Err_0)),
        base64_bytes(key) is Ok && base64_bytes(sig) is Ok && verdict(key, message, sig) is Err
            ==> verdict(key, message, sig) == Err::<(), CryptoError>(
            CryptoError::VerificationFailed,
        ),
{
}

/// The public key and the signatures of an identity are the base64 texts of those of its
/// key pair.
pub proof fn keys_and_signatures_are_sent_in_base64(identity: Seq<u8>, message: Seq<u8>)
    ensures
        ed25519_public(identity) matches Some(key) ==> public_text(identity) == base64_text(key),
        ed25519_signature(identity, message) matches Some(sig) ==> signature_text(identity, message)
            == base64_text(sig),
{
}

} // verus!
