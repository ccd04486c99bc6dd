//! Key agreement and the encrypted channel between two peers.
use ring::agreement;
use vstd::prelude::*;

verus! {

/// What can go wrong with a channel.
#[derive(Clone, Copy, Debug, PartialEq, Eq, Structural)]
pub enum ChannelError {
    KeyAgreement,
    SealFailed,
    OpenFailed,
    NonceOverflow,
    InvalidKey,
}

impl ChannelError {
    /// The text of the error.
    pub open spec fn text(self) -> Seq<char> {
        match self {
            ChannelError::KeyAgreement => "key agreement failed"@,
            ChannelError::SealFailed => "encryption failed"@,
            ChannelError::OpenFailed => "decryption failed"@,
            ChannelError::NonceOverflow => "nonce overflow"@,
            ChannelError::InvalidKey => "invalid key material"@,
        }
    }

    /// The text of the error.
    pub fn to_string(&self) -> (r: String)
        ensures
            r@ == self.text(),
    {
        match self {
            ChannelError::KeyAgreement => "key agreement failed".to_owned(),
            ChannelError::SealFailed => "encryption failed".to_owned(),
            ChannelError::OpenFailed => "decryption failed".to_owned(),
            ChannelError::NonceOverflow => "nonce overflow".to_owned(),
            ChannelError::InvalidKey => "invalid key material".to_owned(),
        }
    }
}

/// A sealed message with its nonce, for transmission.
#[derive(Debug)]
pub struct SealedMessage {
    /// The nonce, 12 bytes.
    pub nonce: Vec<u8>,
    /// The ciphertext with the authentication tag.
    pub ciphertext: Vec<u8>,
}

/// The content of a `SealedMessage`.
#[verifier::ext_equal]
pub struct SealedMessageView {
    pub nonce: Seq<u8>,
    pub ciphertext: Seq<u8>,
}

impl View for SealedMessage {
    type V = SealedMessageView;

    open spec fn view(&self) -> SealedMessageView {
        SealedMessageView {
            nonce: self.nonce@,
            ciphertext: self.ciphertext@,
        }
    }
}

impl Clone for SealedMessage {
    fn clone(&self) -> (r: Self)
        ensures
            r@ == self@,
    {
        let r = SealedMessage {
            nonce: self.nonce.clone(),
            ciphertext: self.ciphertext.clone(),
        };
        proof {
            assert(r.nonce@ =~= self.nonce@);
            assert(r.ciphertext@ =~= self.ciphertext@);
            assert(r@ =~= self@);
        }
        r
    }
}

/// What a key agreement gives.
pub struct KeyAgreementResult {
    /// The shared secret, 32 bytes, the key of the channel.
    pub shared_secret: Vec<u8>,
    /// Our ephemeral public key, for the remote peer.
    pub our_public_key: Vec<u8>,
}

/// The content of a `KeyAgreementResult`.
#[verifier::ext_equal]
pub struct KeyAgreementResultView {
    pub shared_secret: Seq<u8>,
    pub our_public_key: Seq<u8>,
}

impl View for KeyAgreementResult {
    type V = KeyAgreementResultView;

    open spec fn view(&self) -> KeyAgreementResultView {
        KeyAgreementResultView {
            shared_secret: self.shared_secret@,
            our_public_key: self.our_public_key@,
        }
    }
}

impl Clone for KeyAgreementResult {
    fn clone(&self) -> (r: Self)
        ensures
            r@ == self@,
    {
        let r = KeyAgreementResult {
            shared_secret: self.shared_secret.clone(),
            our_public_key: self.our_public_key.clone(),
        };
        proof {
            assert(r.shared_secret@ =~= self.shared_secret@);
            assert(r.our_public_key@ =~= self.our_public_key@);
            assert(r@ =~= self@);
        }
        r
    }
}

/// An X25519 private key of `ring`, for one key agreement.
#[verifier::external_type_specification]
#[verifier::external_body]
pub struct ExEphemeralPrivateKey(agreement::EphemeralPrivateKey);

/// An X25519 key pair for one key agreement. Its view is the public key.
#[derive(Debug)]
pub struct EphemeralKey {
    private: agreement::EphemeralPrivateKey,
    public: Vec<u8>,
}

impl View for EphemeralKey {
    type V = Seq<u8>;

    closed spec fn view(&self) -> Seq<u8> {
        self.public@
    }
}

/// The bytes are the public key of an X25519 key pair.
pub uninterp spec fn x25519_is_public(key: Seq<u8>) -> bool;

/// The secret that the owners of two X25519 public keys share.
pub uninterp spec fn x25519_shared(ours: Seq<u8>, theirs: Seq<u8>) -> Seq<u8>;

/// The ChaCha20-Poly1305 sealing of a plaintext, without associated data: the
/// ciphertext followed by the tag; `None` where key, nonce or plaintext have an
/// impossible length.
pub uninterp spec fn chacha_sealed(key: Seq<u8>, nonce: Seq<u8>, plaintext: Seq<u8>) -> Option<
    Seq<u8>,
>;

/// What a ChaCha20-Poly1305 sealing, without associated data, opens to; `None`
/// where it is rejected.
pub uninterp spec fn chacha_opened(key: Seq<u8>, nonce: Seq<u8>, sealed: Seq<u8>) -> Option<
    Seq<u8>,
>;

/// The longest plaintext that can be sealed.
pub const MAX_PLAINTEXT: u64 = 274_877_906_880;

/// Key, nonce and plaintext have lengths with which sealing works.
pub open spec fn sealable(key: Seq<u8>, nonce: Seq<u8>, plaintext: Seq<u8>) -> bool {
    key.len() == 32 && nonce.len() == 12 && plaintext.len() <= MAX_PLAINTEXT
}

/// The number of bytes that sealing adds.
pub const TAG_LEN: usize = 16;

/// `ring::agreement::EphemeralPrivateKey::generate` with `X25519`, and its
/// `compute_public_key`: a fresh key pair with a public key of 32 bytes, `None`
/// where the system gives no randomness. Chance decides which.
#[verifier::external_body]
fn x25519_generate() -> (r: Option<EphemeralKey>)
    ensures
        r matches Some(k) ==> x25519_is_public(k@) && k@.len() == 32,
{
    let rng = ring::rand::SystemRandom::new();
    let private = agreement::EphemeralPrivateKey::generate(&agreement::X25519, &rng).ok()?;
    let public = private.compute_public_key().ok()?.as_ref().to_vec();
    Some(EphemeralKey { private, public })
}

/// `ring::agreement::agree_ephemeral` with `X25519`. With the public key of a key
/// pair the result is the named secret, the same from both sides. A key of other
/// than 32 bytes is rejected. Of other bytes nothing but the length of the secret
/// is claimed: there the private key decides, which no one can read.
#[verifier::external_body]
fn x25519_agree(ours: EphemeralKey, theirs: &[u8]) -> (r: Option<Vec<u8>>)
    ensures
        x25519_is_public(theirs@) ==> r is Some && r->0@ == x25519_shared(ours@, theirs@) && r->0@
            == x25519_shared(theirs@, ours@),
        theirs@.len() != 32 ==> r is None,
        r matches Some(s) ==> s@.len() == 32,
{
    let theirs = agreement::UnparsedPublicKey::new(&agreement::X25519, theirs);
    agreement::agree_ephemeral(ours.private, &theirs, |shared| shared.to_vec()).ok()
}

/// `ring::aead::LessSafeKey::seal_in_place_append_tag` with `CHACHA20_POLY1305`
/// and no associated data: the named bytes, longer than the plaintext by the tag,
/// which open to the plaintext under the same key and nonce. It fails exactly where
/// a length is impossible.
#[verifier::external_body]
fn chacha_seal(key: &[u8], nonce: &[u8], plaintext: &[u8]) -> (r: Option<Vec<u8>>)
    requires
        plaintext@.len() + TAG_LEN <= isize::MAX,
    ensures
        r is Some <==> sealable(key@, nonce@, plaintext@),
        match r {
            Some(c) => {
                &&& chacha_sealed(key@, nonce@, plaintext@) == Some(c@)
                &&& c@.len() == plaintext@.len() + TAG_LEN
                &&& chacha_opened(key@, nonce@, c@) == Some(plaintext@)
            },
            None => chacha_sealed(key@, nonce@, plaintext@) is None,
        },
{
    let key = ring::aead::UnboundKey::new(&ring::aead::CHACHA20_POLY1305, key).ok()?;
    let nonce = ring::aead::Nonce::try_assume_unique_for_key(nonce).ok()?;
    let mut data = plaintext.to_vec();
    ring::aead::LessSafeKey::new(key)
        .seal_in_place_append_tag(nonce, ring::aead::Aad::empty(), &mut data)
        .ok()?;
    Some(data)
}

/// `ring::aead::LessSafeKey::open_in_place` with `CHACHA20_POLY1305` and no
/// associated data: the named plaintext, shorter than the input by the tag. What
/// opens is the sealing of what it opens to.
#[verifier::external_body]
fn chacha_open(key: &[u8], nonce: &[u8], sealed: &[u8]) -> (r: Option<Vec<u8>>)
    ensures
        match r {
            Some(p) => {
                &&& chacha_opened(key@, nonce@, sealed@) == Some(p@)
                &&& sealed@.len() == p@.len() + TAG_LEN
                &&& chacha_sealed(key@, nonce@, p@) == Some(sealed@)
            },
            None => chacha_opened(key@, nonce@, sealed@) is None,
        },
{
    let key = ring::aead::UnboundKey::new(&ring::aead::CHACHA20_POLY1305, key).ok()?;
    let nonce = ring::aead::Nonce::try_assume_unique_for_key(nonce).ok()?;
    let mut data = sealed.to_vec();
    ring::aead::LessSafeKey::new(key)
        .open_in_place(nonce, ring::aead::Aad::empty(), &mut data)
        .ok()
        .map(|plaintext| plaintext.to_vec())
}

/// A fresh key pair for one key agreement: the pair, and its public key for the
/// remote peer. Where the system gives no randomness the error is `KeyAgreement`.
pub fn generate_ephemeral_key() -> (r: Result<(EphemeralKey, Vec<u8>), ChannelError>)
    ensures
        match r {
            Ok((key, public)) => {
                &&& public@ == key@
                &&& public@.len() == 32
                &&& x25519_is_public(public@)
            },
            Err(e) => e == ChannelError::KeyAgreement,
        },
{
    match x25519_generate() {
        Some(key) => {
            let public = key.public.clone();
            assert(public@ =~= key@);
            Ok((key, public))
        },
        None => Err(ChannelError::KeyAgreement),
    }
}

/// Completes the key agreement with the public key of the remote peer. The result
/// is the shared secret of 32 bytes, the same on both sides.
pub fn agree(our_private: EphemeralKey, remote_public_bytes: &[u8]) -> (r: Result<
    Vec<u8>,
    ChannelError,
>)
    ensures
        x25519_is_public(remote_public_bytes@) ==> r is Ok && r->Ok_0@ == x25519_shared(
            our_private@,
            remote_public_bytes@,
        ) && r->Ok_0@ == x25519_shared(remote_public_bytes@, our_private@),
        remote_public_bytes@.len() != 32 ==> r is Err,
        match r {
            Ok(secret) => secret@.len() == 32,
            Err(e) => e == ChannelError::KeyAgreement,
        },
{
    agree_outcome(x25519_agree(our_private, remote_public_bytes))
}

/// What a key agreement gives once the secret was or was not computed.
pub fn agree_outcome(secret: Option<Vec<u8>>) -> (r: Result<Vec<u8>, ChannelError>)
    ensures
        r == (match secret {
            Some(s) => Ok::<Vec<u8>, ChannelError>(s),
            None => Err::<Vec<u8>, ChannelError>(ChannelError::KeyAgreement),
        }),
{
    match secret {
        Some(s) => Ok(s),
        None => Err(ChannelError::KeyAgreement),
    }
}

/// The nonces of one direction of a channel: 4 fixed bytes that tell the
/// directions apart, and the 8 bytes, least significant first, of a counter.
#[derive(Debug)]
pub struct CounterNonce {
    prefix: [u8; 4],
    counter: u64,
}

/// The first bytes of the nonces that the initiator, or the responder, seals with.
pub open spec fn sealing_prefix(is_initiator: bool) -> Seq<u8> {
    if is_initiator {
        seq![0u8, 0, 0, 1]
    } else {
        seq![0u8, 0, 0, 2]
    }
}

/// The nonce of the message with the given number.
pub open spec fn nonce_bytes(prefix: Seq<u8>, counter: u64) -> Seq<u8> {
    prefix + vstd::bytes::spec_u64_to_le_bytes(counter)
}

/// The content of a `CounterNonce`.
#[verifier::ext_equal]
pub struct CounterNonceView {
    pub prefix: Seq<u8>,
    pub counter: u64,
}

impl View for CounterNonce {
    type V = CounterNonceView;

    closed spec fn view(&self) -> CounterNonceView {
        CounterNonceView { prefix: self.prefix@, counter: self.counter }
    }
}

impl CounterNonceView {
    /// The nonce that is handed out next.
    pub open spec fn next(self) -> Seq<u8> {
        nonce_bytes(self.prefix, self.counter)
    }

    /// After `calls` nonces were handed out.
    pub open spec fn after_calls(self, calls: nat) -> CounterNonceView
        decreases calls,
    {
        if calls == 0 {
            self
        } else {
            self.after_calls((calls - 1) as nat).advanced()
        }
    }

    /// After one more nonce was handed out.
    pub open spec fn advanced(self) -> CounterNonceView {
        if self.counter < u64::MAX {
            CounterNonceView { counter: (self.counter + 1) as u64, ..self }
        } else {
            self
        }
    }
}

impl CounterNonce {
    /// Nonces that start with the given bytes, of which none was handed out yet.
    pub fn new(prefix: [u8; 4]) -> (r: Self)
        ensures
            r@ == (CounterNonceView { prefix: prefix@, counter: 0 }),
    {
        CounterNonce { prefix, counter: 0 }
    }

    /// Hands out the next nonce; `None` once the counter is used up.
    pub fn advance(&mut self) -> (r: Option<Vec<u8>>)
        ensures
            match r {
                Some(nonce) => old(self)@.counter < u64::MAX && nonce@ == old(self)@.next()
                    && nonce@.len() == 12,
                None => old(self)@.counter == u64::MAX,
            },
            final(self)@ == old(self)@.advanced(),
    {
        let c: u64 = self.counter;
        if c == u64::MAX {
            return None;
        }
        self.counter = c + 1;
        let mut r: Vec<u8> = Vec::new();
        r.push(self.prefix[0]);
        r.push(self.prefix[1]);
        r.push(self.prefix[2]);
        r.push(self.prefix[3]);
        let mut tail = vstd::bytes::u64_to_le_bytes(c);
        r.append(&mut tail);
        assert(r@ =~= nonce_bytes(self.prefix@, c));
        Some(r)
    }
}

/// An encrypted channel between two authenticated peers: ChaCha20-Poly1305 with a
/// shared secret, and counted nonces for each direction so that none is reused.
pub struct EncryptedChannel {
    secret: Vec<u8>,
    sealing: CounterNonce,
    opening: CounterNonce,
}

/// The content of an `EncryptedChannel`: the secret, the role, and how many
/// messages were sealed and opened.
#[verifier::ext_equal]
pub struct EncryptedChannelView {
    pub secret: Seq<u8>,
    pub is_initiator: bool,
    pub sealed: u64,
    pub opened: u64,
}

impl View for EncryptedChannel {
    type V = EncryptedChannelView;

    closed spec fn view(&self) -> EncryptedChannelView {
        EncryptedChannelView {
            secret: self.secret@,
            is_initiator: self.sealing.prefix@ == sealing_prefix(true),
            sealed: self.sealing.counter,
            opened: self.opening.counter,
        }
    }
}

impl EncryptedChannelView {
    /// The nonce of the next message to seal.
    pub open spec fn sealing_nonce(self) -> Seq<u8> {
        nonce_bytes(sealing_prefix(self.is_initiator), self.sealed)
    }

    /// The nonce of the next message to open.
    pub open spec fn opening_nonce(self) -> Seq<u8> {
        nonce_bytes(sealing_prefix(!self.is_initiator), self.opened)
    }

    /// After one more attempt to seal.
    pub open spec fn after_sealing(self) -> EncryptedChannelView {
        if self.sealed < u64::MAX {
            EncryptedChannelView { sealed: (self.sealed + 1) as u64, ..self }
        } else {
            self
        }
    }

    /// After one more attempt to open.
    pub open spec fn after_opening(self) -> EncryptedChannelView {
        if self.opened < u64::MAX {
            EncryptedChannelView { opened: (self.opened + 1) as u64, ..self }
        } else {
            self
        }
    }

    /// `ciphertext` is what sealing `plaintext` next gives, and it opens to
    /// `plaintext`.
    pub open spec fn seals(self, plaintext: Seq<u8>, ciphertext: Seq<u8>) -> bool {
        &&& self.sealed < u64::MAX
        &&& chacha_sealed(self.secret, self.sealing_nonce(), plaintext) == Some(ciphertext)
        &&& chacha_opened(self.secret, self.sealing_nonce(), ciphertext) == Some(plaintext)
    }

    /// What opening `ciphertext` next gives.
    pub open spec fn opens(self, ciphertext: Seq<u8>) -> Option<Seq<u8>> {
        if self.opened < u64::MAX {
            chacha_opened(self.secret, self.opening_nonce(), ciphertext)
        } else {
            None
        }
    }

    /// What `self` seals next is what `other` expects to open next.
    pub open spec fn in_step_with(self, other: EncryptedChannelView) -> bool {
        &&& self.secret == other.secret
        &&& self.is_initiator != other.is_initiator
        &&& self.sealed == other.opened
    }
}

impl EncryptedChannel {
    #[verifier::type_invariant]
    spec fn inv(self) -> bool {
        &&& self.secret@.len() == 32
        &&& exists|is_initiator: bool|
            self.sealing.prefix@ == #[trigger] sealing_prefix(is_initiator) && self.opening.prefix@
                == sealing_prefix(!is_initiator)
    }

    /// A channel with a shared secret, which must have 32 bytes. The two sides have
    /// different roles, so that each direction has nonces of its own.
    pub fn new(shared_secret: &[u8], is_initiator: bool) -> (r: Result<Self, ChannelError>)
        ensures
            r is Ok <==> shared_secret@.len() == 32,
            match r {
                Ok(channel) => channel@ == (EncryptedChannelView {
                    secret: shared_secret@,
                    is_initiator,
                    sealed: 0,
                    opened: 0,
                }),
                Err(e) => e == ChannelError::InvalidKey,
            },
    {
        if shared_secret.len() != 32 {
            return Err(ChannelError::InvalidKey);
        }
        let first: [u8; 4] = [0, 0, 0, 1];
        let second: [u8; 4] = [0, 0, 0, 2];
        let secret = vstd::slice::slice_to_vec(shared_secret);
        proof {
            assert(secret@ =~= shared_secret@);
            assert(first@ =~= sealing_prefix(true));
            assert(second@ =~= sealing_prefix(false));
            lemma_prefixes_differ();
        }
        let (seal, open) = if is_initiator {
            (first, second)
        } else {
            (second, first)
        };
        assert(seal@ == sealing_prefix(is_initiator) && open@ == sealing_prefix(!is_initiator));
        Ok(
            EncryptedChannel {
                secret,
                sealing: CounterNonce::new(seal),
                opening: CounterNonce::new(open),
            },
        )
    }

    /// Encrypts a message. The result is the ciphertext with the tag.
    pub fn seal(&mut self, plaintext: &[u8]) -> (r: Result<Vec<u8>, ChannelError>)
        requires
            plaintext@.len() + TAG_LEN <= isize::MAX,
        ensures
            r is Ok <==> old(self)@.sealed < u64::MAX && plaintext@.len() <= MAX_PLAINTEXT,
            match r {
                Ok(c) => old(self)@.seals(plaintext@, c@) && c@.len() == plaintext@.len() + TAG_LEN,
                Err(e) => e == ChannelError::SealFailed,
            },
            final(self)@ == old(self)@.after_sealing(),
    {
        proof {
            use_type_invariant(&*self);
            lemma_prefixes_differ();
        }
        let ghost start = self@;
        let mut nonces = CounterNonce::new(self.sealing.prefix);
        std::mem::swap(&mut self.sealing, &mut nonces);
        let next = nonces.advance();
        std::mem::swap(&mut self.sealing, &mut nonces);
        match next {
            None => Err(ChannelError::SealFailed),
            Some(nonce) => {
                assert(nonce@ == start.sealing_nonce());
                match chacha_seal(self.secret.as_slice(), nonce.as_slice(), plaintext) {
                    Some(c) => Ok(c),
                    None => Err(ChannelError::SealFailed),
                }
            },
        }
    }

    /// Decrypts a ciphertext with its tag.
    pub fn open(&mut self, ciphertext: &[u8]) -> (r: Result<Vec<u8>, ChannelError>)
        ensures
            match r {
                Ok(p) => old(self)@.opens(ciphertext@) == Some(p@) && ciphertext@.len() == p@.len()
                    + TAG_LEN,
                Err(e) => old(self)@.opens(ciphertext@) is None && e == ChannelError::OpenFailed,
            },
            r matches Ok(p) ==> chacha_sealed(
                old(self)@.secret,
                old(self)@.opening_nonce(),
                p@,
            ) == Some(ciphertext@),
            final(self)@ == old(self)@.after_opening(),
    {
        proof {
            use_type_invariant(&*self);
            lemma_prefixes_differ();
        }
        let ghost start = self@;
        let mut nonces = CounterNonce::new(self.opening.prefix);
        std::mem::swap(&mut self.opening, &mut nonces);
        let next = nonces.advance();
        std::mem::swap(&mut self.opening, &mut nonces);
        match next {
            None => Err(ChannelError::OpenFailed),
            Some(nonce) => {
                assert(nonce@ == start.opening_nonce());
                match chacha_open(self.secret.as_slice(), nonce.as_slice(), ciphertext) {
                    Some(p) => Ok(p),
                    None => Err(ChannelError::OpenFailed),
                }
            },
        }
    }
}

proof fn lemma_prefixes_differ()
    ensures
        sealing_prefix(true) != sealing_prefix(false),
{
    assert(sealing_prefix(true)[3] != sealing_prefix(false)[3]);
}

/// What one side seals the other side, in step with it, opens to the same
/// message, and the two are in step again.
pub proof fn opening_undoes_sealing(
    sender: EncryptedChannelView,
    receiver: EncryptedChannelView,
    plaintext: Seq<u8>,
    ciphertext: Seq<u8>,
)
    requires
        sender.in_step_with(receiver),
        sender.seals(plaintext, ciphertext),
    ensures
        receiver.opens(ciphertext) == Some(plaintext),
        sender.after_sealing().in_step_with(receiver.after_opening()),
{
    assert(sender.sealing_nonce() == receiver.opening_nonce());
}

/// Two nonces are the same only if they have the same first bytes and the same number.
pub proof fn nonces_are_unique(pa: Seq<u8>, a: u64, pb: Seq<u8>, b: u64)
    requires
        pa.len() == 4,
        pb.len() == 4,
        nonce_bytes(pa, a) == nonce_bytes(pb, b),
    ensures
        a == b,
        pa == pb,
{
    vstd::bytes::lemma_auto_spec_u64_to_from_le_bytes();
    assert(pa =~= nonce_bytes(pa, a).take(4));
    assert(pb =~= nonce_bytes(pb, b).take(4));
    assert(vstd::bytes::spec_u64_to_le_bytes(a) =~= nonce_bytes(pa, a).skip(4));
    assert(vstd::bytes::spec_u64_to_le_bytes(b) =~= nonce_bytes(pb, b).skip(4));
}

proof fn lemma_after_calls(start: CounterNonceView, calls: nat)
    requires
        start.counter + calls <= u64::MAX,
    ensures
        start.after_calls(calls) == (CounterNonceView {
            counter: (start.counter + calls) as u64,
            ..start
        }),
    decreases calls,
{
    if calls > 0 {
        lemma_after_calls(start, (calls - 1) as nat);
    }
}

/// No nonce is handed out twice: two successful calls get different nonces, whether they
/// are different calls on one sequence or any calls on sequences with different first
/// bytes.
pub proof fn no_nonce_is_handed_out_twice(
    one: CounterNonceView,
    one_calls: nat,
    other: CounterNonceView,
    other_calls: nat,
)
    requires
        one.prefix.len() == 4,
        other.prefix.len() == 4,
        one.counter + one_calls < u64::MAX,
        other.counter + other_calls < u64::MAX,
        one.prefix != other.prefix || (one == other && one_calls != other_calls),
    ensures
        one.after_calls(one_calls).next() != other.after_calls(other_calls).next(),
{
    lemma_after_calls(one, one_calls);
    lemma_after_calls(other, other_calls);
    let a = one.after_calls(one_calls);
    let b = other.after_calls(other_calls);
    if a.next() == b.next() {
        nonces_are_unique(a.prefix, a.counter, b.prefix, b.counter);
    }
}

/// The two sides of a channel never seal with the same nonce.
pub proof fn directions_have_nonces_of_their_own(
    initiator: EncryptedChannelView,
    responder: EncryptedChannelView,
)
    requires
        initiator.is_initiator,
        !responder.is_initiator,
    ensures
        initiator.sealing_nonce() != responder.sealing_nonce(),
{
    lemma_prefixes_differ();
    if initiator.sealing_nonce() == responder.sealing_nonce() {
        nonces_are_unique(
            sealing_prefix(true),
            initiator.sealed,
            sealing_prefix(false),
            responder.sealed,
        );
    }
}

/// A ciphertext other than the one that was sealed never opens to the sealed
/// message: what opens to a message is its one sealing.
pub proof fn a_changed_ciphertext_never_opens_to_the_message(
    sender: EncryptedChannelView,
    receiver: EncryptedChannelView,
    plaintext: Seq<u8>,
    ciphertext: Seq<u8>,
    other: Seq<u8>,
)
    requires
        sender.in_step_with(receiver),
        sender.seals(plaintext, ciphertext),
        receiver.opens(other) matches Some(p) ==> chacha_sealed(
            receiver.secret,
            receiver.opening_nonce(),
            p,
        ) == Some(other),
        other != ciphertext,
    ensures
        receiver.opens(other) != Some(plaintext),
{
    assert(sender.sealing_nonce() == receiver.opening_nonce());
}

/// The nonces of a channel byte by byte: three zeros, then 1 for what the initiator seals
/// and 2 for what the responder seals, then the number of the message, its least
/// significant byte first.
pub proof fn nonces_byte_by_byte(channel: EncryptedChannelView)
    ensures
        ({
            let nonce = channel.sealing_nonce();
            let n = channel.sealed;
            &&& nonce.len() == 12
            &&& nonce[0] == 0 && nonce[1] == 0 && nonce[2] == 0
            &&& nonce[3] == (if channel.is_initiator {
                1u8
            } else {
                2u8
            })
            &&& nonce[4] == (n & 0xff) as u8
            &&& nonce[5] == ((n >> 8) & 0xff) as u8
            &&& nonce[6] == ((n >> 16) & 0xff) as u8
            &&& nonce[7] == ((n >> 24) & 0xff) as u8
            &&& nonce[8] == ((n >> 32) & 0xff) as u8
            &&& nonce[9] == ((n >> 40) & 0xff) as u8
            &&& nonce[10] == ((n >> 48) & 0xff) as u8
            &&& nonce[11] == ((n >> 56) & 0xff) as u8
        }),
{
    vstd::bytes::spec_u64_to_le_bytes_to_open(channel.sealed);
}

/// Every message that is sealed or opened, or that could not be, uses up one number of its
/// direction, as long as there are any, and leaves the other direction, the secret and the
/// role.
pub proof fn every_attempt_uses_up_a_number(channel: EncryptedChannelView)
    ensures
        channel.sealed < u64::MAX ==> channel.after_sealing().sealed == channel.sealed + 1,
        channel.sealed == u64::MAX ==> channel.after_sealing() == channel,
        channel.after_sealing().opened == channel.opened,
        channel.opened < u64::MAX ==> channel.after_opening().opened == channel.opened + 1,
        channel.opened == u64::MAX ==> channel.after_opening() == channel,
        channel.after_opening().sealed == channel.sealed,
        channel.after_sealing().secret == channel.secret,
        channel.after_opening().secret == channel.secret,
        channel.after_sealing().is_initiator == channel.is_initiator,
        channel.after_opening().is_initiator == channel.is_initiator,
{
}

/// Two channels made with one secret, one for each role, are in step both ways, and what is
/// opened next is the sealing under the other side's nonce.
pub proof fn two_sides_start_in_step(secret: Seq<u8>, ciphertext: Seq<u8>)
    ensures
        ({
            let a = EncryptedChannelView { secret, is_initiator: true, sealed: 0, opened: 0 };
            let b = EncryptedChannelView { secret, is_initiator: false, sealed: 0, opened: 0 };
            &&& a.in_step_with(b)
            &&& b.in_step_with(a)
            &&& b.opens(ciphertext) == chacha_opened(secret, a.sealing_nonce(), ciphertext)
            &&& a.opens(ciphertext) == chacha_opened(secret, b.sealing_nonce(), ciphertext)
        }),
{
}

} // verus!
