//! Mutual authentication of peers by challenge and response.
use crate::crypto::{
    base64_bytes, base64_decode, base64_encode, base64_text, public_text, random_bytes,
    signature_text, verdict, verify, Base64Error, CryptoError, PeerIdentity, PublicKeyBytes,
    PublicKeyBytesView, Signature, SignatureView,
};
use crate::table::{lists, opt_view, result_view, views, Table};
use crate::text::cat2;
use vstd::prelude::*;

verus! {

/// The number of bytes of a challenge.
pub const CHALLENGE_LEN: usize = 32;

/// What can go wrong with authentication.
#[derive(Debug)]
pub enum AuthError {
    PeerNotFound(String),
    NoPendingChallenge(String),
    VerificationFailed,
    AlreadyAuthenticated(String),
    Crypto(CryptoError),
    Base64Decode(Base64Error),
}

/// The content of a `AuthError`.
#[verifier::ext_equal]
pub enum AuthErrorView {
    PeerNotFound(Seq<char>),
    NoPendingChallenge(Seq<char>),
    VerificationFailed,
    AlreadyAuthenticated(Seq<char>),
    Crypto(CryptoError),
    Base64Decode(Base64Error),
}

impl View for AuthError {
    type V = AuthErrorView;

    open spec fn view(&self) -> AuthErrorView {
        match *self {
            AuthError::PeerNotFound(x) => AuthErrorView::PeerNotFound(x@),
            AuthError::NoPendingChallenge(x) => AuthErrorView::NoPendingChallenge(x@),
            AuthError::VerificationFailed => AuthErrorView::VerificationFailed,
            AuthError::AlreadyAuthenticated(x) => AuthErrorView::AlreadyAuthenticated(x@),
            AuthError::Crypto(x) => AuthErrorView::Crypto(x),
            AuthError::Base64Decode(x) => AuthErrorView::Base64Decode(x),
        }
    }
}

impl Clone for AuthError {
    fn clone(&self) -> (r: Self)
        ensures
            r@ == self@,
    {
        match self {
            AuthError::PeerNotFound(x) => AuthError::PeerNotFound(x.clone()),
            AuthError::NoPendingChallenge(x) => AuthError::NoPendingChallenge(x.clone()),
            AuthError::VerificationFailed => AuthError::VerificationFailed,
            AuthError::AlreadyAuthenticated(x) => AuthError::AlreadyAuthenticated(x.clone()),
            AuthError::Crypto(x) => AuthError::Crypto(*x),
            AuthError::Base64Decode(x) => AuthError::Base64Decode(*x),
        }
    }
}

impl AuthErrorView {
    /// The text of the error.
    pub open spec fn text(self) -> Seq<char> {
        match self {
            AuthErrorView::PeerNotFound(id) => "peer not found: "@ + id,
            AuthErrorView::NoPendingChallenge(id) => "no pending challenge for peer: "@ + id,
            AuthErrorView::VerificationFailed => "challenge-response verification failed"@,
            AuthErrorView::AlreadyAuthenticated(id) => "peer already authenticated: "@ + id,
            AuthErrorView::Crypto(e) => "crypto error: "@ + e.text(),
            AuthErrorView::Base64Decode(e) => "base64 decode error: "@ + e.text(),
        }
    }
}

impl AuthError {
    /// The text of the error.
    pub fn to_string(&self) -> (r: String)
        ensures
            r@ == self@.text(),
    {
        match self {
            AuthError::PeerNotFound(id) => cat2("peer not found: ", id.as_str()),
            AuthError::NoPendingChallenge(id) => cat2(
                "no pending challenge for peer: ",
                id.as_str(),
            ),
            AuthError::VerificationFailed => "challenge-response verification failed".to_owned(),
            AuthError::AlreadyAuthenticated(id) => cat2(
                "peer already authenticated: ",
                id.as_str(),
            ),
            AuthError::Crypto(e) => cat2("crypto error: ", e.to_string().as_str()),
            AuthError::Base64Decode(e) => cat2("base64 decode error: ", e.to_string().as_str()),
        }
    }
}

/// The first step: the initiator sends its public key.
#[derive(Debug)]
pub struct AuthHello {
    pub agent_id: String,
    pub public_key: PublicKeyBytes,
}

/// The content of a `AuthHello`.
#[verifier::ext_equal]
pub struct AuthHelloView {
    pub agent_id: Seq<char>,
    pub public_key: PublicKeyBytesView,
}

impl View for AuthHello {
    type V = AuthHelloView;

    open spec fn view(&self) -> AuthHelloView {
        AuthHelloView {
            agent_id: self.agent_id@,
            public_key: self.public_key@,
        }
    }
}

impl Clone for AuthHello {
    fn clone(&self) -> (r: Self)
        ensures
            r@ == self@,
    {
        AuthHello {
            agent_id: self.agent_id.clone(),
            public_key: self.public_key.clone(),
        }
    }
}

/// The second step: the responder sends its public key and a random challenge.
#[derive(Debug)]
pub struct AuthChallenge {
    pub agent_id: String,
    pub public_key: PublicKeyBytes,
    /// The base64 encoding of the challenge.
    pub nonce: String,
}

/// The content of a `AuthChallenge`.
#[verifier::ext_equal]
pub struct AuthChallengeView {
    pub agent_id: Seq<char>,
    pub public_key: PublicKeyBytesView,
    pub nonce: Seq<char>,
}

impl View for AuthChallenge {
    type V = AuthChallengeView;

    open spec fn view(&self) -> AuthChallengeView {
        AuthChallengeView {
            agent_id: self.agent_id@,
            public_key: self.public_key@,
            nonce: self.nonce@,
        }
    }
}

impl Clone for AuthChallenge {
    fn clone(&self) -> (r: Self)
        ensures
            r@ == self@,
    {
        AuthChallenge {
            agent_id: self.agent_id.clone(),
            public_key: self.public_key.clone(),
            nonce: self.nonce.clone(),
        }
    }
}

/// The third step: the initiator sends its signature over the challenge.
#[derive(Debug)]
pub struct AuthResponse {
    pub agent_id: String,
    pub signature: Signature,
}

/// The content of a `AuthResponse`.
#[verifier::ext_equal]
pub struct AuthResponseView {
    pub agent_id: Seq<char>,
    pub signature: SignatureView,
}

impl View for AuthResponse {
    type V = AuthResponseView;

    open spec fn view(&self) -> AuthResponseView {
        AuthResponseView {
            agent_id: self.agent_id@,
            signature: self.signature@,
        }
    }
}

impl Clone for AuthResponse {
    fn clone(&self) -> (r: Self)
        ensures
            r@ == self@,
    {
        AuthResponse {
            agent_id: self.agent_id.clone(),
            signature: self.signature.clone(),
        }
    }
}

/// The fourth step: the responder sends its own signature over the challenge.
#[derive(Debug)]
pub struct AuthConfirm {
    pub agent_id: String,
    pub signature: Signature,
}

/// The content of a `AuthConfirm`.
#[verifier::ext_equal]
pub struct AuthConfirmView {
    pub agent_id: Seq<char>,
    pub signature: SignatureView,
}

impl View for AuthConfirm {
    type V = AuthConfirmView;

    open spec fn view(&self) -> AuthConfirmView {
        AuthConfirmView {
            agent_id: self.agent_id@,
            signature: self.signature@,
        }
    }
}

impl Clone for AuthConfirm {
    fn clone(&self) -> (r: Self)
        ensures
            r@ == self@,
    {
        AuthConfirm {
            agent_id: self.agent_id.clone(),
            signature: self.signature.clone(),
        }
    }
}

/// A peer that proved possession of its private key.
#[derive(Debug)]
pub struct AuthenticatedPeer {
    pub agent_id: String,
    pub public_key: PublicKeyBytes,
}

/// The content of a `AuthenticatedPeer`.
#[verifier::ext_equal]
pub struct AuthenticatedPeerView {
    pub agent_id: Seq<char>,
    pub public_key: PublicKeyBytesView,
}

impl View for AuthenticatedPeer {
    type V = AuthenticatedPeerView;

    open spec fn view(&self) -> AuthenticatedPeerView {
        AuthenticatedPeerView {
            agent_id: self.agent_id@,
            public_key: self.public_key@,
        }
    }
}

impl Clone for AuthenticatedPeer {
    fn clone(&self) -> (r: Self)
        ensures
            r@ == self@,
    {
        AuthenticatedPeer {
            agent_id: self.agent_id.clone(),
            public_key: self.public_key.clone(),
        }
    }
}

/// The handshakes of one peer.
///
/// The initiator sends an `AuthHello`, the responder an `AuthChallenge`, the
/// initiator an `AuthResponse` and the responder an `AuthConfirm`. Each side checks
/// the other's signature, which proves possession of the private key without
/// sending it.
pub struct PeerAuthenticator {
    identity: PeerIdentity,
    agent_id: String,
    pending: Table<Vec<u8>>,
    authenticated: Table<AuthenticatedPeer>,
}

/// The content of a `PeerAuthenticator`: the challenges that are not answered yet,
/// by agent, and the peers that were authenticated.
#[verifier::ext_equal]
pub struct PeerAuthenticatorView {
    pub identity: Seq<u8>,
    pub agent_id: Seq<char>,
    pub pending: Map<Seq<char>, Seq<u8>>,
    pub authenticated: Map<Seq<char>, AuthenticatedPeerView>,
}

impl View for PeerAuthenticator {
    type V = PeerAuthenticatorView;

    closed spec fn view(&self) -> PeerAuthenticatorView {
        PeerAuthenticatorView {
            identity: self.identity@,
            agent_id: self.agent_id@,
            pending: self.pending@,
            authenticated: self.authenticated@,
        }
    }
}

impl PeerAuthenticatorView {
    /// Each authenticated peer is filed under its own id.
    pub open spec fn wf(self) -> bool {
        forall|k: Seq<char>| #[trigger]
            self.authenticated.contains_key(k) ==> self.authenticated[k].agent_id == k
    }

    /// Our public key.
    pub open spec fn public_key(self) -> PublicKeyBytesView {
        PublicKeyBytesView { key: public_text(self.identity) }
    }

    /// The challenge that we send.
    pub open spec fn challenge(self, nonce: Seq<u8>) -> AuthChallengeView {
        AuthChallengeView {
            agent_id: self.agent_id,
            public_key: self.public_key(),
            nonce: base64_text(nonce),
        }
    }

    /// After a challenge was sent to an agent.
    pub open spec fn challenged(self, agent: Seq<char>, nonce: Seq<u8>) -> PeerAuthenticatorView {
        PeerAuthenticatorView { pending: self.pending.insert(agent, nonce), ..self }
    }

    /// With a peer authenticated.
    pub open spec fn trusting(self, agent: Seq<char>, key: PublicKeyBytesView) -> PeerAuthenticatorView {
        PeerAuthenticatorView {
            authenticated: self.authenticated.insert(
                agent,
                AuthenticatedPeerView { agent_id: agent, public_key: key },
            ),
            ..self
        }
    }

    /// What we answer to a response to our challenge.
    pub open spec fn response_outcome(
        self,
        response: AuthResponseView,
        key: PublicKeyBytesView,
    ) -> Result<AuthConfirmView, AuthErrorView> {
        if !self.pending.contains_key(response.agent_id) {
            Err(AuthErrorView::NoPendingChallenge(response.agent_id))
        } else if verdict(
            key.key,
            self.pending[response.agent_id],
            response.signature.sig,
        ) is Err {
            Err(AuthErrorView::VerificationFailed)
        } else {
            Ok(
                AuthConfirmView {
                    agent_id: self.agent_id,
                    signature: SignatureView {
                        sig: signature_text(self.identity, self.pending[response.agent_id]),
                    },
                },
            )
        }
    }

    /// After a response to our challenge: the challenge is used up, and where the
    /// signature was genuine the peer is authenticated.
    pub open spec fn after_response(
        self,
        response: AuthResponseView,
        key: PublicKeyBytesView,
    ) -> PeerAuthenticatorView {
        let used = PeerAuthenticatorView {
            pending: self.pending.remove(response.agent_id),
            ..self
        };
        if self.response_outcome(response, key) is Ok {
            used.trusting(response.agent_id, key)
        } else {
            used
        }
    }

    /// What comes of a confirmation by the responder.
    pub open spec fn confirm_outcome(
        self,
        confirm: AuthConfirmView,
        nonce: Seq<char>,
        key: PublicKeyBytesView,
    ) -> Result<AuthenticatedPeerView, AuthErrorView> {
        match base64_bytes(nonce) {
            Err(e) => Err(AuthErrorView::Base64Decode(e)),
            Ok(bytes) => if verdict(key.key, bytes, confirm.signature.sig) is Err {
                Err(AuthErrorView::VerificationFailed)
            } else {
                Ok(AuthenticatedPeerView { agent_id: confirm.agent_id, public_key: key })
            },
        }
    }

    /// After a confirmation by the responder.
    pub open spec fn after_confirm(
        self,
        confirm: AuthConfirmView,
        nonce: Seq<char>,
        key: PublicKeyBytesView,
    ) -> PeerAuthenticatorView {
        if self.confirm_outcome(confirm, nonce, key) is Ok {
            self.trusting(confirm.agent_id, key)
        } else {
            self
        }
    }
}

impl PeerAuthenticator {
    /// A peer that has authenticated no other.
    pub fn new(agent_id: &str, identity: PeerIdentity) -> (r: Self)
        ensures
            r@ == (PeerAuthenticatorView {
                identity: identity@,
                agent_id: agent_id@,
                pending: Map::empty(),
                authenticated: Map::empty(),
            }),
            r@.wf(),
    {
        PeerAuthenticator {
            identity,
            agent_id: agent_id.to_owned(),
            pending: Table::new(),
            authenticated: Table::new(),
        }
    }

    /// Starts a handshake.
    pub fn make_hello(&self) -> (r: AuthHello)
        ensures
            r@ == (AuthHelloView { agent_id: self@.agent_id, public_key: self@.public_key() }),
    {
        AuthHello { agent_id: self.agent_id.clone(), public_key: self.identity.public_key() }
    }

    /// Answers a hello with a random challenge. Where the system gives no
    /// randomness nothing changes.
    pub fn handle_hello(&mut self, hello: AuthHello) -> (r: Result<AuthChallenge, AuthError>)
        ensures
            match r {
                Ok(c) => {
                    &&& final(self)@.pending.contains_key(hello@.agent_id)
                    &&& final(self)@.pending[hello@.agent_id].len() == CHALLENGE_LEN
                    &&& c@ == old(self)@.challenge(final(self)@.pending[hello@.agent_id])
                    &&& base64_bytes(c@.nonce) == Ok::<Seq<u8>, Base64Error>(
                        final(self)@.pending[hello@.agent_id],
                    )
                    &&& final(self)@ == old(self)@.challenged(
                        hello@.agent_id,
                        final(self)@.pending[hello@.agent_id],
                    )
                },
                Err(e) => e@ == AuthErrorView::Crypto(CryptoError::KeyGeneration) && final(self)@
                    == old(self)@,
            },
            old(self)@.wf() ==> final(self)@.wf(),
    {
        match random_bytes(CHALLENGE_LEN) {
            Err(e) => Err(AuthError::Crypto(e)),
            Ok(nonce) => Ok(self.handle_hello_with(hello, nonce)),
        }
    }

    /// Answers a hello with a given challenge.
    pub fn handle_hello_with(&mut self, hello: AuthHello, nonce: Vec<u8>) -> (r: AuthChallenge)
        requires
            nonce@.len() <= usize::MAX / 4,
        ensures
            r@ == old(self)@.challenge(nonce@),
            base64_bytes(r@.nonce) == Ok::<Seq<u8>, Base64Error>(nonce@),
            final(self)@ == old(self)@.challenged(hello@.agent_id, nonce@),
            old(self)@.wf() ==> final(self)@.wf(),
    {
        let challenge = AuthChallenge {
            agent_id: self.agent_id.clone(),
            public_key: self.identity.public_key(),
            nonce: base64_encode(nonce.as_slice()),
        };
        self.pending.insert(hello.agent_id.clone(), nonce);
        challenge
    }

    /// Signs the challenge of a responder.
    pub fn sign_challenge(&self, challenge: &AuthChallenge) -> (r: AuthResponse)
        requires
            base64_bytes(challenge@.nonce) is Ok,
        ensures
            r@.agent_id == self@.agent_id,
            r@.signature.sig == signature_text(self@.identity, base64_bytes(challenge@.nonce)->Ok_0),
            verdict(
                self@.public_key().key,
                base64_bytes(challenge@.nonce)->Ok_0,
                r@.signature.sig,
            ) is Ok,
    {
        match base64_decode(challenge.nonce.as_str()) {
            Ok(nonce) => AuthResponse {
                agent_id: self.agent_id.clone(),
                signature: self.identity.sign(nonce.as_slice()),
            },
            Err(_) => vstd::pervasive::unreached(),
        }
    }

    /// Signs the challenge of a responder, unless it is no base64.
    pub fn try_sign_challenge(&self, challenge: &AuthChallenge) -> (r: Result<
        AuthResponse,
        Base64Error,
    >)
        ensures
            match base64_bytes(challenge@.nonce) {
                Ok(nonce) => {
                    &&& r is Ok
                    &&& r->Ok_0@.agent_id == self@.agent_id
                    &&& r->Ok_0@.signature.sig == signature_text(self@.identity, nonce)
                    &&& verdict(self@.public_key().key, nonce, r->Ok_0@.signature.sig) is Ok
                },
                Err(e) => r == Err::<AuthResponse, Base64Error>(e),
            },
    {
        match base64_decode(challenge.nonce.as_str()) {
            Ok(_) => Ok(self.sign_challenge(challenge)),
            Err(e) => Err(e),
        }
    }

    /// Checks a response to our challenge. Where the signature is genuine the peer
    /// is authenticated, and the answer lets it authenticate us. The challenge is
    /// used up in any case.
    pub fn handle_response(&mut self, response: AuthResponse, remote_public_key: &PublicKeyBytes) -> (r:
        Result<AuthConfirm, AuthError>)
        ensures
            result_view(r) == old(self)@.response_outcome(response@, remote_public_key@),
            final(self)@ == old(self)@.after_response(response@, remote_public_key@),
            r matches Ok(confirm) ==> verdict(
                old(self)@.public_key().key,
                old(self)@.pending[response@.agent_id],
                confirm@.signature.sig,
            ) is Ok,
            old(self)@.wf() ==> final(self)@.wf(),
    {
        let ghost start = self@;
        match self.pending.remove(response.agent_id.as_str()) {
            None => Err(AuthError::NoPendingChallenge(response.agent_id.clone())),
            Some(nonce) => match verify(remote_public_key, nonce.as_slice(), &response.signature) {
                Err(_) => Err(AuthError::VerificationFailed),
                Ok(_) => {
                    self.authenticated.insert(
                        response.agent_id.clone(),
                        AuthenticatedPeer {
                            agent_id: response.agent_id.clone(),
                            public_key: remote_public_key.clone(),
                        },
                    );
                    let confirm = AuthConfirm {
                        agent_id: self.agent_id.clone(),
                        signature: self.identity.sign(nonce.as_slice()),
                    };
                    assert(result_view(Ok::<AuthConfirm, AuthError>(confirm))
                        == start.response_outcome(response@, remote_public_key@));
                    Ok(confirm)
                },
            },
        }
    }

    /// Checks the confirmation of a responder. Where the signature is genuine the
    /// responder is authenticated.
    pub fn handle_confirm(
        &mut self,
        confirm: AuthConfirm,
        challenge_nonce: &str,
        remote_public_key: &PublicKeyBytes,
    ) -> (r: Result<AuthenticatedPeer, AuthError>)
        ensures
            result_view(r) == old(self)@.confirm_outcome(
                confirm@,
                challenge_nonce@,
                remote_public_key@,
            ),
            final(self)@ == old(self)@.after_confirm(
                confirm@,
                challenge_nonce@,
                remote_public_key@,
            ),
            old(self)@.wf() ==> final(self)@.wf(),
    {
        match base64_decode(challenge_nonce) {
            Err(e) => Err(AuthError::Base64Decode(e)),
            Ok(nonce) => match verify(remote_public_key, nonce.as_slice(), &confirm.signature) {
                Err(_) => Err(AuthError::VerificationFailed),
                Ok(_) => {
                    let peer = AuthenticatedPeer {
                        agent_id: confirm.agent_id.clone(),
                        public_key: remote_public_key.clone(),
                    };
                    self.authenticated.insert(confirm.agent_id.clone(), peer.clone());
                    Ok(peer)
                },
            },
        }
    }

    /// Whether a peer was authenticated.
    pub fn is_authenticated(&self, agent_id: &str) -> (r: bool)
        ensures
            r == self@.authenticated.contains_key(agent_id@),
    {
        self.authenticated.contains_key(agent_id)
    }

    /// The record of an authenticated peer.
    pub fn get_authenticated(&self, agent_id: &str) -> (r: Option<AuthenticatedPeer>)
        ensures
            opt_view(r) == (if self@.authenticated.contains_key(agent_id@) {
                Some(self@.authenticated[agent_id@])
            } else {
                None
            }),
    {
        match self.authenticated.get(agent_id) {
            Some(peer) => Some(peer.clone()),
            None => None,
        }
    }

    /// All authenticated peers.
    pub fn authenticated_peers(&self) -> (r: Vec<AuthenticatedPeer>)
        ensures
            lists(views(r@), self@.authenticated),
    {
        self.authenticated.values()
    }

    /// Forgets that a peer was authenticated.
    pub fn remove_peer(&mut self, agent_id: &str) -> (r: Option<AuthenticatedPeer>)
        ensures
            opt_view(r) == (if old(self)@.authenticated.contains_key(agent_id@) {
                Some(old(self)@.authenticated[agent_id@])
            } else {
                None
            }),
            final(self)@ == (PeerAuthenticatorView {
                authenticated: old(self)@.authenticated.remove(agent_id@),
                ..old(self)@
            }),
            old(self)@.wf() ==> final(self)@.wf(),
    {
        self.authenticated.remove(agent_id)
    }

    /// Our public key.
    pub fn public_key(&self) -> (r: PublicKeyBytes)
        ensures
            r@ == self@.public_key(),
    {
        self.identity.public_key()
    }
}

/// The whole handshake: with the signatures that signing the challenge gives on
/// each side, each side ends up trusting the other under its public key.
pub proof fn a_handshake_authenticates_both(
    initiator: PeerAuthenticatorView,
    responder: PeerAuthenticatorView,
    nonce: Seq<u8>,
    response_sig: Seq<char>,
    confirm_sig: Seq<char>,
)
    requires
        base64_bytes(responder.challenge(nonce).nonce) == Ok::<Seq<u8>, Base64Error>(nonce),
        verdict(initiator.public_key().key, nonce, response_sig) is Ok,
        confirm_sig == signature_text(responder.identity, nonce),
        verdict(responder.public_key().key, nonce, confirm_sig) is Ok,
    ensures
        ({
            let asked = responder.challenged(initiator.agent_id, nonce);
            let response = AuthResponseView {
                agent_id: initiator.agent_id,
                signature: SignatureView { sig: response_sig },
            };
            let confirm = AuthConfirmView {
                agent_id: responder.agent_id,
                signature: SignatureView { sig: confirm_sig },
            };
            &&& asked.response_outcome(response, initiator.public_key()) == Ok::<
                AuthConfirmView,
                AuthErrorView,
            >(confirm)
            &&& asked.after_response(response, initiator.public_key()).authenticated
                == responder.trusting(
                initiator.agent_id,
                initiator.public_key(),
            ).authenticated
            &&& initiator.after_confirm(
                confirm,
                responder.challenge(nonce).nonce,
                responder.public_key(),
            ) == initiator.trusting(responder.agent_id, responder.public_key())
        }),
{
}

/// A challenge can be answered once: whatever came of the first response, a second
/// one finds no pending challenge.
pub proof fn a_challenge_is_used_once(
    peer: PeerAuthenticatorView,
    first: AuthResponseView,
    first_key: PublicKeyBytesView,
    second: AuthResponseView,
    second_key: PublicKeyBytesView,
)
    requires
        first.agent_id == second.agent_id,
    ensures
        peer.after_response(first, first_key).response_outcome(second, second_key) == Err::<
            AuthConfirmView,
            AuthErrorView,
        >(AuthErrorView::NoPendingChallenge(second.agent_id)),
{
}

/// A response whose signature is not genuine authenticates no one.
pub proof fn a_forged_response_authenticates_no_one(
    peer: PeerAuthenticatorView,
    response: AuthResponseView,
    key: PublicKeyBytesView,
)
    requires
        peer.pending.contains_key(response.agent_id),
        verdict(key.key, peer.pending[response.agent_id], response.signature.sig) is Err,
    ensures
        peer.response_outcome(response, key) == Err::<AuthConfirmView, AuthErrorView>(
            AuthErrorView::VerificationFailed,
        ),
        peer.after_response(response, key).authenticated == peer.authenticated,
{
}

/// Who is authenticated after a response or a confirmation, and was not before, is
/// its sender, with a genuine signature under the key that is now trusted.
pub proof fn only_genuine_signatures_authenticate(
    peer: PeerAuthenticatorView,
    response: AuthResponseView,
    confirm: AuthConfirmView,
    nonce: Seq<char>,
    key: PublicKeyBytesView,
    agent: Seq<char>,
)
    requires
        !peer.authenticated.contains_key(agent),
    ensures
        peer.after_response(response, key).authenticated.contains_key(agent) ==> {
            &&& agent == response.agent_id
            &&& peer.pending.contains_key(agent)
            &&& verdict(key.key, peer.pending[agent], response.signature.sig) is Ok
        },
        peer.after_confirm(confirm, nonce, key).authenticated.contains_key(agent) ==> {
            &&& agent == confirm.agent_id
            &&& base64_bytes(nonce) is Ok
            &&& verdict(key.key, base64_bytes(nonce)->Ok_0, confirm.signature.sig) is Ok
        },
{
}

/// A challenge names the responder, carries its public key and the nonce in base64, and is
/// remembered for the agent that it was sent to, in place of an earlier one.
pub proof fn a_challenge_is_remembered(
    peer: PeerAuthenticatorView,
    agent: Seq<char>,
    nonce: Seq<u8>,
)
    ensures
        peer.challenge(nonce).agent_id == peer.agent_id,
        peer.challenge(nonce).public_key.key == public_text(peer.identity),
        peer.challenge(nonce).nonce == base64_text(nonce),
        peer.challenged(agent, nonce).pending == peer.pending.insert(agent, nonce),
        peer.challenged(agent, nonce).authenticated == peer.authenticated,
        peer.challenged(agent, nonce).identity == peer.identity,
        peer.challenged(agent, nonce).agent_id == peer.agent_id,
{
}

/// A response is confirmed exactly if a challenge was pending for its agent and its
/// signature over that challenge verifies under the given key. The confirmation names the
/// responder and carries its own signature over the same challenge; the agent is then
/// trusted under that key. In any case the challenge is used up and the others stay.
pub proof fn which_responses_are_confirmed(
    peer: PeerAuthenticatorView,
    response: AuthResponseView,
    key: PublicKeyBytesView,
)
    ensures
        ({
            let agent = response.agent_id;
            let after = peer.after_response(response, key);
            let genuine = peer.pending.contains_key(agent) && verdict(
                key.key,
                peer.pending[agent],
                response.signature.sig,
            ) is Ok;
            &&& peer.response_outcome(response, key) is Ok <==> genuine
            &&& peer.response_outcome(response, key) matches Ok(c) ==> c.agent_id == peer.agent_id
                && c.signature.sig == signature_text(peer.identity, peer.pending[agent])
            &&& !peer.pending.contains_key(agent) ==> peer.response_outcome(response, key) == Err::<
                AuthConfirmView,
                AuthErrorView,
            >(AuthErrorView::NoPendingChallenge(agent))
            &&& peer.pending.contains_key(agent) && !genuine ==> peer.response_outcome(
                response,
                key,
            ) == Err::<AuthConfirmView, AuthErrorView>(AuthErrorView::VerificationFailed)
            &&& after.pending == peer.pending.remove(agent)
            &&& !genuine ==> after.authenticated == peer.authenticated
            &&& genuine ==> after.authenticated.contains_key(agent)
                && after.authenticated[agent].agent_id == agent
                && after.authenticated[agent].public_key == key
                && after.authenticated.remove(agent) == peer.authenticated.remove(agent)
        }),
{
    assert(peer.after_response(response, key).authenticated.remove(response.agent_id)
        =~= peer.authenticated.remove(response.agent_id));
}

/// A confirmation is believed exactly if the challenge is base64 and the signature over its
/// bytes verifies under the given key; its sender is then trusted under that key, and
/// nothing else changes.
pub proof fn which_confirmations_are_believed(
    peer: PeerAuthenticatorView,
    confirm: AuthConfirmView,
    nonce: Seq<char>,
    key: PublicKeyBytesView,
)
    ensures
        ({
            let agent = confirm.agent_id;
            let after = peer.after_confirm(confirm, nonce, key);
            let genuine = base64_bytes(nonce) is Ok && verdict(
                key.key,
                base64_bytes(nonce)->Ok_0,
                confirm.signature.sig,
            ) is Ok;
            &&& peer.confirm_outcome(confirm, nonce, key) is Ok <==> genuine
            &&& peer.confirm_outcome(confirm, nonce, key) matches Ok(p) ==> p.agent_id == agent
                && p.public_key == key
            &&& base64_bytes(nonce) is Err ==> peer.confirm_outcome(confirm, nonce, key) == Err::<
                AuthenticatedPeerView,
                AuthErrorView,
            >(AuthErrorView::Base64Decode(base64_bytes(nonce)->Err_0))
            &&& base64_bytes(nonce) is Ok && !genuine ==> peer.confirm_outcome(
                confirm,
                nonce,
                key,
            ) == Err::<AuthenticatedPeerView, AuthErrorView>(AuthErrorView::VerificationFailed)
            &&& after.pending == peer.pending
            &&& !genuine ==> after == peer
            &&& genuine ==> after.authenticated.contains_key(agent)
                && after.authenticated[agent].agent_id == agent
                && after.authenticated[agent].public_key == key
                && after.authenticated.remove(agent) == peer.authenticated.remove(agent)
        }),
{
    assert(peer.after_confirm(confirm, nonce, key).authenticated.remove(confirm.agent_id)
        =~= peer.authenticated.remove(confirm.agent_id));
}

/// The errors of authentication name the peer, or carry the text of what went wrong below.
pub proof fn auth_errors_say_what_went_wrong(id: Seq<char>, e: CryptoError, b: Base64Error)
    ensures
        AuthErrorView::PeerNotFound(id).text() == "peer not found: "@ + id,
        AuthErrorView::NoPendingChallenge(id).text() == "no pending challenge for peer: "@ + id,
        AuthErrorView::VerificationFailed.text() == "challenge-response verification failed"@,
        AuthErrorView::AlreadyAuthenticated(id).text() == "peer already authenticated: "@ + id,
        AuthErrorView::Crypto(e).text() == "crypto error: "@ + e.text(),
        AuthErrorView::Base64Decode(b).text() == "base64 decode error: "@ + b.text(),
{
}

/// Who is trusted is filed under its own id.
pub proof fn trusted_peers_are_filed_by_id(peer: PeerAuthenticatorView, k: Seq<char>)
    requires
        peer.wf(),
        peer.authenticated.contains_key(k),
    ensures
        peer.authenticated[k].agent_id == k,
{
}

} // verus!
