//! Links between meshes, and the relay of envelopes across them.
use crate::events::{Event, EventBus, EventView};
use crate::queue::queue_capacity_ok;
use crate::table::{enumerates, lists, lists_by, opt_view, result_view, views, Table};
use crate::text::{cat2, cat3, same};
use crate::time::{clock_reading, Timestamp};
use tokio::sync::mpsc;
use vstd::prelude::*;

verus! {

/// A protocol envelope on its way to another mesh.
#[derive(Debug)]
pub struct FederationEnvelope {
    /// The mesh that sent the envelope.
    pub source_mesh: String,
    /// The mesh that the envelope is for.
    pub target_mesh: String,
    /// The protocol envelope, opaque to the relay.
    pub envelope: serde_json::Value,
    /// When the envelope was relayed last.
    pub relayed_at: Timestamp,
    /// How many hops are left; it prevents loops.
    pub ttl: u8,
}

/// The content of a `FederationEnvelope`.
#[verifier::ext_equal]
pub struct FederationEnvelopeView {
    pub source_mesh: Seq<char>,
    pub target_mesh: Seq<char>,
    pub envelope: serde_json::Value,
    pub relayed_at: Timestamp,
    pub ttl: u8,
}

impl View for FederationEnvelope {
    type V = FederationEnvelopeView;

    open spec fn view(&self) -> FederationEnvelopeView {
        FederationEnvelopeView {
            source_mesh: self.source_mesh@,
            target_mesh: self.target_mesh@,
            envelope: self.envelope,
            relayed_at: self.relayed_at,
            ttl: self.ttl,
        }
    }
}

impl Clone for FederationEnvelope {
    fn clone(&self) -> (r: Self)
        ensures
            r@ == self@,
    {
        FederationEnvelope {
            source_mesh: self.source_mesh.clone(),
            target_mesh: self.target_mesh.clone(),
            envelope: self.envelope.clone(),
            relayed_at: self.relayed_at,
            ttl: self.ttl,
        }
    }
}

/// What is known of a linked mesh.
#[derive(Debug)]
pub struct MeshLink {
    pub mesh_id: String,
    /// A label for humans.
    pub label: Option<String>,
    pub linked_at: Timestamp,
}

/// The content of a `MeshLink`.
#[verifier::ext_equal]
pub struct MeshLinkView {
    pub mesh_id: Seq<char>,
    pub label: Option<Seq<char>>,
    pub linked_at: Timestamp,
}

impl View for MeshLink {
    type V = MeshLinkView;

    open spec fn view(&self) -> MeshLinkView {
        MeshLinkView {
            mesh_id: self.mesh_id@,
            label: opt_view(self.label),
            linked_at: self.linked_at,
        }
    }
}

impl Clone for MeshLink {
    fn clone(&self) -> (r: Self)
        ensures
            r@ == self@,
    {
        MeshLink {
            mesh_id: self.mesh_id.clone(),
            label: self.label.clone(),
            linked_at: self.linked_at,
        }
    }
}

/// What can go wrong with federation.
#[derive(Debug)]
pub enum FederationError {
    LinkNotFound(String),
    RelayFailed(String),
    TtlExpired,
    SelfRelay,
    LinkExists(String),
}

/// The content of a `FederationError`.
#[verifier::ext_equal]
pub enum FederationErrorView {
    LinkNotFound(Seq<char>),
    RelayFailed(Seq<char>),
    TtlExpired,
    SelfRelay,
    LinkExists(Seq<char>),
}

impl View for FederationError {
    type V = FederationErrorView;

    open spec fn view(&self) -> FederationErrorView {
        match *self {
            FederationError::LinkNotFound(x) => FederationErrorView::LinkNotFound(x@),
            FederationError::RelayFailed(x) => FederationErrorView::RelayFailed(x@),
            FederationError::TtlExpired => FederationErrorView::TtlExpired,
            FederationError::SelfRelay => FederationErrorView::SelfRelay,
            FederationError::LinkExists(x) => FederationErrorView::LinkExists(x@),
        }
    }
}

impl Clone for FederationError {
    fn clone(&self) -> (r: Self)
        ensures
            r@ == self@,
    {
        match self {
            FederationError::LinkNotFound(x) => FederationError::LinkNotFound(x.clone()),
            FederationError::RelayFailed(x) => FederationError::RelayFailed(x.clone()),
            FederationError::TtlExpired => FederationError::TtlExpired,
            FederationError::SelfRelay => FederationError::SelfRelay,
            FederationError::LinkExists(x) => FederationError::LinkExists(x.clone()),
        }
    }
}

impl FederationErrorView {
    /// The text of the error.
    pub open spec fn text(self) -> Seq<char> {
        match self {
            FederationErrorView::LinkNotFound(id) => "mesh link not found: "@ + id,
            FederationErrorView::RelayFailed(id) => "failed to relay envelope to mesh "@ + id
                + ": channel closed"@,
            FederationErrorView::TtlExpired => "envelope TTL expired (loops prevented)"@,
            FederationErrorView::SelfRelay => "cannot relay to self mesh"@,
            FederationErrorView::LinkExists(id) => "mesh link already exists: "@ + id,
        }
    }
}

impl FederationError {
    /// The text of the error.
    pub fn to_string(&self) -> (r: String)
        ensures
            r@ == self@.text(),
    {
        match self {
            FederationError::LinkNotFound(id) => cat2("mesh link not found: ", id.as_str()),
            FederationError::RelayFailed(id) => cat3(
                "failed to relay envelope to mesh ",
                id.as_str(),
                ": channel closed",
            ),
            FederationError::TtlExpired => "envelope TTL expired (loops prevented)".to_owned(),
            FederationError::SelfRelay => "cannot relay to self mesh".to_owned(),
            FederationError::LinkExists(id) => cat2("mesh link already exists: ", id.as_str()),
        }
    }
}

/// Which queue of envelopes a sending handle is of, as `same_channel` tells handles apart.
pub uninterp spec fn federation_sender_queue(tx: mpsc::Sender<FederationEnvelope>) -> int;

/// Which queue of envelopes a receiving half is of.
pub uninterp spec fn federation_receiver_queue(rx: mpsc::Receiver<FederationEnvelope>) -> int;

/// The capacity that the queue of a sending handle was made with.
pub uninterp spec fn federation_queue_capacity(tx: mpsc::Sender<FederationEnvelope>) -> usize;

/// `tokio::sync::mpsc::channel` for envelopes: both halves of a new queue with the given
/// capacity. It panics on a capacity of zero or above an eighth of `usize::MAX`.
#[verifier::external_body]
pub(crate) fn open_federation_queue(buffer: usize) -> (r: (
    mpsc::Sender<FederationEnvelope>,
    mpsc::Receiver<FederationEnvelope>,
))
    requires
        queue_capacity_ok(buffer),
    ensures
        federation_receiver_queue(r.1) == federation_sender_queue(r.0),
        federation_queue_capacity(r.0) == buffer,
{
    mpsc::channel(buffer)
}

/// A linked mesh and the queue of envelopes for it.
#[derive(Debug)]
pub struct MeshLinkState {
    info: MeshLink,
    tx: mpsc::Sender<FederationEnvelope>,
}

/// The content of a `MeshLinkState`.
#[verifier::ext_equal]
pub struct MeshLinkStateView {
    pub info: MeshLinkView,
    pub tx: mpsc::Sender<FederationEnvelope>,
}

impl View for MeshLinkState {
    type V = MeshLinkStateView;

    closed spec fn view(&self) -> MeshLinkStateView {
        MeshLinkStateView { info: self.info@, tx: self.tx }
    }
}

impl FederationEnvelopeView {
    /// The envelope after one more hop.
    pub open spec fn forwarded(self, now: Timestamp) -> FederationEnvelopeView {
        FederationEnvelopeView { ttl: (self.ttl - 1) as u8, relayed_at: now, ..self }
    }
}

/// The links of a mesh to others.
#[derive(Debug)]
pub struct FederationRouter {
    local_mesh_id: String,
    links: Table<MeshLinkState>,
    bus: EventBus,
}

/// The content of a `FederationRouter`: the links, and the events it emitted.
#[verifier::ext_equal]
pub struct FederationRouterView {
    pub local_mesh_id: Seq<char>,
    pub links: Map<Seq<char>, MeshLinkStateView>,
    pub log: Seq<EventView>,
    /// The channel of the bus that the events go to.
    pub channel: int,
}

impl View for FederationRouter {
    type V = FederationRouterView;

    closed spec fn view(&self) -> FederationRouterView {
        FederationRouterView {
            local_mesh_id: self.local_mesh_id@,
            links: self.links@,
            log: self.bus@,
            channel: self.bus.channel(),
        }
    }
}

impl FederationRouterView {
    /// Each link is filed under the id of its mesh, and none leads to the mesh
    /// itself.
    pub open spec fn wf(self) -> bool {
        &&& !self.links.contains_key(self.local_mesh_id)
        &&& forall|k: Seq<char>| #[trigger]
            self.links.contains_key(k) ==> self.links[k].info.mesh_id == k
    }

    /// The queue of envelopes for a linked mesh.
    pub open spec fn link_queue(self, remote: Seq<char>) -> int {
        federation_sender_queue(self.links[remote].tx)
    }

    /// The capacity of the queue of envelopes for a linked mesh.
    pub open spec fn link_capacity(self, remote: Seq<char>) -> usize {
        federation_queue_capacity(self.links[remote].tx)
    }

    /// With a `PatchReady` event emitted.
    pub open spec fn announcing(self, description: Seq<char>) -> FederationRouterView {
        FederationRouterView {
            log: self.log.push(
                EventView::PatchReady { mesh_id: self.local_mesh_id, description },
            ),
            ..self
        }
    }

    /// Why a mesh cannot be linked, if so.
    pub open spec fn link_refusal(self, remote: Seq<char>) -> Option<FederationErrorView> {
        if remote == self.local_mesh_id {
            Some(FederationErrorView::SelfRelay)
        } else if self.links.contains_key(remote) {
            Some(FederationErrorView::LinkExists(remote))
        } else {
            None
        }
    }

    /// After a mesh was linked.
    pub open spec fn linked(
        self,
        remote: Seq<char>,
        label: Option<Seq<char>>,
        now: Timestamp,
        tx: mpsc::Sender<FederationEnvelope>,
    ) -> FederationRouterView {
        FederationRouterView {
            links: self.links.insert(
                remote,
                MeshLinkStateView {
                    info: MeshLinkView { mesh_id: remote, label, linked_at: now },
                    tx,
                },
            ),
            ..self
        }.announcing("federation link established: "@ + remote)
    }

    /// After `link_mesh`: what is left open is when the link was made and its queue.
    pub open spec fn linked_like(
        self,
        remote: Seq<char>,
        label: Option<Seq<char>>,
        after: FederationRouterView,
    ) -> bool {
        after == self.linked(
            remote,
            label,
            after.links[remote].info.linked_at,
            after.links[remote].tx,
        )
    }

    /// After a link was removed.
    pub open spec fn unlinked(self, remote: Seq<char>) -> FederationRouterView {
        FederationRouterView { links: self.links.remove(remote), ..self }.announcing(
            "federation link removed: "@ + remote,
        )
    }

    /// The envelope to put on the queue of the target, or why there is none.
    pub open spec fn relayed(
        self,
        target: Seq<char>,
        envelope: serde_json::Value,
        now: Timestamp,
    ) -> Result<FederationEnvelopeView, FederationErrorView> {
        if target == self.local_mesh_id {
            Err(FederationErrorView::SelfRelay)
        } else if !self.links.contains_key(target) {
            Err(FederationErrorView::LinkNotFound(target))
        } else {
            Ok(
                FederationEnvelopeView {
                    source_mesh: self.local_mesh_id,
                    target_mesh: target,
                    envelope,
                    relayed_at: now,
                    ttl: FederationRouter::DEFAULT_TTL,
                },
            )
        }
    }

    /// The envelope to put on the queue of the next mesh, or why there is none.
    pub open spec fn forwarded(
        self,
        target: Seq<char>,
        envelope: FederationEnvelopeView,
        now: Timestamp,
    ) -> Result<FederationEnvelopeView, FederationErrorView> {
        if envelope.ttl == 0 {
            Err(FederationErrorView::TtlExpired)
        } else if !self.links.contains_key(target) {
            Err(FederationErrorView::LinkNotFound(target))
        } else {
            Ok(envelope.forwarded(now))
        }
    }

    /// The envelope is for this mesh and has hops left.
    pub open spec fn accepts(self, envelope: FederationEnvelopeView) -> bool {
        envelope.target_mesh == self.local_mesh_id && envelope.ttl > 0
    }
}

impl FederationRouter {
    /// The channel of the bus that the events go to.
    pub open spec fn channel(&self) -> int {
        self@.channel
    }

    /// How many hops an envelope may make.
    pub const DEFAULT_TTL: u8 = 8;

    /// A mesh without links.
    pub fn new(local_mesh_id: &str, bus: EventBus) -> (r: Self)
        ensures
            r@ == (FederationRouterView {
                local_mesh_id: local_mesh_id@,
                links: Map::empty(),
                log: bus@,
                channel: bus.channel(),
            }),
            r@.wf(),
    {
        FederationRouter { local_mesh_id: local_mesh_id.to_owned(), links: Table::new(), bus }
    }

    /// Links a remote mesh now. Returns the receiving half of the queue of
    /// envelopes for it; whoever holds it delivers them.
    pub fn link_mesh(&mut self, remote_mesh_id: &str, label: Option<&str>, buffer: usize) -> (r:
        Result<mpsc::Receiver<FederationEnvelope>, FederationError>)
        requires
            queue_capacity_ok(buffer),
        ensures
            match old(self)@.link_refusal(remote_mesh_id@) {
                Some(e) => r is Err && r->Err_0@ == e && final(self)@ == old(self)@,
                None => r is Ok && old(self)@.linked_like(
                    remote_mesh_id@,
                    opt_view(label),
                    final(self)@,
                ) && clock_reading(final(self)@.links[remote_mesh_id@].info.linked_at),
            },
            r matches Ok(rx) ==> federation_receiver_queue(rx) == final(self)@.link_queue(
                remote_mesh_id@,
            ) && final(self)@.link_capacity(remote_mesh_id@) == buffer,
            old(self)@.wf() ==> final(self)@.wf(),
    {
        self.link_mesh_at(remote_mesh_id, label, buffer, Timestamp::now())
    }

    /// Links a remote mesh at a given time.
    pub fn link_mesh_at(
        &mut self,
        remote_mesh_id: &str,
        label: Option<&str>,
        buffer: usize,
        now: Timestamp,
    ) -> (r: Result<mpsc::Receiver<FederationEnvelope>, FederationError>)
        requires
            queue_capacity_ok(buffer),
        ensures
            match old(self)@.link_refusal(remote_mesh_id@) {
                Some(e) => r is Err && r->Err_0@ == e && final(self)@ == old(self)@,
                None => r is Ok && old(self)@.linked_like(
                    remote_mesh_id@,
                    opt_view(label),
                    final(self)@,
                ) && final(self)@.links[remote_mesh_id@].info.linked_at == now,
            },
            r matches Ok(rx) ==> federation_receiver_queue(rx) == final(self)@.link_queue(
                remote_mesh_id@,
            ) && final(self)@.link_capacity(remote_mesh_id@) == buffer,
            old(self)@.wf() ==> final(self)@.wf(),
    {
        if same(remote_mesh_id, self.local_mesh_id.as_str()) {
            return Err(FederationError::SelfRelay);
        }
        if self.links.contains_key(remote_mesh_id) {
            return Err(FederationError::LinkExists(remote_mesh_id.to_owned()));
        }
        let (tx, rx) = open_federation_queue(buffer);
        let info = MeshLink {
            mesh_id: remote_mesh_id.to_owned(),
            label: match label {
                Some(text) => Some(text.to_owned()),
                None => None,
            },
            linked_at: now,
        };
        self.links.insert(remote_mesh_id.to_owned(), MeshLinkState { info, tx });
        let description = cat2("federation link established: ", remote_mesh_id);
        let _ = self.bus.emit(
            Event::PatchReady { mesh_id: self.local_mesh_id.clone(), description },
        );
        Ok(rx)
    }

    /// Removes the link to a remote mesh.
    pub fn unlink_mesh(&mut self, remote_mesh_id: &str) -> (r: Result<MeshLink, FederationError>)
        ensures
            r is Ok <==> old(self)@.links.contains_key(remote_mesh_id@),
            match r {
                Ok(link) => link@ == old(self)@.links[remote_mesh_id@].info && final(self)@ == old(self)@.unlinked(remote_mesh_id@),
                Err(e) => e@ == FederationErrorView::LinkNotFound(remote_mesh_id@) && final(self)@
                    == old(self)@,
            },
            old(self)@.wf() ==> final(self)@.wf(),
    {
        let ghost start = self@;
        match self.links.remove(remote_mesh_id) {
            None => {
                assert(self@.links =~= start.links);
                Err(FederationError::LinkNotFound(remote_mesh_id.to_owned()))
            },
            Some(state) => {
                let description = cat2("federation link removed: ", remote_mesh_id);
                let _ = self.bus.emit(
                    Event::PatchReady { mesh_id: self.local_mesh_id.clone(), description },
                );
                Ok(state.info)
            },
        }
    }

    /// The queue of envelopes for a linked mesh.
    pub fn link(&self, remote_mesh_id: &str) -> (r: Option<&mpsc::Sender<FederationEnvelope>>)
        ensures
            r is Some <==> self@.links.contains_key(remote_mesh_id@),
            r matches Some(tx) ==> *tx == self@.links[remote_mesh_id@].tx,
    {
        match self.links.get(remote_mesh_id) {
            Some(state) => Some(&state.tx),
            None => None,
        }
    }

    /// Wraps an envelope for a linked mesh now. The result is to be put on the
    /// queue of the link.
    pub fn relay(&self, target_mesh: &str, envelope: serde_json::Value) -> (r: Result<
        FederationEnvelope,
        FederationError,
    >)
        ensures
            exists|now: Timestamp|
                clock_reading(now) && result_view(r) == #[trigger] self@.relayed(
                    target_mesh@,
                    envelope,
                    now,
                ),
    {
        let now = Timestamp::now();
        let r = self.relay_at(target_mesh, envelope, now);
        assert(result_view(r) == self@.relayed(target_mesh@, envelope, now));
        r
    }

    /// Wraps an envelope for a linked mesh at a given time.
    pub fn relay_at(&self, target_mesh: &str, envelope: serde_json::Value, now: Timestamp) -> (r:
        Result<FederationEnvelope, FederationError>)
        ensures
            result_view(r) == self@.relayed(target_mesh@, envelope, now),
    {
        if same(target_mesh, self.local_mesh_id.as_str()) {
            return Err(FederationError::SelfRelay);
        }
        let wrapped = FederationEnvelope {
            source_mesh: self.local_mesh_id.clone(),
            target_mesh: target_mesh.to_owned(),
            envelope,
            relayed_at: now,
            ttl: FederationRouter::DEFAULT_TTL,
        };
        self.for_link(target_mesh, wrapped)
    }

    /// Prepares a received envelope for its next hop now. The result is to be put
    /// on the queue of the link.
    pub fn forward(&self, target_mesh: &str, envelope: FederationEnvelope) -> (r: Result<
        FederationEnvelope,
        FederationError,
    >)
        ensures
            exists|now: Timestamp|
                clock_reading(now) && result_view(r) == #[trigger] self@.forwarded(
                    target_mesh@,
                    envelope@,
                    now,
                ),
    {
        let now = Timestamp::now();
        let r = self.forward_at(target_mesh, envelope, now);
        assert(result_view(r) == self@.forwarded(target_mesh@, envelope@, now));
        r
    }

    /// Prepares a received envelope for its next hop at a given time.
    pub fn forward_at(&self, target_mesh: &str, envelope: FederationEnvelope, now: Timestamp) -> (r:
        Result<FederationEnvelope, FederationError>)
        ensures
            result_view(r) == self@.forwarded(target_mesh@, envelope@, now),
    {
        if envelope.ttl == 0 {
            return Err(FederationError::TtlExpired);
        }
        let next = FederationEnvelope {
            source_mesh: envelope.source_mesh,
            target_mesh: envelope.target_mesh,
            envelope: envelope.envelope,
            relayed_at: now,
            ttl: envelope.ttl - 1,
        };
        self.for_link(target_mesh, next)
    }

    fn for_link(&self, target_mesh: &str, envelope: FederationEnvelope) -> (r: Result<
        FederationEnvelope,
        FederationError,
    >)
        ensures
            result_view(r) == (if self@.links.contains_key(target_mesh@) {
                Ok(envelope@)
            } else {
                Err(FederationErrorView::LinkNotFound(target_mesh@))
            }),
    {
        if self.links.contains_key(target_mesh) {
            Ok(envelope)
        } else {
            Err(FederationError::LinkNotFound(target_mesh.to_owned()))
        }
    }

    /// What becomes of a relay when the envelope was or was not taken by the queue
    /// of the link.
    pub fn send_outcome(target_mesh: &str, sent: bool) -> (r: Result<(), FederationError>)
        ensures
            r is Ok <==> sent,
            r matches Err(e) ==> e@ == FederationErrorView::RelayFailed(target_mesh@),
    {
        if sent {
            Ok(())
        } else {
            Err(FederationError::RelayFailed(target_mesh.to_owned()))
        }
    }

    /// Whether the envelope is for this mesh and has hops left.
    pub fn should_accept(&self, envelope: &FederationEnvelope) -> (r: bool)
        ensures
            r == self@.accepts(envelope@),
    {
        envelope.target_mesh == self.local_mesh_id && envelope.ttl > 0
    }

    /// All linked meshes.
    pub fn linked_meshes(&self) -> (r: Vec<MeshLink>)
        ensures
            lists(views(r@), self@.links.map_values(|l: MeshLinkStateView| l.info)),
    {
        let mut r: Vec<MeshLink> = Vec::new();
        let n: usize = self.links.len();
        let mut i: usize = 0;
        while i < n
            invariant
                i <= n,
                r@.len() == i,
                n == self.links.keys().len(),
                enumerates(self.links.keys(), self@.links),
                forall|j: int|
                    0 <= j < i ==> (#[trigger] r@[j])@ == self@.links[self.links.keys()[j]].info,
            decreases n - i,
        {
            r.push(self.links.value_at(i).info.clone());
            i = i + 1;
        }
        proof {
            let goal = self@.links.map_values(|l: MeshLinkStateView| l.info);
            assert(lists_by(views(r@), self.links.keys(), goal));
        }
        r
    }

    /// Whether a remote mesh is linked.
    pub fn is_linked(&self, remote_mesh_id: &str) -> (r: bool)
        ensures
            r == self@.links.contains_key(remote_mesh_id@),
    {
        self.links.contains_key(remote_mesh_id)
    }

    /// The number of linked meshes.
    pub fn link_count(&self) -> (r: usize)
        ensures
            r == self@.links.len(),
    {
        self.links.len()
    }

    /// The id of this mesh.
    pub fn local_mesh_id(&self) -> (r: &str)
        ensures
            r@ == self@.local_mesh_id,
    {
        self.local_mesh_id.as_str()
    }
}

/// Links two meshes in both directions. The first receiver gets the envelopes for
/// mesh A, the second those for mesh B.
pub fn federation_pair(
    router_a: &mut FederationRouter,
    router_b: &mut FederationRouter,
    buffer: usize,
) -> (r: Result<
    (mpsc::Receiver<FederationEnvelope>, mpsc::Receiver<FederationEnvelope>),
    FederationError,
>)
    requires
        queue_capacity_ok(buffer),
    ensures
        ({
            let a = old(router_a)@;
            let b = old(router_b)@;
            match b.link_refusal(a.local_mesh_id) {
                Some(e) => {
                    &&& r is Err
                    &&& r->Err_0@ == e
                    &&& final(router_a)@ == a
                    &&& final(router_b)@ == b
                },
                None => {
                    &&& b.linked_like(a.local_mesh_id, None, final(router_b)@)
                    &&& clock_reading(final(router_b)@.links[a.local_mesh_id].info.linked_at)
                    &&& match a.link_refusal(b.local_mesh_id) {
                        Some(e) => r is Err && r->Err_0@ == e && final(router_a)@ == a,
                        None => {
                            &&& a.linked_like(b.local_mesh_id, None, final(router_a)@)
                            &&& r is Ok
                            &&& federation_receiver_queue(r->Ok_0.0) == final(router_b)@.link_queue(a.local_mesh_id)
                            &&& federation_receiver_queue(r->Ok_0.1) == final(router_a)@.link_queue(b.local_mesh_id)
                            &&& clock_reading(
                                final(router_a)@.links[b.local_mesh_id].info.linked_at,
                            )
                            &&& final(router_b)@.link_capacity(a.local_mesh_id) == buffer
                            &&& final(router_a)@.link_capacity(b.local_mesh_id) == buffer
                        },
                    }
                },
            }
        }),
        old(router_a)@.wf() ==> final(router_a)@.wf(),
        old(router_b)@.wf() ==> final(router_b)@.wf(),
{
    let rx_a = match router_b.link_mesh(router_a.local_mesh_id(), None, buffer) {
        Ok(rx) => rx,
        Err(e) => {
            return Err(e);
        },
    };
    match router_a.link_mesh(router_b.local_mesh_id(), None, buffer) {
        Ok(rx_b) => Ok((rx_a, rx_b)),
        Err(e) => Err(e),
    }
}

/// Removing a link that was just made leaves the links as they were.
pub proof fn unlinking_undoes_linking(
    router: FederationRouterView,
    remote: Seq<char>,
    label: Option<Seq<char>>,
    now: Timestamp,
    tx: mpsc::Sender<FederationEnvelope>,
)
    requires
        router.link_refusal(remote) is None,
    ensures
        router.linked(remote, label, now, tx).links.contains_key(remote),
        router.linked(remote, label, now, tx).link_refusal(remote) is Some,
        router.linked(remote, label, now, tx).unlinked(remote).links == router.links,
{
    assert(router.linked(remote, label, now, tx).unlinked(remote).links =~= router.links);
}

/// What a mesh relays over a link is accepted by the mesh at the other end.
pub proof fn a_relayed_envelope_is_accepted(
    sender: FederationRouterView,
    receiver: FederationRouterView,
    envelope: serde_json::Value,
    now: Timestamp,
)
    requires
        sender.local_mesh_id != receiver.local_mesh_id,
        sender.links.contains_key(receiver.local_mesh_id),
    ensures
        sender.relayed(receiver.local_mesh_id, envelope, now) matches Ok(e) && receiver.accepts(e)
            && e.envelope == envelope && e.source_mesh == sender.local_mesh_id,
{
}

/// The envelope after a hop at each of the given times, each through a router that
/// has a link for it; `None` once the hops are used up.
pub open spec fn after_hops(envelope: FederationEnvelopeView, times: Seq<Timestamp>) -> Option<
    FederationEnvelopeView,
>
    decreases times.len(),
{
    if times.len() == 0 {
        Some(envelope)
    } else {
        match after_hops(envelope, times.drop_last()) {
            None => None,
            Some(e) => if e.ttl == 0 {
                None
            } else {
                Some(e.forwarded(times.last()))
            },
        }
    }
}

/// An envelope makes exactly as many hops as its counter says, and reaches the
/// end of each with its source, target and content unchanged.
pub proof fn hops_are_bounded(envelope: FederationEnvelopeView, times: Seq<Timestamp>)
    ensures
        after_hops(envelope, times) is Some <==> times.len() <= envelope.ttl,
        after_hops(envelope, times) matches Some(e) ==> e.ttl == envelope.ttl - times.len()
            && e.source_mesh == envelope.source_mesh && e.target_mesh == envelope.target_mesh
            && e.envelope == envelope.envelope,
    decreases times.len(),
{
    if times.len() > 0 {
        hops_are_bounded(envelope, times.drop_last());
    }
}

/// A mesh can be linked exactly if it is another one and not linked yet.
pub proof fn which_meshes_can_be_linked(router: FederationRouterView, remote: Seq<char>)
    ensures
        router.link_refusal(remote) is None <==> remote != router.local_mesh_id
            && !router.links.contains_key(remote),
        remote == router.local_mesh_id ==> router.link_refusal(remote) == Some(
            FederationErrorView::SelfRelay,
        ),
        remote != router.local_mesh_id && router.links.contains_key(remote)
            ==> router.link_refusal(remote) == Some(FederationErrorView::LinkExists(remote)),
{
}

/// Linking records the mesh, its label, the time and the queue, leaves the other links,
/// and is announced by one event; so is unlinking, which drops the link.
pub proof fn links_are_recorded_and_announced(
    router: FederationRouterView,
    remote: Seq<char>,
    label: Option<Seq<char>>,
    now: Timestamp,
    tx: mpsc::Sender<FederationEnvelope>,
)
    ensures
        ({
            let after = router.linked(remote, label, now, tx);
            &&& after.links.dom() == router.links.dom().insert(remote)
            &&& after.links[remote].info.mesh_id == remote
            &&& after.links[remote].info.label == label
            &&& after.links[remote].info.linked_at == now
            &&& after.links[remote].tx == tx
            &&& after.links.remove(remote) == router.links.remove(remote)
            &&& after.local_mesh_id == router.local_mesh_id
            &&& after.log == router.log.push(
                EventView::PatchReady {
                    mesh_id: router.local_mesh_id,
                    description: "federation link established: "@ + remote,
                },
            )
        }),
        router.unlinked(remote).links == router.links.remove(remote),
        router.unlinked(remote).local_mesh_id == router.local_mesh_id,
        router.unlinked(remote).log == router.log.push(
            EventView::PatchReady {
                mesh_id: router.local_mesh_id,
                description: "federation link removed: "@ + remote,
            },
        ),
{
    assert(router.linked(remote, label, now, tx).links.remove(remote) =~= router.links.remove(
        remote,
    ));
}

/// What is relayed goes to a linked mesh other than this one, from this mesh to that one,
/// with its content, the time, and eight hops; what is forwarded has one hop less and is
/// otherwise as it was, but for the time.
pub proof fn what_goes_out_to_a_link(
    router: FederationRouterView,
    target: Seq<char>,
    content: serde_json::Value,
    received: FederationEnvelopeView,
    now: Timestamp,
)
    ensures
        match router.relayed(target, content, now) {
            Ok(e) => {
                &&& target != router.local_mesh_id
                &&& router.links.contains_key(target)
                &&& e.source_mesh == router.local_mesh_id
                &&& e.target_mesh == target
                &&& e.envelope == content
                &&& e.relayed_at == now
                &&& e.ttl == 8
            },
            Err(FederationErrorView::SelfRelay) => target == router.local_mesh_id,
            Err(FederationErrorView::LinkNotFound(id)) => target != router.local_mesh_id
                && !router.links.contains_key(target) && id == target,
            Err(_) => false,
        },
        match router.forwarded(target, received, now) {
            Ok(e) => {
                &&& router.links.contains_key(target)
                &&& e.ttl + 1 == received.ttl
                &&& e.source_mesh == received.source_mesh
                &&& e.target_mesh == received.target_mesh
                &&& e.envelope == received.envelope
                &&& e.relayed_at == now
            },
            Err(FederationErrorView::TtlExpired) => received.ttl == 0,
            Err(FederationErrorView::LinkNotFound(id)) => received.ttl > 0
                && !router.links.contains_key(target) && id == target,
            Err(_) => false,
        },
        router.accepts(received) <==> received.target_mesh == router.local_mesh_id && received.ttl
            >= 1,
{
}

} // verus!
