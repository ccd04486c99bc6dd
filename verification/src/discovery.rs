//! The registry of peers of a mesh, and how registries learn from each other.
use crate::events::{Event, EventBus, EventView};
use crate::table::{
    a_listing_holds_every_value, a_selection_holds_what_is_kept, is_value, lemma_lists_mapped,
    lists, lists_by, only, opt_view, views, Table,
};
use crate::text::{cat3, holds_text};
use crate::time::{clock_reading, time_order_is_total, Timestamp};
use vstd::prelude::*;

verus! {

/// Status of a peer in the mesh.
#[derive(Clone, Copy, Debug, PartialEq, Eq, Structural)]
pub enum PeerStatus {
    Available,
    Busy,
    Away,
}

/// A registered peer of the mesh.
#[derive(Debug)]
pub struct PeerEntry {
    pub agent_id: String,
    pub mesh_id: String,
    pub display_name: String,
    pub status: PeerStatus,
    pub capabilities: Vec<String>,
    pub last_seen: Timestamp,
}

/// The content of a `PeerEntry`.
#[verifier::ext_equal]
pub struct PeerEntryView {
    pub agent_id: Seq<char>,
    pub mesh_id: Seq<char>,
    pub display_name: Seq<char>,
    pub status: PeerStatus,
    pub capabilities: Seq<Seq<char>>,
    pub last_seen: Timestamp,
}

impl View for PeerEntry {
    type V = PeerEntryView;

    open spec fn view(&self) -> PeerEntryView {
        PeerEntryView {
            agent_id: self.agent_id@,
            mesh_id: self.mesh_id@,
            display_name: self.display_name@,
            status: self.status,
            capabilities: views(self.capabilities@),
            last_seen: self.last_seen,
        }
    }
}

impl Clone for PeerEntry {
    fn clone(&self) -> (r: Self)
        ensures
            r@ == self@,
    {
        let r = PeerEntry {
            agent_id: self.agent_id.clone(),
            mesh_id: self.mesh_id.clone(),
            display_name: self.display_name.clone(),
            status: self.status,
            capabilities: self.capabilities.clone(),
            last_seen: self.last_seen,
        };
        proof {
            assert(views(r.capabilities@) =~= views(self.capabilities@));
            assert(r@ =~= self@);
        }
        r
    }
}

/// What a peer sends to announce or update its presence.
#[derive(Debug)]
pub struct AnnounceMessage {
    pub agent_id: String,
    pub mesh_id: String,
    pub display_name: String,
    pub status: PeerStatus,
    pub capabilities: Vec<String>,
}

/// The content of a `AnnounceMessage`.
#[verifier::ext_equal]
pub struct AnnounceMessageView {
    pub agent_id: Seq<char>,
    pub mesh_id: Seq<char>,
    pub display_name: Seq<char>,
    pub status: PeerStatus,
    pub capabilities: Seq<Seq<char>>,
}

impl View for AnnounceMessage {
    type V = AnnounceMessageView;

    open spec fn view(&self) -> AnnounceMessageView {
        AnnounceMessageView {
            agent_id: self.agent_id@,
            mesh_id: self.mesh_id@,
            display_name: self.display_name@,
            status: self.status,
            capabilities: views(self.capabilities@),
        }
    }
}

impl Clone for AnnounceMessage {
    fn clone(&self) -> (r: Self)
        ensures
            r@ == self@,
    {
        let r = AnnounceMessage {
            agent_id: self.agent_id.clone(),
            mesh_id: self.mesh_id.clone(),
            display_name: self.display_name.clone(),
            status: self.status,
            capabilities: self.capabilities.clone(),
        };
        proof {
            assert(views(r.capabilities@) =~= views(self.capabilities@));
            assert(r@ =~= self@);
        }
        r
    }
}

/// The filters of a search for peers. A filter that is not given lets all pass.
#[derive(Debug)]
pub struct PeerQuery {
    pub status: Option<PeerStatus>,
    pub capability: Option<String>,
    pub mesh_id: Option<String>,
}

/// The content of a `PeerQuery`.
#[verifier::ext_equal]
pub struct PeerQueryView {
    pub status: Option<PeerStatus>,
    pub capability: Option<Seq<char>>,
    pub mesh_id: Option<Seq<char>>,
}

impl View for PeerQuery {
    type V = PeerQueryView;

    open spec fn view(&self) -> PeerQueryView {
        PeerQueryView {
            status: self.status,
            capability: opt_view(self.capability),
            mesh_id: opt_view(self.mesh_id),
        }
    }
}

impl Clone for PeerQuery {
    fn clone(&self) -> (r: Self)
        ensures
            r@ == self@,
    {
        PeerQuery {
            status: self.status,
            capability: self.capability.clone(),
            mesh_id: self.mesh_id.clone(),
        }
    }
}

/// Which version of a peer a registry knows.
#[derive(Debug)]
pub struct GossipDigest {
    pub agent_id: String,
    pub last_seen: Timestamp,
}

/// The content of a `GossipDigest`.
#[verifier::ext_equal]
pub struct GossipDigestView {
    pub agent_id: Seq<char>,
    pub last_seen: Timestamp,
}

impl View for GossipDigest {
    type V = GossipDigestView;

    open spec fn view(&self) -> GossipDigestView {
        GossipDigestView {
            agent_id: self.agent_id@,
            last_seen: self.last_seen,
        }
    }
}

impl Clone for GossipDigest {
    fn clone(&self) -> (r: Self)
        ensures
            r@ == self@,
    {
        GossipDigest {
            agent_id: self.agent_id.clone(),
            last_seen: self.last_seen,
        }
    }
}

/// A request for news: "I know about these peers at these times."
#[derive(Debug)]
pub struct GossipPull {
    pub from: String,
    pub digests: Vec<GossipDigest>,
}

/// The content of a `GossipPull`.
#[verifier::ext_equal]
pub struct GossipPullView {
    pub from: Seq<char>,
    pub digests: Seq<GossipDigestView>,
}

impl View for GossipPull {
    type V = GossipPullView;

    open spec fn view(&self) -> GossipPullView {
        GossipPullView {
            from: self.from@,
            digests: views(self.digests@),
        }
    }
}

impl Clone for GossipPull {
    fn clone(&self) -> (r: Self)
        ensures
            r@ == self@,
    {
        let r = GossipPull {
            from: self.from.clone(),
            digests: self.digests.clone(),
        };
        proof {
            assert(views(r.digests@) =~= views(self.digests@));
            assert(r@ =~= self@);
        }
        r
    }
}

/// The answer: entries that the other side lacks or has in older versions.
#[derive(Debug)]
pub struct GossipPush {
    pub entries: Vec<PeerEntry>,
}

/// The content of a `GossipPush`.
#[verifier::ext_equal]
pub struct GossipPushView {
    pub entries: Seq<PeerEntryView>,
}

impl View for GossipPush {
    type V = GossipPushView;

    open spec fn view(&self) -> GossipPushView {
        GossipPushView {
            entries: views(self.entries@),
        }
    }
}

impl Clone for GossipPush {
    fn clone(&self) -> (r: Self)
        ensures
            r@ == self@,
    {
        let r = GossipPush {
            entries: self.entries.clone(),
        };
        proof {
            assert(views(r.entries@) =~= views(self.entries@));
            assert(r@ =~= self@);
        }
        r
    }
}

impl Default for PeerQuery {
    fn default() -> (r: Self)
        ensures
            r@ == (PeerQueryView { status: None, capability: None, mesh_id: None }),
    {
        PeerQuery { status: None, capability: None, mesh_id: None }
    }
}

impl PeerEntryView {
    /// The digest of the entry.
    pub open spec fn digest(self) -> GossipDigestView {
        GossipDigestView { agent_id: self.agent_id, last_seen: self.last_seen }
    }

    /// The entry is new to someone who knows the version seen at `known`.
    pub open spec fn is_news_to(self, known: Option<Timestamp>) -> bool {
        match known {
            None => true,
            Some(t) => self.last_seen.after(t),
        }
    }
}

impl PeerQueryView {
    /// The peer passes all filters.
    pub open spec fn admits(self, p: PeerEntryView) -> bool {
        &&& self.status matches Some(s) ==> p.status == s
        &&& self.capability matches Some(c) ==> p.capabilities.contains(c)
        &&& self.mesh_id matches Some(m) ==> p.mesh_id == m
    }
}

impl AnnounceMessageView {
    /// The entry that the announcement makes at time `now`.
    pub open spec fn entry(self, now: Timestamp) -> PeerEntryView {
        PeerEntryView {
            agent_id: self.agent_id,
            mesh_id: self.mesh_id,
            display_name: self.display_name,
            status: self.status,
            capabilities: self.capabilities,
            last_seen: now,
        }
    }
}

/// When the agent was last seen according to the digests. The last digest of an
/// agent counts.
pub open spec fn last_known(digests: Seq<GossipDigestView>, agent_id: Seq<char>) -> Option<
    Timestamp,
>
    decreases digests.len(),
{
    if digests.len() == 0 {
        None
    } else if digests.last().agent_id == agent_id {
        Some(digests.last().last_seen)
    } else {
        last_known(digests.drop_last(), agent_id)
    }
}

/// The peers that are news to someone who knows these digests.
pub open spec fn news_for(
    peers: Map<Seq<char>, PeerEntryView>,
    digests: Seq<GossipDigestView>,
) -> Map<Seq<char>, PeerEntryView> {
    only(peers, |p: PeerEntryView| p.is_news_to(last_known(digests, p.agent_id)))
}

/// The registry of the peers of one mesh.
#[derive(Debug)]
pub struct MeshRegistry {
    mesh_id: String,
    peers: Table<PeerEntry>,
    bus: EventBus,
}

/// The content of a `MeshRegistry`: the peers, and the events it emitted.
#[verifier::ext_equal]
pub struct MeshRegistryView {
    pub mesh_id: Seq<char>,
    pub peers: Map<Seq<char>, PeerEntryView>,
    pub log: Seq<EventView>,
    /// The channel of the bus that the events go to.
    pub channel: int,
}

impl View for MeshRegistry {
    type V = MeshRegistryView;

    closed spec fn view(&self) -> MeshRegistryView {
        MeshRegistryView {
            mesh_id: self.mesh_id@,
            peers: self.peers@,
            log: self.bus@,
            channel: self.bus.channel(),
        }
    }
}

impl MeshRegistryView {
    /// Each peer is registered under its own id.
    pub open spec fn wf(self) -> bool {
        forall|k: Seq<char>| #[trigger]
            self.peers.contains_key(k) ==> self.peers[k].agent_id == k
    }

    /// With an event emitted.
    pub open spec fn emitting(self, event: EventView) -> MeshRegistryView {
        MeshRegistryView { log: self.log.push(event), ..self }
    }

    /// With a `PatchReady` event emitted.
    pub open spec fn announcing(self, description: Seq<char>) -> MeshRegistryView {
        self.emitting(EventView::PatchReady { mesh_id: self.mesh_id, description })
    }

    /// After an announcement at time `now`.
    pub open spec fn announced(self, msg: AnnounceMessageView, now: Timestamp) -> MeshRegistryView {
        MeshRegistryView { peers: self.peers.insert(msg.agent_id, msg.entry(now)), ..self }
            .emitting(EventView::PeerAnnounced { agent_id: msg.agent_id, mesh_id: msg.mesh_id })
            .announcing("peer "@ + msg.agent_id + " announced"@)
    }

    /// After the removal of a peer.
    pub open spec fn departed(self, agent_id: Seq<char>) -> MeshRegistryView {
        if self.peers.contains_key(agent_id) {
            MeshRegistryView { peers: self.peers.remove(agent_id), ..self }
                .emitting(EventView::PeerDeparted { agent_id, mesh_id: self.mesh_id })
                .announcing("peer "@ + agent_id + " departed"@)
        } else {
            self
        }
    }

    /// The entry is of a peer that is not registered, or newer than what is
    /// registered.
    pub open spec fn accepts(self, e: PeerEntryView) -> bool {
        !self.peers.contains_key(e.agent_id) || e.last_seen.after(self.peers[e.agent_id].last_seen)
    }

    /// After hearing of an entry from another registry.
    pub open spec fn heard(self, e: PeerEntryView) -> MeshRegistryView {
        if self.accepts(e) {
            MeshRegistryView { peers: self.peers.insert(e.agent_id, e), ..self }.emitting(
                EventView::PeerAnnounced { agent_id: e.agent_id, mesh_id: e.mesh_id },
            )
        } else {
            self
        }
    }

    /// After hearing of the entries one by one.
    pub open spec fn heard_all(self, entries: Seq<PeerEntryView>) -> MeshRegistryView
        decreases entries.len(),
    {
        if entries.len() == 0 {
            self
        } else {
            self.heard_all(entries.drop_last()).heard(entries.last())
        }
    }
}

/// When the agent was last seen according to the digests.
fn find_digest(digests: &Vec<GossipDigest>, agent_id: &String) -> (r: Option<Timestamp>)
    ensures
        r == last_known(views(digests@), agent_id@),
{
    let ghost all = views(digests@);
    let mut i: usize = digests.len();
    assert(all.take(i as int) =~= all);
    while i > 0
        invariant
            i <= digests@.len(),
            all == views(digests@),
            last_known(all, agent_id@) == last_known(all.take(i as int), agent_id@),
        decreases i,
    {
        i = i - 1;
        proof {
            assert(all.take(i + 1).last() == digests@[i as int]@);
            assert(all.take(i + 1).drop_last() =~= all.take(i as int));
        }
        if digests[i].agent_id == *agent_id {
            return Some(digests[i].last_seen);
        }
    }
    assert(all.take(0).len() == 0);
    None
}

impl PeerQuery {
    /// Whether the peer passes all filters.
    pub fn admits(&self, p: &PeerEntry) -> (r: bool)
        ensures
            r == self@.admits(p@),
    {
        if let Some(status) = self.status {
            if p.status != status {
                return false;
            }
        }
        if let Some(capability) = &self.capability {
            if !holds_text(&p.capabilities, capability.as_str()) {
                return false;
            }
        }
        if let Some(mesh_id) = &self.mesh_id {
            if p.mesh_id != *mesh_id {
                return false;
            }
        }
        true
    }
}

impl MeshRegistry {
    /// The channel of the bus that the events go to.
    pub open spec fn channel(&self) -> int {
        self@.channel
    }

    /// A registry without peers.
    pub fn new(mesh_id: &str, bus: EventBus) -> (r: Self)
        ensures
            r@ == (MeshRegistryView {
                mesh_id: mesh_id@,
                peers: Map::empty(),
                log: bus@,
                channel: bus.channel(),
            }),
            r@.wf(),
    {
        MeshRegistry { mesh_id: mesh_id.to_owned(), peers: Table::new(), bus }
    }

    /// Registers or updates the peer that announces itself, as seen now.
    pub fn handle_announce(&mut self, msg: AnnounceMessage) -> (r: PeerEntry)
        ensures
            clock_reading(r.last_seen),
            r@ == msg@.entry(r.last_seen),
            final(self)@ == old(self)@.announced(msg@, r.last_seen),
            old(self)@.wf() ==> final(self)@.wf(),
    {
        self.handle_announce_at(msg, Timestamp::now())
    }

    /// Registers or updates the peer that announces itself at a given time.
    pub fn handle_announce_at(&mut self, msg: AnnounceMessage, now: Timestamp) -> (r: PeerEntry)
        ensures
            r@ == msg@.entry(now),
            final(self)@ == old(self)@.announced(msg@, now),
            old(self)@.wf() ==> final(self)@.wf(),
    {
        let entry = PeerEntry {
            agent_id: msg.agent_id.clone(),
            mesh_id: msg.mesh_id.clone(),
            display_name: msg.display_name,
            status: msg.status,
            capabilities: msg.capabilities,
            last_seen: now,
        };
        self.peers.insert(msg.agent_id.clone(), entry.clone());
        let _ = self.bus.emit(
            Event::PeerAnnounced { agent_id: msg.agent_id.clone(), mesh_id: msg.mesh_id },
        );
        let notice = cat3("peer ", msg.agent_id.as_str(), " announced");
        let _ = self.bus.emit_patch_ready(self.mesh_id.as_str(), notice.as_str());
        entry
    }

    /// Removes a peer.
    pub fn remove_peer(&mut self, agent_id: &str) -> (r: Option<PeerEntry>)
        ensures
            opt_view(r) == (if old(self)@.peers.contains_key(agent_id@) {
                Some(old(self)@.peers[agent_id@])
            } else {
                None
            }),
            final(self)@ == old(self)@.departed(agent_id@),
            old(self)@.wf() ==> final(self)@.wf(),
    {
        let ghost start = self@;
        let removed = self.peers.remove(agent_id);
        if removed.is_some() {
            let _ = self.bus.emit(
                Event::PeerDeparted {
                    agent_id: agent_id.to_owned(),
                    mesh_id: self.mesh_id.clone(),
                },
            );
            let notice = cat3("peer ", agent_id, " departed");
            let _ = self.bus.emit_patch_ready(self.mesh_id.as_str(), notice.as_str());
        } else {
            assert(self@.peers =~= start.peers);
        }
        removed
    }

    /// Looks up a peer.
    pub fn get_peer(&self, agent_id: &str) -> (r: Option<PeerEntry>)
        ensures
            opt_view(r) == (if self@.peers.contains_key(agent_id@) {
                Some(self@.peers[agent_id@])
            } else {
                None
            }),
    {
        match self.peers.get(agent_id) {
            Some(p) => Some(p.clone()),
            None => None,
        }
    }

    /// All the peers.
    pub fn list_peers(&self) -> (r: Vec<PeerEntry>)
        ensures
            lists(views(r@), self@.peers),
    {
        self.peers.values()
    }

    /// The peers with the given status.
    pub fn peers_by_status(&self, status: PeerStatus) -> (r: Vec<PeerEntry>)
        ensures
            lists(views(r@), only(self@.peers, |p: PeerEntryView| p.status == status)),
    {
        let fits = |p: &PeerEntry| -> (b: bool)
            ensures
                b == (p@.status == status),
            { p.status == status };
        self.peers.select(fits, Ghost(|p: PeerEntryView| p.status == status))
    }

    /// The number of peers.
    pub fn peer_count(&self) -> (r: usize)
        ensures
            r == self@.peers.len(),
    {
        self.peers.len()
    }

    /// The peers that advertise a capability.
    pub fn peers_by_capability(&self, capability: &str) -> (r: Vec<PeerEntry>)
        ensures
            lists(
                views(r@),
                only(self@.peers, |p: PeerEntryView| p.capabilities.contains(capability@)),
            ),
    {
        let fits = |p: &PeerEntry| -> (b: bool)
            ensures
                b == p@.capabilities.contains(capability@),
            { holds_text(&p.capabilities, capability) };
        self.peers.select(fits, Ghost(|p: PeerEntryView| p.capabilities.contains(capability@)))
    }

    /// The peers that pass all filters of the query.
    pub fn search_peers(&self, query: &PeerQuery) -> (r: Vec<PeerEntry>)
        ensures
            lists(views(r@), only(self@.peers, |p: PeerEntryView| query@.admits(p))),
    {
        let fits = |p: &PeerEntry| -> (b: bool)
            ensures
                b == query@.admits(p@),
            { query.admits(p) };
        self.peers.select(fits, Ghost(|p: PeerEntryView| query@.admits(p)))
    }

    /// The digest of every peer.
    pub fn build_digest(&self) -> (r: Vec<GossipDigest>)
        ensures
            lists(views(r@), self@.peers.map_values(|p: PeerEntryView| p.digest())),
    {
        let entries = self.peers.values();
        let ghost all = views(entries@);
        let mut r: Vec<GossipDigest> = Vec::new();
        let mut i: usize = 0;
        while i < entries.len()
            invariant
                i <= entries@.len(),
                r@.len() == i,
                all == views(entries@),
                forall|j: int| 0 <= j < i ==> (#[trigger] r@[j])@ == all[j].digest(),
            decreases entries@.len() - i,
        {
            r.push(
                GossipDigest {
                    agent_id: entries[i].agent_id.clone(),
                    last_seen: entries[i].last_seen,
                },
            );
            i = i + 1;
        }
        proof {
            let f = |p: PeerEntryView| p.digest();
            lemma_lists_mapped(all, self@.peers, f);
            assert(views(r@) =~= all.map_values(f));
        }
        r
    }

    /// Answers a pull with the entries that the requester lacks or has in older
    /// versions.
    pub fn handle_gossip_pull(&self, pull: GossipPull) -> (r: GossipPush)
        ensures
            lists(r@.entries, news_for(self@.peers, pull@.digests)),
    {
        let news = |p: &PeerEntry| -> (b: bool)
            ensures
                b == p@.is_news_to(last_known(pull@.digests, p@.agent_id)),
            {
                match find_digest(&pull.digests, &p.agent_id) {
                    None => true,
                    Some(t) => p.last_seen.is_after(&t),
                }
            };
        let entries = self.peers.select(
            news,
            Ghost(|p: PeerEntryView| p.is_news_to(last_known(pull@.digests, p.agent_id))),
        );
        GossipPush { entries }
    }

    /// Takes over the entries that are new or newer than what is registered.
    pub fn merge_gossip_push(&mut self, push: GossipPush)
        ensures
            final(self)@ == old(self)@.heard_all(push@.entries),
            final(self)@.mesh_id == old(self)@.mesh_id,
            final(self).channel() == old(self).channel(),
            old(self)@.wf() ==> final(self)@.wf(),
    {
        let ghost start = self@;
        let ghost all = views(push.entries@);
        let mut i: usize = 0;
        assert(all.take(0) =~= Seq::<PeerEntryView>::empty());
        while i < push.entries.len()
            invariant
                i <= push.entries@.len(),
                all == views(push.entries@),
                self@ == start.heard_all(all.take(i as int)),
                self@.mesh_id == start.mesh_id,
                self@.channel == start.channel,
                start.wf() ==> self@.wf(),
            decreases push.entries@.len() - i,
        {
            let entry = push.entries[i].clone();
            proof {
                assert(all.take(i + 1).drop_last() =~= all.take(i as int));
                assert(all.take(i + 1).last() == entry@);
            }
            let newer: bool = match self.peers.get(entry.agent_id.as_str()) {
                None => true,
                Some(existing) => entry.last_seen.is_after(&existing.last_seen),
            };
            if newer {
                let agent_id = entry.agent_id.clone();
                let mesh_id = entry.mesh_id.clone();
                self.peers.insert(entry.agent_id.clone(), entry);
                let _ = self.bus.emit(Event::PeerAnnounced { agent_id, mesh_id });
            }
            i = i + 1;
        }
        assert(all.take(i as int) =~= all);
    }
}

/// What hearing of entries does to the registered peers: none is lost, none gets
/// older, each heard entry is registered at least as new, and nothing is made up.
pub proof fn hearing_only_brings_news(registry: MeshRegistryView, entries: Seq<PeerEntryView>)
    ensures
        forall|k: Seq<char>| #[trigger]
            registry.peers.contains_key(k) ==> registry.heard_all(entries).peers.contains_key(k)
                && !registry.peers[k].last_seen.after(
                registry.heard_all(entries).peers[k].last_seen,
            ),
        forall|i: int|
            0 <= i < entries.len() ==> registry.heard_all(entries).peers.contains_key(
                (#[trigger] entries[i]).agent_id,
            ) && !entries[i].last_seen.after(
                registry.heard_all(entries).peers[entries[i].agent_id].last_seen,
            ),
        forall|k: Seq<char>| #[trigger]
            registry.heard_all(entries).peers.contains_key(k) ==> (registry.peers.contains_key(k)
                && registry.heard_all(entries).peers[k] == registry.peers[k]) || (entries.contains(
                registry.heard_all(entries).peers[k],
            ) && registry.heard_all(entries).peers[k].agent_id == k),
    decreases entries.len(),
{
    if entries.len() > 0 {
        let shorter = entries.drop_last();
        let e = entries.last();
        hearing_only_brings_news(registry, shorter);
        let mid = registry.heard_all(shorter);
        let after = mid.heard(e);
        assert(entries[entries.len() - 1] == e);
        assert forall|x: PeerEntryView| shorter.contains(x) implies entries.contains(x) by {
            assert(entries[shorter.index_of(x)] == x);
        }
        assert forall|i: int| 0 <= i < entries.len() implies after.peers.contains_key(
            (#[trigger] entries[i]).agent_id,
        ) && !entries[i].last_seen.after(after.peers[entries[i].agent_id].last_seen) by {
            if i < shorter.len() {
                assert(shorter[i] == entries[i]);
                assert(mid.peers.contains_key(entries[i].agent_id));
            }
        }
        assert forall|k: Seq<char>| #[trigger] registry.peers.contains_key(k) implies after.peers.contains_key(
            k,
        ) && !registry.peers[k].last_seen.after(after.peers[k].last_seen) by {
            assert(mid.peers.contains_key(k));
        }
        assert forall|k: Seq<char>| #[trigger] after.peers.contains_key(k) implies (
        registry.peers.contains_key(k) && after.peers[k] == registry.peers[k]) || (
        entries.contains(after.peers[k]) && after.peers[k].agent_id == k) by {
            if k != e.agent_id || !mid.accepts(e) {
                assert(mid.peers.contains_key(k));
            }
        }
    }
}

proof fn lemma_last_known(
    digests: Seq<GossipDigestView>,
    peers: Map<Seq<char>, PeerEntryView>,
    id: Seq<char>,
)
    requires
        forall|i: int|
            0 <= i < digests.len() ==> peers.contains_key((#[trigger] digests[i]).agent_id)
                && digests[i].last_seen == peers[digests[i].agent_id].last_seen,
    ensures
        match last_known(digests, id) {
            Some(t) => peers.contains_key(id) && peers[id].last_seen == t,
            None => forall|i: int| 0 <= i < digests.len() ==> (#[trigger] digests[i]).agent_id != id,
        },
    decreases digests.len(),
{
    if digests.len() > 0 {
        let shorter = digests.drop_last();
        lemma_last_known(shorter, peers, id);
        let last = digests[digests.len() - 1];
        assert forall|i: int| 0 <= i < digests.len() && last_known(
            digests,
            id,
        ) is None implies (#[trigger] digests[i]).agent_id != id by {
            if i < shorter.len() {
                assert(shorter[i] == digests[i]);
            }
        }
    }
}

/// One round of gossip: after `b` sent the digest of its peers to `a` and heard
/// the answer, `b` knows every peer that `a` knows at least as recently, it lost
/// no peer and none got older, and every entry it has is its own or one of `a`.
pub proof fn a_gossip_round_catches_up(
    a: MeshRegistryView,
    b: MeshRegistryView,
    digests: Seq<GossipDigestView>,
    push: Seq<PeerEntryView>,
)
    requires
        a.wf(),
        b.wf(),
        lists(digests, b.peers.map_values(|p: PeerEntryView| p.digest())),
        lists(push, news_for(a.peers, digests)),
    ensures
        forall|k: Seq<char>| #[trigger]
            a.peers.contains_key(k) ==> b.heard_all(push).peers.contains_key(k)
                && !a.peers[k].last_seen.after(b.heard_all(push).peers[k].last_seen),
        forall|k: Seq<char>| #[trigger]
            b.peers.contains_key(k) ==> b.heard_all(push).peers.contains_key(k)
                && !b.peers[k].last_seen.after(b.heard_all(push).peers[k].last_seen),
        forall|k: Seq<char>| #[trigger]
            b.heard_all(push).peers.contains_key(k) ==> (b.peers.contains_key(k) && b.heard_all(
                push,
            ).peers[k] == b.peers[k]) || (a.peers.contains_key(k) && b.heard_all(push).peers[k]
                == a.peers[k]),
{
    let f = |p: PeerEntryView| p.digest();
    let known = b.peers.map_values(f);
    let news = news_for(a.peers, digests);
    let dk = choose|keys: Seq<Seq<char>>| #[trigger] lists_by(digests, keys, known);
    let pk = choose|keys: Seq<Seq<char>>| #[trigger] lists_by(push, keys, news);
    hearing_only_brings_news(b, push);
    let after = b.heard_all(push);
    assert forall|i: int| 0 <= i < digests.len() implies b.peers.contains_key(
        (#[trigger] digests[i]).agent_id,
    ) && digests[i].last_seen == b.peers[digests[i].agent_id].last_seen by {
        assert(known.contains_key(dk[i]));
        assert(b.peers.contains_key(dk[i]));
    }
    assert forall|k: Seq<char>| #[trigger] a.peers.contains_key(k) implies after.peers.contains_key(
        k,
    ) && !a.peers[k].last_seen.after(after.peers[k].last_seen) by {
        lemma_last_known(digests, b.peers, k);
        if a.peers[k].is_news_to(last_known(digests, k)) {
            assert(news.contains_key(k));
            let i = pk.index_of(k);
            assert(pk[i] == k);
            assert(push[i] == a.peers[k]);
            assert(push[i].agent_id == k);
        } else {
            assert(b.peers.contains_key(k));
        }
    }
    assert forall|k: Seq<char>| #[trigger] after.peers.contains_key(k) implies (
    b.peers.contains_key(k) && after.peers[k] == b.peers[k]) || (a.peers.contains_key(k)
        && after.peers[k] == a.peers[k]) by {
        if !(b.peers.contains_key(k) && after.peers[k] == b.peers[k]) {
            let i = push.index_of(after.peers[k]);
            assert(push[i] == after.peers[k]);
            assert(news.contains_key(pk[i]));
            assert(push[i] == a.peers[pk[i]]);
        }
    }
}

proof fn lemma_hearing_nothing_new(
    registry: MeshRegistryView,
    entries: Seq<PeerEntryView>,
)
    requires
        forall|i: int| 0 <= i < entries.len() ==> !registry.accepts(#[trigger] entries[i]),
    ensures
        registry.heard_all(entries) == registry,
    decreases entries.len(),
{
    if entries.len() > 0 {
        let shorter = entries.drop_last();
        assert forall|i: int| 0 <= i < shorter.len() implies !registry.accepts(
            #[trigger] shorter[i],
        ) by {
            assert(shorter[i] == entries[i]);
        }
        lemma_hearing_nothing_new(registry, shorter);
        assert(!registry.accepts(entries[entries.len() - 1]));
    }
}

/// Hearing of the same entries again changes nothing and emits nothing.
pub proof fn hearing_again_changes_nothing(registry: MeshRegistryView, entries: Seq<PeerEntryView>)
    ensures
        registry.heard_all(entries).heard_all(entries) == registry.heard_all(entries),
{
    hearing_only_brings_news(registry, entries);
    lemma_hearing_nothing_new(registry.heard_all(entries), entries);
}

/// A round of gossip in each direction leaves both registries with the same peers,
/// each seen at the same time.
pub proof fn two_gossip_rounds_converge(
    a: MeshRegistryView,
    b: MeshRegistryView,
    b_digests: Seq<GossipDigestView>,
    a_push: Seq<PeerEntryView>,
    a_digests: Seq<GossipDigestView>,
    b_push: Seq<PeerEntryView>,
)
    requires
        a.wf(),
        b.wf(),
        lists(b_digests, b.peers.map_values(|p: PeerEntryView| p.digest())),
        lists(a_push, news_for(a.peers, b_digests)),
        lists(a_digests, a.peers.map_values(|p: PeerEntryView| p.digest())),
        lists(b_push, news_for(b.heard_all(a_push).peers, a_digests)),
    ensures
        a.heard_all(b_push).peers.dom() == b.heard_all(a_push).peers.dom(),
        forall|k: Seq<char>| #[trigger]
            a.heard_all(b_push).peers.contains_key(k) ==> a.heard_all(b_push).peers[k].last_seen
                == b.heard_all(a_push).peers[k].last_seen,
{
    let b1 = b.heard_all(a_push);
    let a1 = a.heard_all(b_push);
    a_gossip_round_catches_up(a, b, b_digests, a_push);
    assert(b1.wf()) by {
        assert forall|k: Seq<char>| #[trigger] b1.peers.contains_key(k) implies b1.peers[k].agent_id
            == k by {}
    }
    a_gossip_round_catches_up(b1, a, a_digests, b_push);
    assert forall|k: Seq<char>| a1.peers.contains_key(k) <==> b1.peers.contains_key(k) by {}
    assert(a1.peers.dom() =~= b1.peers.dom());
    assert forall|k: Seq<char>| #[trigger] a1.peers.contains_key(k) implies a1.peers[k].last_seen
        == b1.peers[k].last_seen by {
        assert(b1.peers.contains_key(k));
        time_order_is_total(a1.peers[k].last_seen, b1.peers[k].last_seen, b1.peers[k].last_seen);
    }
}

/// A peer that announced itself is found as announced, one that departed is not
/// found, and the other peers stay as they are.
pub proof fn announcing_and_departing_concern_one_peer(
    registry: MeshRegistryView,
    msg: AnnounceMessageView,
    now: Timestamp,
)
    ensures
        registry.announced(msg, now).peers.contains_key(msg.agent_id),
        registry.announced(msg, now).peers[msg.agent_id] == msg.entry(now),
        !registry.departed(msg.agent_id).peers.contains_key(msg.agent_id),
        registry.announced(msg, now).departed(msg.agent_id).peers == registry.peers.remove(
            msg.agent_id,
        ),
        forall|k: Seq<char>|
            k != msg.agent_id ==> (#[trigger] registry.peers.contains_key(k)
                <==> registry.announced(msg, now).peers.contains_key(k)) && (
            registry.peers.contains_key(k) <==> registry.departed(msg.agent_id).peers.contains_key(
                k,
            )),
        forall|k: Seq<char>|
            k != msg.agent_id && #[trigger] registry.peers.contains_key(k)
                ==> registry.announced(msg, now).peers[k] == registry.peers[k]
                && registry.departed(msg.agent_id).peers[k] == registry.peers[k],
{
    assert(registry.announced(msg, now).departed(msg.agent_id).peers =~= registry.peers.remove(
        msg.agent_id,
    ));
}

/// Who is found by a search has what each given filter asks for: the status, the
/// capability among those it announced, and the mesh. Who has all that is found.
pub proof fn a_search_finds_who_passes_every_filter(
    registry: MeshRegistryView,
    query: PeerQueryView,
    found: Seq<PeerEntryView>,
)
    requires
        lists(found, only(registry.peers, |p: PeerEntryView| query.admits(p))),
    ensures
        forall|i: int|
            0 <= i < found.len() ==> {
                &&& query.status is Some ==> (#[trigger] found[i]).status == query.status->0
                &&& query.capability is Some ==> found[i].capabilities.contains(
                    query.capability->0,
                )
                &&& query.mesh_id is Some ==> found[i].mesh_id == query.mesh_id->0
                &&& is_value(registry.peers, found[i])
            },
        forall|k: Seq<char>| #[trigger]
            registry.peers.contains_key(k) && (query.status is None || registry.peers[k].status
                == query.status->0) && (query.capability is None
                || registry.peers[k].capabilities.contains(query.capability->0)) && (
            query.mesh_id is None || registry.peers[k].mesh_id == query.mesh_id->0)
                ==> found.contains(registry.peers[k]),
{
    let keep = |p: PeerEntryView| query.admits(p);
    a_selection_holds_what_is_kept(found, registry.peers, keep);
    assert forall|i: int| 0 <= i < found.len() implies {
        &&& query.status is Some ==> (#[trigger] found[i]).status == query.status->0
        &&& query.capability is Some ==> found[i].capabilities.contains(query.capability->0)
        &&& query.mesh_id is Some ==> found[i].mesh_id == query.mesh_id->0
        &&& is_value(registry.peers, found[i])
    } by {
        assert(keep(found[i]));
    }
    assert forall|k: Seq<char>| #[trigger]
        registry.peers.contains_key(k) && (query.status is None || registry.peers[k].status
            == query.status->0) && (query.capability is None
            || registry.peers[k].capabilities.contains(query.capability->0)) && (query.mesh_id
            is None || registry.peers[k].mesh_id == query.mesh_id->0) implies found.contains(
        registry.peers[k],
    ) by {
        assert(keep(registry.peers[k]));
    }
}

/// A further filter never finds more, and a search without filters finds every peer.
pub proof fn filters_only_narrow_a_search(
    p: PeerEntryView,
    status: Option<PeerStatus>,
    capability: Option<Seq<char>>,
    mesh_id: Option<Seq<char>>,
)
    ensures
        ({
            let full = PeerQueryView { status, capability, mesh_id };
            let by_status = PeerQueryView { status, capability: None, mesh_id: None };
            let by_capability = PeerQueryView { status: None, capability, mesh_id: None };
            let by_mesh = PeerQueryView { status: None, capability: None, mesh_id };
            let none = PeerQueryView { status: None, capability: None, mesh_id: None };
            &&& full.admits(p) <==> by_status.admits(p) && by_capability.admits(p)
                && by_mesh.admits(p)
            &&& none.admits(p)
        }),
{
}

/// A peer is registered as it announced itself, seen at the time of the announcement;
/// two events say so.
pub proof fn a_peer_is_registered_as_announced(
    registry: MeshRegistryView,
    msg: AnnounceMessageView,
    now: Timestamp,
)
    ensures
        ({
            let after = registry.announced(msg, now);
            let p = after.peers[msg.agent_id];
            &&& after.peers.dom() == registry.peers.dom().insert(msg.agent_id)
            &&& p.agent_id == msg.agent_id
            &&& p.mesh_id == msg.mesh_id
            &&& p.display_name == msg.display_name
            &&& p.status == msg.status
            &&& p.capabilities == msg.capabilities
            &&& p.last_seen == now
            &&& after.log == registry.log.push(
                EventView::PeerAnnounced { agent_id: msg.agent_id, mesh_id: msg.mesh_id },
            ).push(
                EventView::PatchReady {
                    mesh_id: registry.mesh_id,
                    description: "peer "@ + msg.agent_id + " announced"@,
                },
            )
            &&& after.mesh_id == registry.mesh_id
            &&& after.channel == registry.channel
        }),
{
}

/// The removal of a registered peer is announced by two events; that of an unknown one
/// changes nothing.
pub proof fn a_departure_is_announced_once(registry: MeshRegistryView, agent_id: Seq<char>)
    ensures
        registry.peers.contains_key(agent_id) ==> registry.departed(agent_id).log
            == registry.log.push(
            EventView::PeerDeparted { agent_id, mesh_id: registry.mesh_id },
        ).push(
            EventView::PatchReady {
                mesh_id: registry.mesh_id,
                description: "peer "@ + agent_id + " departed"@,
            },
        ),
        !registry.peers.contains_key(agent_id) ==> registry.departed(agent_id) == registry,
        registry.departed(agent_id).departed(agent_id) == registry.departed(agent_id),
        registry.departed(agent_id).channel == registry.channel,
        registry.departed(agent_id).mesh_id == registry.mesh_id,
{
}

/// An entry that is heard of is taken over, and announced, if its peer is unknown or was
/// seen strictly earlier; otherwise nothing changes.
pub proof fn only_strictly_newer_entries_are_taken_over(
    registry: MeshRegistryView,
    e: PeerEntryView,
)
    ensures
        registry.peers.contains_key(e.agent_id) && !e.last_seen.after(
            registry.peers[e.agent_id].last_seen,
        ) ==> registry.heard(e) == registry,
        !registry.peers.contains_key(e.agent_id) || e.last_seen.after(
            registry.peers[e.agent_id].last_seen,
        ) ==> registry.heard(e).peers == registry.peers.insert(e.agent_id, e) && registry.heard(
            e,
        ).log == registry.log.push(
            EventView::PeerAnnounced { agent_id: e.agent_id, mesh_id: e.mesh_id },
        ),
        registry.heard(e).mesh_id == registry.mesh_id,
        registry.heard(e).channel == registry.channel,
{
}

/// The last of the digests of a peer, at position `i`, says that it was seen at or after
/// `seen`.
pub open spec fn covered_at(
    digests: Seq<GossipDigestView>,
    agent_id: Seq<char>,
    seen: Timestamp,
    i: int,
) -> bool {
    &&& 0 <= i < digests.len()
    &&& digests[i].agent_id == agent_id
    &&& forall|j: int| i < j < digests.len() ==> (#[trigger] digests[j]).agent_id != agent_id
    &&& !seen.after(digests[i].last_seen)
}

proof fn lemma_last_known_position(digests: Seq<GossipDigestView>, agent_id: Seq<char>)
    ensures
        match last_known(digests, agent_id) {
            Some(t) => exists|i: int|
                0 <= i < digests.len() && (#[trigger] digests[i]).agent_id == agent_id
                    && digests[i].last_seen == t && forall|j: int|
                    i < j < digests.len() ==> (#[trigger] digests[j]).agent_id != agent_id,
            None => forall|i: int|
                0 <= i < digests.len() ==> (#[trigger] digests[i]).agent_id != agent_id,
        },
    decreases digests.len(),
{
    if digests.len() > 0 {
        let shorter = digests.drop_last();
        lemma_last_known_position(shorter, agent_id);
        let n = digests.len() - 1;
        if digests[n].agent_id == agent_id {
            assert(digests[n].last_seen == digests.last().last_seen);
        } else {
            match last_known(shorter, agent_id) {
                Some(t) => {
                    let i = choose|i: int|
                        0 <= i < shorter.len() && (#[trigger] shorter[i]).agent_id == agent_id
                            && shorter[i].last_seen == t && forall|j: int|
                            i < j < shorter.len() ==> (#[trigger] shorter[j]).agent_id != agent_id;
                    assert(digests[i] == shorter[i]);
                    assert forall|j: int| i < j < digests.len() implies (
                    #[trigger] digests[j]).agent_id != agent_id by {
                        if j < n {
                            assert(shorter[j] == digests[j]);
                        }
                    }
                },
                None => {
                    assert forall|j: int| 0 <= j < digests.len() implies (
                    #[trigger] digests[j]).agent_id != agent_id by {
                        if j < n {
                            assert(shorter[j] == digests[j]);
                        }
                    }
                },
            }
        }
    }
}

/// A pull is answered with exactly the peers that its digests do not cover: a peer is
/// left out if and only if its last digest is as new as what is registered.
pub proof fn a_pull_is_answered_with_what_it_lacks(
    registry: MeshRegistryView,
    digests: Seq<GossipDigestView>,
    push: Seq<PeerEntryView>,
    k: Seq<char>,
)
    requires
        registry.wf(),
        registry.peers.contains_key(k),
        lists(push, news_for(registry.peers, digests)),
    ensures
        push.contains(registry.peers[k]) <==> !exists|i: int|
            covered_at(digests, k, registry.peers[k].last_seen, i),
        forall|i: int| 0 <= i < push.len() ==> is_value(registry.peers, #[trigger] push[i]),
{
    let keep = |p: PeerEntryView| p.is_news_to(last_known(digests, p.agent_id));
    a_selection_holds_what_is_kept(push, registry.peers, keep);
    lemma_last_known_position(digests, k);
    let p = registry.peers[k];
    if push.contains(p) {
        assert(keep(push[push.index_of(p)]));
    }
    match last_known(digests, k) {
        Some(t) => {
            let i = choose|i: int|
                0 <= i < digests.len() && (#[trigger] digests[i]).agent_id == k
                    && digests[i].last_seen == t && forall|j: int|
                    i < j < digests.len() ==> (#[trigger] digests[j]).agent_id != k;
            if !p.last_seen.after(t) {
                assert(covered_at(digests, k, p.last_seen, i));
            }
            assert forall|j: int| covered_at(digests, k, p.last_seen, j) implies j == i by {
                assert(digests[j].agent_id == k);
                assert(digests[i].agent_id == k);
            }
        },
        None => {},
    }
}

/// The digest of a registry says of every peer when it was last seen, and of no one
/// else.
pub proof fn a_digest_tells_when_each_peer_was_seen(
    registry: MeshRegistryView,
    digests: Seq<GossipDigestView>,
    k: Seq<char>,
)
    requires
        registry.wf(),
        lists(digests, registry.peers.map_values(|p: PeerEntryView| p.digest())),
    ensures
        registry.peers.contains_key(k) ==> digests.contains(
            GossipDigestView { agent_id: k, last_seen: registry.peers[k].last_seen },
        ),
        forall|i: int|
            0 <= i < digests.len() ==> registry.peers.contains_key((#[trigger] digests[i]).agent_id)
                && digests[i].last_seen == registry.peers[digests[i].agent_id].last_seen,
        digests.len() == registry.peers.dom().len(),
{
    let all = registry.peers.map_values(|p: PeerEntryView| p.digest());
    a_listing_holds_every_value(digests, all);
    assert(all.dom() =~= registry.peers.dom());
    if registry.peers.contains_key(k) {
        assert(all.contains_key(k));
        assert(all[k] == GossipDigestView { agent_id: k, last_seen: registry.peers[k].last_seen });
    }
    assert forall|i: int| 0 <= i < digests.len() implies registry.peers.contains_key(
        (#[trigger] digests[i]).agent_id,
    ) && digests[i].last_seen == registry.peers[digests[i].agent_id].last_seen by {
        assert(is_value(all, digests[i]));
    }
}

/// Entries are heard of one after the other, in their order.
pub proof fn entries_are_heard_in_order(
    registry: MeshRegistryView,
    entries: Seq<PeerEntryView>,
    next: PeerEntryView,
)
    ensures
        registry.heard_all(Seq::empty()) == registry,
        registry.heard_all(entries.push(next)) == registry.heard_all(entries).heard(next),
{
    assert(entries.push(next).drop_last() =~= entries);
}

} // verus!
