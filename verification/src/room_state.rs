//! Replicated key-value state of rooms, ordered by vector clocks.
use crate::events::{EventBus, EventView};
use crate::table::{enumerates, lists, lists_by, only, result_view, views, Table};
use crate::text::{
    ahead_at, cat2, cat4, cat5, cat6, decimal_usize, is_after, numeral, text_after,
    text_order_is_total, the_first_difference_decides,
};
use crate::time::{clock_reading, time_order_is_total, Timestamp};
use vstd::prelude::*;

verus! {

/// A vector clock: logical timestamps by agent id. Each peer increments its own
/// entry before it broadcasts an update.
#[derive(Debug)]
pub struct VectorClock {
    pub clocks: Table<u64>,
}

/// The result of comparing two vector clocks.
#[derive(Clone, Copy, Debug, PartialEq, Eq, Structural)]
pub enum ClockOrdering {
    /// The first happened before the second: no entry is larger, one is smaller.
    Before,
    /// The first happened after the second.
    After,
    /// Neither dominates: the updates are concurrent.
    Concurrent,
    /// The clocks agree on every agent.
    Equal,
}

/// The logical time of `agent` in `c`, zero where it has no entry.
pub open spec fn clock_at(c: Map<Seq<char>, u64>, agent: Seq<char>) -> u64 {
    if c.contains_key(agent) {
        c[agent]
    } else {
        0
    }
}

/// No agent's time is larger in `a` than in `b`.
pub open spec fn clock_leq(a: Map<Seq<char>, u64>, b: Map<Seq<char>, u64>) -> bool {
    forall|agent: Seq<char>| #[trigger] clock_at(a, agent) <= clock_at(b, agent)
}

/// How `a` stands to `b` in causal order.
pub open spec fn clock_order(a: Map<Seq<char>, u64>, b: Map<Seq<char>, u64>) -> ClockOrdering {
    if clock_leq(a, b) && clock_leq(b, a) {
        ClockOrdering::Equal
    } else if clock_leq(a, b) {
        ClockOrdering::Before
    } else if clock_leq(b, a) {
        ClockOrdering::After
    } else {
        ClockOrdering::Concurrent
    }
}

/// The larger of two times.
pub open spec fn later(x: u64, y: u64) -> u64 {
    if x >= y {
        x
    } else {
        y
    }
}

/// The larger time of each agent that `a` or `b` knows.
pub open spec fn clock_merged(a: Map<Seq<char>, u64>, b: Map<Seq<char>, u64>) -> Map<
    Seq<char>,
    u64,
> {
    Map::new(
        |agent: Seq<char>| a.contains_key(agent) || b.contains_key(agent),
        |agent: Seq<char>| later(clock_at(a, agent), clock_at(b, agent)),
    )
}

/// `c` with the time of `agent` moved on by one.
pub open spec fn clock_ticked(c: Map<Seq<char>, u64>, agent: Seq<char>) -> Map<Seq<char>, u64> {
    c.insert(agent, (clock_at(c, agent) + 1) as u64)
}

impl View for VectorClock {
    type V = Map<Seq<char>, u64>;

    open spec fn view(&self) -> Map<Seq<char>, u64> {
        self.clocks@
    }
}

impl Clone for VectorClock {
    fn clone(&self) -> (r: Self)
        ensures
            r@ == self@,
    {
        VectorClock { clocks: self.clocks.clone() }
    }
}

impl Default for VectorClock {
    fn default() -> (r: Self)
        ensures
            r@ == Map::<Seq<char>, u64>::empty(),
    {
        VectorClock { clocks: Table::new() }
    }
}

impl PartialEq for VectorClock {
    fn eq(&self, other: &Self) -> (r: bool) {
        let r = self.within(other) && other.within(self);
        proof {
            if r {
                assert forall|k: Seq<char>| self@.contains_key(k) <==> other@.contains_key(k) by {
                    assert(self@.dom().contains(k) ==> other@.dom().contains(k));
                    assert(other@.dom().contains(k) ==> self@.dom().contains(k));
                }
                assert(self@.dom() =~= other@.dom());
                assert(self@ =~= other@);
            }
        }
        r
    }
}

impl vstd::std_specs::cmp::PartialEqSpecImpl for VectorClock {
    open spec fn obeys_eq_spec() -> bool {
        true
    }

    open spec fn eq_spec(&self, other: &Self) -> bool {
        self@ == other@
    }
}

impl VectorClock {
    /// Whether every entry of this clock is an entry of `other`.
    fn within(&self, other: &VectorClock) -> (r: bool)
        ensures
            r == self@.submap_of(other@),
    {
        let n: usize = self.clocks.len();
        let mut i: usize = 0;
        let ghost keys = self.clocks.keys();
        while i < n
            invariant
                i <= n,
                n == keys.len(),
                keys == self.clocks.keys(),
                enumerates(keys, self@),
                forall|j: int|
                    0 <= j < i ==> other@.contains_key(#[trigger] keys[j]) && other@[keys[j]]
                        == self@[keys[j]],
            decreases n - i,
        {
            let ghost agent = keys[i as int];
            match other.clocks.get(self.clocks.key_at(i).as_str()) {
                Some(t) => {
                    if *t != *self.clocks.value_at(i) {
                        assert(self@.contains_key(agent) && self@[agent] != other@[agent]);
                        return false;
                    }
                },
                None => {
                    assert(self@.contains_key(agent) && !other@.contains_key(agent));
                    return false;
                },
            }
            i = i + 1;
        }
        proof {
            assert forall|k: Seq<char>| #[trigger] self@.contains_key(k) implies other@.contains_key(
                k,
            ) && other@[k] == self@[k] by {
                let j = keys.index_of(k);
                assert(keys[j] == k);
            }
        }
        true
    }

    /// Increments the time of `agent_id` and returns the new value.
    pub fn tick(&mut self, agent_id: &str) -> (r: u64)
        requires
            clock_at(old(self)@, agent_id@) < u64::MAX,
        ensures
            final(self)@ == clock_ticked(old(self)@, agent_id@),
            r == clock_at(final(self)@, agent_id@),
    {
        let next: u64 = self.get(agent_id) + 1;
        self.clocks.insert(agent_id.to_owned(), next);
        next
    }

    /// The time of an agent.
    pub fn get(&self, agent_id: &str) -> (r: u64)
        ensures
            r == clock_at(self@, agent_id@),
    {
        match self.clocks.get(agent_id) {
            Some(t) => *t,
            None => 0,
        }
    }

    /// Takes the larger time of each agent.
    pub fn merge(&mut self, other: &VectorClock)
        ensures
            final(self)@ == clock_merged(old(self)@, other@),
    {
        let ghost start = self@;
        let n: usize = other.clocks.len();
        let mut i: usize = 0;
        let ghost keys = other.clocks.keys();
        while i < n
            invariant
                i <= n,
                n == keys.len(),
                keys == other.clocks.keys(),
                enumerates(keys, other@),
                forall|k: Seq<char>| #[trigger]
                    self@.contains_key(k) <==> start.contains_key(k) || keys.take(
                        i as int,
                    ).contains(k),
                forall|k: Seq<char>| #[trigger]
                    self@.contains_key(k) ==> self@[k] == if keys.take(i as int).contains(k) {
                        later(clock_at(start, k), clock_at(other@, k))
                    } else {
                        start[k]
                    },
            decreases n - i,
        {
            let agent_id: &String = other.clocks.key_at(i);
            let theirs: u64 = *other.clocks.value_at(i);
            let ours: u64 = self.get(agent_id.as_str());
            proof {
                let shorter = keys.take(i as int);
                let longer = keys.take(i + 1);
                assert forall|k: Seq<char>| longer.contains(k) <==> shorter.contains(k) || k
                    == keys[i as int] by {
                    if shorter.contains(k) {
                        assert(longer[shorter.index_of(k)] == k);
                    }
                    if k == keys[i as int] {
                        assert(longer[i as int] == k);
                    }
                    if longer.contains(k) {
                        let w = longer.index_of(k);
                        if w < i {
                            assert(shorter[w] == k);
                        }
                    }
                }
                assert(!shorter.contains(keys[i as int]));
            }
            self.clocks.insert(
                agent_id.clone(),
                if ours >= theirs {
                    ours
                } else {
                    theirs
                },
            );
            i = i + 1;
        }
        proof {
            assert(keys.take(n as int) =~= keys);
            let goal = clock_merged(start, other@);
            assert forall|k: Seq<char>| self@.contains_key(k) <==> goal.contains_key(k) by {
                if keys.contains(k) {
                    assert(other@.contains_key(keys[keys.index_of(k)]));
                }
            }
            assert(self@.dom() =~= goal.dom());
            assert(self@ =~= goal);
        }
    }

    /// Whether no time is larger here than in `other`.
    fn dominated_by(&self, other: &VectorClock) -> (r: bool)
        ensures
            r == clock_leq(self@, other@),
    {
        let n: usize = self.clocks.len();
        let mut i: usize = 0;
        let ghost keys = self.clocks.keys();
        while i < n
            invariant
                i <= n,
                n == keys.len(),
                keys == self.clocks.keys(),
                enumerates(keys, self@),
                forall|j: int|
                    0 <= j < i ==> clock_at(self@, #[trigger] keys[j]) <= clock_at(
                        other@,
                        keys[j],
                    ),
            decreases n - i,
        {
            let agent_id: &String = self.clocks.key_at(i);
            if *self.clocks.value_at(i) > other.get(agent_id.as_str()) {
                assert(clock_at(self@, keys[i as int]) > clock_at(other@, keys[i as int]));
                return false;
            }
            i = i + 1;
        }
        proof {
            assert forall|agent: Seq<char>| #[trigger] clock_at(self@, agent) <= clock_at(
                other@,
                agent,
            ) by {
                if self@.contains_key(agent) {
                    let j = keys.index_of(agent);
                    assert(keys[j] == agent);
                }
            }
        }
        true
    }

    /// How this clock stands to `other` in causal order.
    pub fn partial_cmp_clock(&self, other: &VectorClock) -> (r: ClockOrdering)
        ensures
            r == clock_order(self@, other@),
    {
        match (self.dominated_by(other), other.dominated_by(self)) {
            (true, true) => ClockOrdering::Equal,
            (true, false) => ClockOrdering::Before,
            (false, true) => ClockOrdering::After,
            (false, false) => ClockOrdering::Concurrent,
        }
    }
}

/// Merging clocks is commutative, associative and idempotent.
pub proof fn merge_is_a_join(
    a: Map<Seq<char>, u64>,
    b: Map<Seq<char>, u64>,
    c: Map<Seq<char>, u64>,
)
    ensures
        clock_merged(a, b) == clock_merged(b, a),
        clock_merged(clock_merged(a, b), c) == clock_merged(a, clock_merged(b, c)),
        clock_merged(a, a) == a,
{
    assert(clock_merged(a, b) =~= clock_merged(b, a));
    assert(clock_merged(clock_merged(a, b), c) =~= clock_merged(a, clock_merged(b, c)));
    assert(clock_merged(a, a) =~= a);
}

/// The merge of two clocks is the least clock that dominates both.
pub proof fn merge_is_least_upper_bound(
    a: Map<Seq<char>, u64>,
    b: Map<Seq<char>, u64>,
    c: Map<Seq<char>, u64>,
)
    ensures
        clock_leq(a, clock_merged(a, b)),
        clock_leq(b, clock_merged(a, b)),
        clock_leq(a, c) && clock_leq(b, c) ==> clock_leq(clock_merged(a, b), c),
{
    let m = clock_merged(a, b);
    assert forall|agent: Seq<char>| #[trigger] clock_at(m, agent) == later(
        clock_at(a, agent),
        clock_at(b, agent),
    ) by {}
    assert forall|agent: Seq<char>| #[trigger] clock_at(a, agent) <= clock_at(m, agent) by {}
    assert forall|agent: Seq<char>| #[trigger] clock_at(b, agent) <= clock_at(m, agent) by {}
    if clock_leq(a, c) && clock_leq(b, c) {
        assert forall|agent: Seq<char>| #[trigger] clock_at(m, agent) <= clock_at(c, agent) by {
            assert(clock_at(a, agent) <= clock_at(c, agent));
            assert(clock_at(b, agent) <= clock_at(c, agent));
        }
    }
}

/// A clock that ticked comes after what it was.
pub proof fn tick_is_after(c: Map<Seq<char>, u64>, agent: Seq<char>)
    requires
        clock_at(c, agent) < u64::MAX,
    ensures
        clock_order(clock_ticked(c, agent), c) == ClockOrdering::After,
        clock_at(clock_ticked(c, agent), agent) == clock_at(c, agent) + 1,
{
    let t = clock_ticked(c, agent);
    assert forall|k: Seq<char>| #[trigger] clock_at(c, k) <= clock_at(t, k) by {}
    assert(clock_at(t, agent) > clock_at(c, agent));
}

/// Exchanging two clocks turns `Before` into `After` and leaves `Equal` and
/// `Concurrent`; `Equal` means that every agent has the same time in both.
pub proof fn order_flips(a: Map<Seq<char>, u64>, b: Map<Seq<char>, u64>)
    ensures
        clock_order(a, b) == ClockOrdering::Before <==> clock_order(b, a) == ClockOrdering::After,
        clock_order(a, b) == ClockOrdering::Concurrent <==> clock_order(b, a)
            == ClockOrdering::Concurrent,
        clock_order(a, b) == ClockOrdering::Equal <==> clock_order(b, a) == ClockOrdering::Equal,
        clock_order(a, b) == ClockOrdering::Equal <==> forall|k: Seq<char>| #[trigger]
            clock_at(a, k) == clock_at(b, k),
{
    if clock_leq(a, b) && clock_leq(b, a) {
        assert forall|k: Seq<char>| #[trigger] clock_at(a, k) == clock_at(b, k) by {
            assert(clock_at(b, k) <= clock_at(a, k));
        }
    }
    if forall|k: Seq<char>| #[trigger] clock_at(a, k) == clock_at(b, k) {
        assert forall|k: Seq<char>| #[trigger] clock_at(b, k) <= clock_at(a, k) by {
            assert(clock_at(a, k) == clock_at(b, k));
        }
    }
}

/// "Happened before" is transitive.
pub proof fn order_is_transitive(
    a: Map<Seq<char>, u64>,
    b: Map<Seq<char>, u64>,
    c: Map<Seq<char>, u64>,
)
    requires
        clock_order(a, b) == ClockOrdering::Before,
        clock_order(b, c) == ClockOrdering::Before,
    ensures
        clock_order(a, c) == ClockOrdering::Before,
{
    assert forall|k: Seq<char>| #[trigger] clock_at(a, k) <= clock_at(c, k) by {
        assert(clock_at(b, k) <= clock_at(c, k));
    }
    let k = choose|k: Seq<char>| !(#[trigger] clock_at(b, k) <= clock_at(a, k));
    assert(clock_at(b, k) <= clock_at(c, k));
    if clock_leq(c, a) {
        assert(clock_at(c, k) <= clock_at(a, k));
    }
}

/// A state entry with its causal metadata.
#[derive(Debug)]
pub struct StateEntry {
    /// The state key.
    pub key: String,
    /// The value, opaque to the sync layer.
    pub value: serde_json::Value,
    /// Who last wrote this entry.
    pub author: String,
    /// The vector clock at the time of the write.
    pub clock: VectorClock,
    /// The wall-clock time of the write, the tiebreaker of concurrent updates.
    pub updated_at: Timestamp,
}

/// The content of a `StateEntry`.
#[verifier::ext_equal]
pub struct StateEntryView {
    pub key: Seq<char>,
    pub value: serde_json::Value,
    pub author: Seq<char>,
    pub clock: Map<Seq<char>, u64>,
    pub updated_at: Timestamp,
}

impl View for StateEntry {
    type V = StateEntryView;

    open spec fn view(&self) -> StateEntryView {
        StateEntryView {
            key: self.key@,
            value: self.value,
            author: self.author@,
            clock: self.clock@,
            updated_at: self.updated_at,
        }
    }
}

impl Clone for StateEntry {
    fn clone(&self) -> (r: Self)
        ensures
            r@ == self@,
    {
        StateEntry {
            key: self.key.clone(),
            value: self.value.clone(),
            author: self.author.clone(),
            clock: self.clock.clone(),
            updated_at: self.updated_at,
        }
    }
}

/// What peers exchange for incremental sync.
#[derive(Debug)]
pub struct StateDelta {
    pub room_id: String,
    pub from: String,
    pub entries: Vec<StateEntry>,
}

/// The content of a `StateDelta`.
#[verifier::ext_equal]
pub struct StateDeltaView {
    pub room_id: Seq<char>,
    pub from: Seq<char>,
    pub entries: Seq<StateEntryView>,
}

impl View for StateDelta {
    type V = StateDeltaView;

    open spec fn view(&self) -> StateDeltaView {
        StateDeltaView {
            room_id: self.room_id@,
            from: self.from@,
            entries: views(self.entries@),
        }
    }
}

impl Clone for StateDelta {
    fn clone(&self) -> (r: Self)
        ensures
            r@ == self@,
    {
        let r = StateDelta {
            room_id: self.room_id.clone(),
            from: self.from.clone(),
            entries: self.entries.clone(),
        };
        proof {
            assert(views(r.entries@) =~= views(self.entries@));
            assert(r@ =~= self@);
        }
        r
    }
}

/// The full state of a room, for peers that join late.
#[derive(Debug)]
pub struct StateSnapshot {
    pub room_id: String,
    /// The aggregate vector clock of the room.
    pub clock: VectorClock,
    pub entries: Table<StateEntry>,
    pub created_at: Timestamp,
}

/// The content of a `StateSnapshot`.
#[verifier::ext_equal]
pub struct StateSnapshotView {
    pub room_id: Seq<char>,
    pub clock: Map<Seq<char>, u64>,
    pub entries: Map<Seq<char>, StateEntryView>,
    pub created_at: Timestamp,
}

impl View for StateSnapshot {
    type V = StateSnapshotView;

    open spec fn view(&self) -> StateSnapshotView {
        StateSnapshotView {
            room_id: self.room_id@,
            clock: self.clock@,
            entries: self.entries@,
            created_at: self.created_at,
        }
    }
}

impl Clone for StateSnapshot {
    fn clone(&self) -> (r: Self)
        ensures
            r@ == self@,
    {
        StateSnapshot {
            room_id: self.room_id.clone(),
            clock: self.clock.clone(),
            entries: self.entries.clone(),
            created_at: self.created_at,
        }
    }
}

/// What can go wrong with room state.
#[derive(Debug)]
pub enum StateError {
    RoomNotFound(String),
    KeyNotFound(String),
}

/// The content of a `StateError`.
#[verifier::ext_equal]
pub enum StateErrorView {
    RoomNotFound(Seq<char>),
    KeyNotFound(Seq<char>),
}

impl View for StateError {
    type V = StateErrorView;

    open spec fn view(&self) -> StateErrorView {
        match *self {
            StateError::RoomNotFound(x) => StateErrorView::RoomNotFound(x@),
            StateError::KeyNotFound(x) => StateErrorView::KeyNotFound(x@),
        }
    }
}

impl Clone for StateError {
    fn clone(&self) -> (r: Self)
        ensures
            r@ == self@,
    {
        match self {
            StateError::RoomNotFound(x) => StateError::RoomNotFound(x.clone()),
            StateError::KeyNotFound(x) => StateError::KeyNotFound(x.clone()),
        }
    }
}

impl StateErrorView {
    /// The text of the error.
    pub open spec fn text(self) -> Seq<char> {
        match self {
            StateErrorView::RoomNotFound(id) => "room not found: "@ + id,
            StateErrorView::KeyNotFound(key) => "key not found: "@ + key,
        }
    }
}

impl StateError {
    /// The text of the error.
    pub fn to_string(&self) -> (r: String)
        ensures
            r@ == self@.text(),
    {
        match self {
            StateError::RoomNotFound(id) => cat2("room not found: ", id.as_str()),
            StateError::KeyNotFound(key) => cat2("key not found: ", key.as_str()),
        }
    }
}

impl StateEntryView {
    /// This entry wins over a concurrent one: it was written later, or at the
    /// same time by the author whose id comes later.
    pub open spec fn newer_than(self, other: StateEntryView) -> bool {
        self.updated_at.after(other.updated_at) || (self.updated_at == other.updated_at
            && text_after(self.author, other.author))
    }
}

/// The state of one room: its entries, and the merge of the clocks it has seen.
#[derive(Debug)]
pub struct RoomState {
    entries: Table<StateEntry>,
    clock: VectorClock,
}

/// The content of a `RoomState`.
#[verifier::ext_equal]
pub struct RoomStateView {
    pub entries: Map<Seq<char>, StateEntryView>,
    pub clock: Map<Seq<char>, u64>,
}

impl View for RoomState {
    type V = RoomStateView;

    closed spec fn view(&self) -> RoomStateView {
        RoomStateView { entries: self.entries@, clock: self.clock@ }
    }
}

impl RoomStateView {
    /// A room without entries.
    pub open spec fn fresh() -> RoomStateView {
        RoomStateView { entries: Map::empty(), clock: Map::empty() }
    }

    /// Each entry is stored under its own key, and the room's clock dominates
    /// the clock of every entry.
    pub open spec fn wf(self) -> bool {
        &&& forall|k: Seq<char>| #[trigger]
            self.entries.contains_key(k) ==> self.entries[k].key == k && clock_leq(
                self.entries[k].clock,
                self.clock,
            )
    }

    /// The room accepts the value of `e`: its key is new, or it comes after the
    /// entry of that key, or it is concurrent with it and newer.
    pub open spec fn wins(self, e: StateEntryView) -> bool {
        !self.entries.contains_key(e.key) || match clock_order(
            e.clock,
            self.entries[e.key].clock,
        ) {
            ClockOrdering::After => true,
            ClockOrdering::Concurrent => e.newer_than(self.entries[e.key]),
            ClockOrdering::Before => false,
            ClockOrdering::Equal => false,
        }
    }

    /// The room learns of the clock of `e`: its key is new, or it is no older
    /// than the entry of that key.
    pub open spec fn notices(self, e: StateEntryView) -> bool {
        !self.entries.contains_key(e.key) || match clock_order(
            e.clock,
            self.entries[e.key].clock,
        ) {
            ClockOrdering::After => true,
            ClockOrdering::Concurrent => true,
            ClockOrdering::Before => false,
            ClockOrdering::Equal => false,
        }
    }

    /// The room after it was offered `e`.
    pub open spec fn applied(self, e: StateEntryView) -> RoomStateView {
        RoomStateView {
            entries: if self.wins(e) {
                self.entries.insert(e.key, e)
            } else {
                self.entries
            },
            clock: if self.notices(e) {
                clock_merged(self.clock, e.clock)
            } else {
                self.clock
            },
        }
    }

    /// The room after it was offered the entries one by one.
    pub open spec fn applied_all(self, entries: Seq<StateEntryView>) -> RoomStateView
        decreases entries.len(),
    {
        if entries.len() == 0 {
            self
        } else {
            self.applied_all(entries.drop_last()).applied(entries.last())
        }
    }

    /// The keys of those of the entries that were accepted, in order.
    pub open spec fn accepted_keys(self, entries: Seq<StateEntryView>) -> Seq<Seq<char>>
        decreases entries.len(),
    {
        if entries.len() == 0 {
            Seq::empty()
        } else {
            let before = self.accepted_keys(entries.drop_last());
            if self.applied_all(entries.drop_last()).wins(entries.last()) {
                before.push(entries.last().key)
            } else {
                before
            }
        }
    }

    /// The entry that a write by `agent` makes.
    pub open spec fn written(
        self,
        agent: Seq<char>,
        key: Seq<char>,
        value: serde_json::Value,
        now: Timestamp,
    ) -> StateEntryView {
        StateEntryView {
            key,
            value,
            author: agent,
            clock: clock_ticked(self.clock, agent),
            updated_at: now,
        }
    }
}

proof fn lemma_applied_wf(room: RoomStateView, e: StateEntryView)
    requires
        room.wf(),
    ensures
        room.applied(e).wf(),
{
    let after = room.applied(e);
    merge_is_least_upper_bound(room.clock, e.clock, after.clock);
    assert forall|k: Seq<char>| #[trigger] after.entries.contains_key(k) implies after.entries[k].key
        == k && clock_leq(after.entries[k].clock, after.clock) by {
        let c = after.entries[k].clock;
        assert forall|agent: Seq<char>| #[trigger] clock_at(c, agent) <= clock_at(
            after.clock,
            agent,
        ) by {
            assert(clock_at(room.clock, agent) <= clock_at(after.clock, agent));
            assert(room.notices(e) ==> clock_at(e.clock, agent) <= clock_at(after.clock, agent));
        }
    }
}

proof fn lemma_applied_all_wf(room: RoomStateView, entries: Seq<StateEntryView>)
    requires
        room.wf(),
    ensures
        room.applied_all(entries).wf(),
    decreases entries.len(),
{
    if entries.len() > 0 {
        lemma_applied_all_wf(room, entries.drop_last());
        lemma_applied_wf(room.applied_all(entries.drop_last()), entries.last());
    }
}

/// A local write always wins: it becomes the entry of its key, and the room's
/// clock becomes the clock of the write.
pub proof fn a_write_wins(
    room: RoomStateView,
    agent: Seq<char>,
    key: Seq<char>,
    value: serde_json::Value,
    now: Timestamp,
)
    requires
        room.wf(),
        clock_at(room.clock, agent) < u64::MAX,
    ensures
        room.wins(room.written(agent, key, value, now)),
        room.applied(room.written(agent, key, value, now)) == (RoomStateView {
            entries: room.entries.insert(key, room.written(agent, key, value, now)),
            clock: clock_ticked(room.clock, agent),
        }),
{
    let e = room.written(agent, key, value, now);
    tick_is_after(room.clock, agent);
    if room.entries.contains_key(key) {
        let c = room.entries[key].clock;
        assert forall|k: Seq<char>| #[trigger] clock_at(c, k) <= clock_at(e.clock, k) by {
            assert(clock_at(room.clock, k) <= clock_at(e.clock, k));
        }
        assert(clock_at(c, agent) <= clock_at(room.clock, agent));
        assert(clock_at(e.clock, agent) > clock_at(c, agent));
    }
    assert(clock_merged(room.clock, e.clock) =~= e.clock);
}

impl RoomState {
    /// A room without entries.
    pub fn new() -> (r: Self)
        ensures
            r@ == RoomStateView::fresh(),
    {
        RoomState { entries: Table::new(), clock: VectorClock::default() }
    }

    /// Applies an entry if it causally dominates the entry of its key or is
    /// concurrent with it and newer. Returns whether it was applied.
    pub fn apply_entry(&mut self, entry: StateEntry) -> (r: bool)
        ensures
            r == old(self)@.wins(entry@),
            final(self)@ == old(self)@.applied(entry@),
            old(self)@.wf() ==> final(self)@.wf(),
    {
        proof {
            if self@.wf() {
                lemma_applied_wf(self@, entry@);
            }
        }
        match self.entries.get(entry.key.as_str()) {
            None => {
                self.clock.merge(&entry.clock);
                self.entries.insert(entry.key.clone(), entry);
                true
            },
            Some(existing) => {
                match entry.clock.partial_cmp_clock(&existing.clock) {
                    ClockOrdering::After => {
                        self.clock.merge(&entry.clock);
                        self.entries.insert(entry.key.clone(), entry);
                        true
                    },
                    ClockOrdering::Concurrent => {
                        let newer: bool = entry.updated_at.is_after(&existing.updated_at) || (
                        entry.updated_at == existing.updated_at && is_after(
                            entry.author.as_str(),
                            existing.author.as_str(),
                        ));
                        // The clock counts even where the value does not, so that
                        // later updates are ordered correctly.
                        self.clock.merge(&entry.clock);
                        if newer {
                            self.entries.insert(entry.key.clone(), entry);
                        }
                        newer
                    },
                    ClockOrdering::Before => false,
                    ClockOrdering::Equal => false,
                }
            },
        }
    }
}

/// The state of all rooms of a mesh.
///
/// Peers use it to set state, which increments their vector clock, to get
/// state, to build deltas of what is newer than a clock, to apply deltas of
/// other peers, and to take and restore full snapshots.
#[derive(Debug)]
pub struct RoomStateSync {
    mesh_id: String,
    rooms: Table<RoomState>,
    bus: EventBus,
}

/// The content of a `RoomStateSync`: the rooms, and the events it emitted.
#[verifier::ext_equal]
pub struct RoomStateSyncView {
    pub mesh_id: Seq<char>,
    pub rooms: Map<Seq<char>, RoomStateView>,
    pub log: Seq<EventView>,
    /// The channel of the bus that the events go to.
    pub channel: int,
}

impl View for RoomStateSync {
    type V = RoomStateSyncView;

    closed spec fn view(&self) -> RoomStateSyncView {
        RoomStateSyncView {
            mesh_id: self.mesh_id@,
            rooms: self.rooms@,
            log: self.bus@,
            channel: self.bus.channel(),
        }
    }
}

impl RoomStateSyncView {
    /// Every room is well formed.
    pub open spec fn wf(self) -> bool {
        forall|id: Seq<char>| #[trigger] self.rooms.contains_key(id) ==> self.rooms[id].wf()
    }

    /// The state of a room, fresh where it is not tracked.
    pub open spec fn room_or_fresh(self, id: Seq<char>) -> RoomStateView {
        if self.rooms.contains_key(id) {
            self.rooms[id]
        } else {
            RoomStateView::fresh()
        }
    }

    /// With the state of one room replaced.
    pub open spec fn with_room(self, id: Seq<char>, room: RoomStateView) -> RoomStateSyncView {
        RoomStateSyncView { rooms: self.rooms.insert(id, room), ..self }
    }

    /// With a `PatchReady` event emitted.
    pub open spec fn announcing(self, description: Seq<char>) -> RoomStateSyncView {
        RoomStateSyncView {
            log: self.log.push(EventView::PatchReady { mesh_id: self.mesh_id, description }),
            ..self
        }
    }

    /// With a `PatchReady` event emitted if any keys were updated.
    pub open spec fn announcing_if(
        self,
        updated: Seq<Seq<char>>,
        description: Seq<char>,
    ) -> RoomStateSyncView {
        if updated.len() > 0 {
            self.announcing(description)
        } else {
            self
        }
    }
}

impl RoomStateSyncView {
    /// After an entry was written to a room.
    pub open spec fn after_set(self, room: Seq<char>, e: StateEntryView) -> RoomStateSyncView {
        self.with_room(room, self.rooms[room].applied(e)).announcing(
            set_notice(e.author, e.key, room),
        )
    }

    /// After a delta was applied to its room.
    pub open spec fn after_delta(self, delta: StateDeltaView) -> RoomStateSyncView {
        let room = self.rooms[delta.room_id];
        let keys = room.accepted_keys(delta.entries);
        self.with_room(delta.room_id, room.applied_all(delta.entries)).announcing_if(
            keys,
            delta_notice(delta.from, keys.len(), delta.room_id),
        )
    }

    /// After a snapshot was merged, its entries offered in the given order.
    pub open spec fn after_restore(
        self,
        room_id: Seq<char>,
        order: Seq<StateEntryView>,
    ) -> RoomStateSyncView {
        let room = self.room_or_fresh(room_id);
        let keys = room.accepted_keys(order);
        self.with_room(room_id, room.applied_all(order)).announcing_if(
            keys,
            snapshot_notice(keys.len(), room_id),
        )
    }

    /// What reading a key of a room gives.
    pub open spec fn lookup(self, room: Seq<char>, key: Seq<char>) -> Result<
        StateEntryView,
        StateErrorView,
    > {
        if !self.rooms.contains_key(room) {
            Err(StateErrorView::RoomNotFound(room))
        } else if !self.rooms[room].entries.contains_key(key) {
            Err(StateErrorView::KeyNotFound(key))
        } else {
            Ok(self.rooms[room].entries[key])
        }
    }
}

/// What is announced when an agent sets a key.
pub open spec fn set_notice(agent: Seq<char>, key: Seq<char>, room: Seq<char>) -> Seq<char> {
    agent + " set state key "@ + key + " in "@ + room
}

/// What is announced when a delta updated keys.
pub open spec fn delta_notice(from: Seq<char>, count: nat, room: Seq<char>) -> Seq<char> {
    "state sync from "@ + from + ": "@ + numeral(count) + " keys updated in "@ + room
}

/// What is announced when a snapshot updated keys.
pub open spec fn snapshot_notice(count: nat, room: Seq<char>) -> Seq<char> {
    "snapshot restored: "@ + numeral(count) + " keys in "@ + room
}

/// An entry with clock `c` is news to a peer that has seen `since`.
pub open spec fn is_news(c: Map<Seq<char>, u64>, since: Map<Seq<char>, u64>) -> bool {
    clock_order(c, since) == ClockOrdering::After || clock_order(c, since)
        == ClockOrdering::Concurrent
}

impl RoomStateSync {
    /// The channel of the bus that the events go to.
    pub open spec fn channel(&self) -> int {
        self@.channel
    }

    /// State tracking for no rooms.
    pub fn new(mesh_id: &str, bus: EventBus) -> (r: Self)
        ensures
            r@ == (RoomStateSyncView {
                mesh_id: mesh_id@,
                rooms: Map::empty(),
                log: bus@,
                channel: bus.channel(),
            }),
            r@.wf(),
    {
        RoomStateSync { mesh_id: mesh_id.to_owned(), rooms: Table::new(), bus }
    }

    /// Starts tracking the state of a room. A room that is tracked stays as it is.
    pub fn init_room(&mut self, room_id: &str)
        ensures
            final(self)@ == (if old(self)@.rooms.contains_key(room_id@) {
                old(self)@
            } else {
                old(self)@.with_room(room_id@, RoomStateView::fresh())
            }),
            old(self)@.wf() ==> final(self)@.wf(),
    {
        let ghost start = self@;
        if !self.rooms.contains_key(room_id) {
            self.rooms.insert(room_id.to_owned(), RoomState::new());
            proof {
                assert(RoomStateView::fresh().wf());
                assert forall|id: Seq<char>|
                    start.wf() && #[trigger] self@.rooms.contains_key(
                        id,
                    ) implies self@.rooms[id].wf() by {
                    assert(id != room_id@ ==> start.rooms.contains_key(id));
                }
            }
        }
    }

    /// Stops tracking the state of a room. Returns whether it was tracked.
    pub fn remove_room(&mut self, room_id: &str) -> (r: bool)
        ensures
            r == old(self)@.rooms.contains_key(room_id@),
            final(self)@ == (RoomStateSyncView {
                rooms: old(self)@.rooms.remove(room_id@),
                ..old(self)@
            }),
            old(self)@.wf() ==> final(self)@.wf(),
    {
        self.rooms.remove(room_id).is_some()
    }

    /// Whether the logical time of an agent in a room can move on.
    pub fn can_tick(&self, room_id: &str, agent_id: &str) -> (r: bool)
        ensures
            r == (self@.rooms.contains_key(room_id@) ==> clock_at(
                self@.rooms[room_id@].clock,
                agent_id@,
            ) < u64::MAX),
    {
        match self.rooms.get(room_id) {
            Some(room) => room.clock.get(agent_id) < u64::MAX,
            None => true,
        }
    }

    /// Sets a state key in a room at the current time. The agent's vector clock
    /// is incremented. Returns the new entry.
    pub fn set(&mut self, room_id: &str, agent_id: &str, key: &str, value: serde_json::Value) -> (r:
        Result<StateEntry, StateError>)
        requires
            old(self)@.rooms.contains_key(room_id@) ==> clock_at(
                old(self)@.rooms[room_id@].clock,
                agent_id@,
            ) < u64::MAX,
        ensures
            r is Ok <==> old(self)@.rooms.contains_key(room_id@),
            match r {
                Ok(e) => {
                    let room = old(self)@.rooms[room_id@];
                    &&& clock_reading(e.updated_at)
                    &&& e@ == room.written(agent_id@, key@, value, e.updated_at)
                    &&& final(self)@ == old(self)@.after_set(room_id@, e@)
                    &&& room.wf() ==> final(self)@.rooms[room_id@].entries == room.entries.insert(
                        key@,
                        e@,
                    )
                },
                Err(e) => e@ == StateErrorView::RoomNotFound(room_id@) && final(self)@ == old(self)@,
            },
            old(self)@.wf() ==> final(self)@.wf(),
    {
        self.set_at(room_id, agent_id, key, value, Timestamp::now())
    }

    /// Sets a state key in a room at a given time.
    pub fn set_at(
        &mut self,
        room_id: &str,
        agent_id: &str,
        key: &str,
        value: serde_json::Value,
        now: Timestamp,
    ) -> (r: Result<StateEntry, StateError>)
        requires
            old(self)@.rooms.contains_key(room_id@) ==> clock_at(
                old(self)@.rooms[room_id@].clock,
                agent_id@,
            ) < u64::MAX,
        ensures
            r is Ok <==> old(self)@.rooms.contains_key(room_id@),
            match r {
                Ok(e) => {
                    let room = old(self)@.rooms[room_id@];
                    &&& e@ == room.written(agent_id@, key@, value, now)
                    &&& final(self)@ == old(self)@.after_set(room_id@, e@)
                    &&& room.wf() ==> final(self)@.rooms[room_id@] == (RoomStateView {
                        entries: room.entries.insert(key@, e@),
                        clock: clock_ticked(room.clock, agent_id@),
                    })
                },
                Err(e) => e@ == StateErrorView::RoomNotFound(room_id@) && final(self)@ == old(self)@,
            },
            old(self)@.wf() ==> final(self)@.wf(),
    {
        let ghost start = self@;
        match self.rooms.remove(room_id) {
            None => {
                proof {
                    assert(self@.rooms =~= start.rooms);
                }
                Err(StateError::RoomNotFound(room_id.to_owned()))
            },
            Some(mut room) => {
                let ghost before = room@;
                let mut clock = room.clock.clone();
                let _ = clock.tick(agent_id);
                let entry = StateEntry {
                    key: key.to_owned(),
                    value,
                    author: agent_id.to_owned(),
                    clock,
                    updated_at: now,
                };
                proof {
                    assert(entry@ =~= before.written(agent_id@, key@, value, now));
                    if before.wf() {
                        a_write_wins(before, agent_id@, key@, value, now);
                    }
                }
                let _ = room.apply_entry(entry.clone());
                self.rooms.insert(room_id.to_owned(), room);
                let notice = cat5(agent_id, " set state key ", key, " in ", room_id);
                let _ = self.bus.emit_patch_ready(self.mesh_id.as_str(), notice.as_str());
                proof {
                    assert(self@.rooms =~= start.rooms.insert(room_id@, before.applied(entry@)));
                }
                Ok(entry)
            },
        }
    }

    /// The current entry of a state key.
    pub fn get(&self, room_id: &str, key: &str) -> (r: Result<StateEntry, StateError>)
        ensures
            result_view(r) == self@.lookup(room_id@, key@),
    {
        match self.rooms.get(room_id) {
            None => Err(StateError::RoomNotFound(room_id.to_owned())),
            Some(room) => match room.entries.get(key) {
                Some(e) => Ok(e.clone()),
                None => Err(StateError::KeyNotFound(key.to_owned())),
            },
        }
    }

    /// All the entries of a room.
    pub fn list_entries(&self, room_id: &str) -> (r: Result<Vec<StateEntry>, StateError>)
        ensures
            r is Ok <==> self@.rooms.contains_key(room_id@),
            match r {
                Ok(es) => lists(views(es@), self@.rooms[room_id@].entries),
                Err(e) => e@ == StateErrorView::RoomNotFound(room_id@),
            },
    {
        match self.rooms.get(room_id) {
            None => Err(StateError::RoomNotFound(room_id.to_owned())),
            Some(room) => Ok(room.entries.values()),
        }
    }

    /// The entries that are news to a peer whose last known clock is
    /// `since_clock`: those whose clocks come after it or are concurrent with it.
    pub fn build_delta(&self, room_id: &str, agent_id: &str, since_clock: &VectorClock) -> (r:
        Result<StateDelta, StateError>)
        ensures
            r is Ok <==> self@.rooms.contains_key(room_id@),
            match r {
                Ok(d) => {
                    &&& d@.room_id == room_id@
                    &&& d@.from == agent_id@
                    &&& lists(
                        d@.entries,
                        only(
                            self@.rooms[room_id@].entries,
                            |e: StateEntryView| is_news(e.clock, since_clock@),
                        ),
                    )
                },
                Err(e) => e@ == StateErrorView::RoomNotFound(room_id@),
            },
    {
        match self.rooms.get(room_id) {
            None => Err(StateError::RoomNotFound(room_id.to_owned())),
            Some(room) => {
                let news = |e: &StateEntry| -> (b: bool)
                    ensures
                        b == is_news(e@.clock, since_clock@),
                    {
                        matches!(
                            e.clock.partial_cmp_clock(since_clock),
                            ClockOrdering::After | ClockOrdering::Concurrent
                        )
                    };
                let entries = room.entries.select(
                    news,
                    Ghost(|e: StateEntryView| is_news(e.clock, since_clock@)),
                );
                Ok(
                    StateDelta {
                        room_id: room_id.to_owned(),
                        from: agent_id.to_owned(),
                        entries,
                    },
                )
            },
        }
    }

    /// Applies a delta of another peer. Returns the keys that were updated.
    pub fn apply_delta(&mut self, delta: StateDelta) -> (r: Result<Vec<String>, StateError>)
        ensures
            r is Ok <==> old(self)@.rooms.contains_key(delta@.room_id),
            match r {
                Ok(keys) => {
                    let room = old(self)@.rooms[delta@.room_id];
                    &&& views(keys@) == room.accepted_keys(delta@.entries)
                    &&& final(self)@ == old(self)@.after_delta(delta@)
                },
                Err(e) => e@ == StateErrorView::RoomNotFound(delta@.room_id) && final(self)@
                    == old(self)@,
            },
            old(self)@.wf() ==> final(self)@.wf(),
    {
        let ghost start = self@;
        match self.rooms.remove(delta.room_id.as_str()) {
            None => {
                proof {
                    assert(self@.rooms =~= start.rooms);
                }
                Err(StateError::RoomNotFound(delta.room_id.clone()))
            },
            Some(mut room) => {
                let ghost before = room@;
                let updated = apply_entries(&mut room, &delta.entries);
                proof {
                    if before.wf() {
                        lemma_applied_all_wf(before, delta@.entries);
                    }
                }
                self.rooms.insert(delta.room_id.clone(), room);
                if !updated.is_empty() {
                    let notice = cat6(
                        "state sync from ",
                        delta.from.as_str(),
                        ": ",
                        decimal_usize(updated.len()).as_str(),
                        " keys updated in ",
                        delta.room_id.as_str(),
                    );
                    let _ = self.bus.emit_patch_ready(self.mesh_id.as_str(), notice.as_str());
                }
                proof {
                    assert(self@.rooms =~= start.rooms.insert(
                        delta@.room_id,
                        before.applied_all(delta@.entries),
                    ));
                }
                Ok(updated)
            },
        }
    }

    /// A full snapshot of a room, for peers that join late.
    pub fn snapshot(&self, room_id: &str) -> (r: Result<StateSnapshot, StateError>)
        ensures
            r is Ok <==> self@.rooms.contains_key(room_id@),
            match r {
                Ok(s) => s@ == (StateSnapshotView {
                    room_id: room_id@,
                    clock: self@.rooms[room_id@].clock,
                    entries: self@.rooms[room_id@].entries,
                    created_at: s.created_at,
                }) && clock_reading(s.created_at),
                Err(e) => e@ == StateErrorView::RoomNotFound(room_id@),
            },
    {
        self.snapshot_at(room_id, Timestamp::now())
    }

    /// A full snapshot of a room, taken at a given time.
    pub fn snapshot_at(&self, room_id: &str, now: Timestamp) -> (r: Result<
        StateSnapshot,
        StateError,
    >)
        ensures
            r is Ok <==> self@.rooms.contains_key(room_id@),
            match r {
                Ok(s) => s@ == (StateSnapshotView {
                    room_id: room_id@,
                    clock: self@.rooms[room_id@].clock,
                    entries: self@.rooms[room_id@].entries,
                    created_at: now,
                }),
                Err(e) => e@ == StateErrorView::RoomNotFound(room_id@),
            },
    {
        match self.rooms.get(room_id) {
            None => Err(StateError::RoomNotFound(room_id.to_owned())),
            Some(room) => Ok(
                StateSnapshot {
                    room_id: room_id.to_owned(),
                    clock: room.clock.clone(),
                    entries: room.entries.clone(),
                    created_at: now,
                },
            ),
        }
    }

    /// Merges a snapshot into the state of its room, which is tracked from then
    /// on. The entries are offered in some order. Returns the keys that were
    /// updated.
    pub fn restore_snapshot(&mut self, snapshot: StateSnapshot) -> (r: Result<
        Vec<String>,
        StateError,
    >)
        ensures
            r is Ok,
            r matches Ok(keys) ==> exists|order: Seq<StateEntryView>|
                {
                    let room = old(self)@.room_or_fresh(snapshot@.room_id);
                    &&& #[trigger] lists(order, snapshot@.entries)
                    &&& views(keys@) == room.accepted_keys(order)
                    &&& final(self)@ == old(self)@.after_restore(snapshot@.room_id, order)
                },
            old(self)@.wf() ==> final(self)@.wf(),
    {
        let ghost start = self@;
        let mut room = match self.rooms.remove(snapshot.room_id.as_str()) {
            Some(room) => room,
            None => RoomState::new(),
        };
        let ghost before = room@;
        assert(before == start.room_or_fresh(snapshot@.room_id));
        let entries = snapshot.entries.values();
        let updated = apply_entries(&mut room, &entries);
        proof {
            if before.wf() {
                lemma_applied_all_wf(before, views(entries@));
            }
        }
        self.rooms.insert(snapshot.room_id.clone(), room);
        if !updated.is_empty() {
            let notice = cat4(
                "snapshot restored: ",
                decimal_usize(updated.len()).as_str(),
                " keys in ",
                snapshot.room_id.as_str(),
            );
            let _ = self.bus.emit_patch_ready(self.mesh_id.as_str(), notice.as_str());
        }
        proof {
            assert(self@.rooms =~= start.rooms.insert(
                snapshot@.room_id,
                before.applied_all(views(entries@)),
            ));
            assert(lists(views(entries@), snapshot@.entries));
        }
        Ok(updated)
    }

    /// The aggregate vector clock of a room.
    pub fn room_clock(&self, room_id: &str) -> (r: Result<VectorClock, StateError>)
        ensures
            r is Ok <==> self@.rooms.contains_key(room_id@),
            match r {
                Ok(c) => c@ == self@.rooms[room_id@].clock,
                Err(e) => e@ == StateErrorView::RoomNotFound(room_id@),
            },
    {
        match self.rooms.get(room_id) {
            None => Err(StateError::RoomNotFound(room_id.to_owned())),
            Some(room) => Ok(room.clock.clone()),
        }
    }

    /// The number of entries of a room.
    pub fn entry_count(&self, room_id: &str) -> (r: Result<usize, StateError>)
        ensures
            r is Ok <==> self@.rooms.contains_key(room_id@),
            match r {
                Ok(n) => n == self@.rooms[room_id@].entries.len(),
                Err(e) => e@ == StateErrorView::RoomNotFound(room_id@),
            },
    {
        match self.rooms.get(room_id) {
            None => Err(StateError::RoomNotFound(room_id.to_owned())),
            Some(room) => Ok(room.entries.len()),
        }
    }
}

/// Offers the entries to the room in order. Returns the keys of the accepted ones.
fn apply_entries(room: &mut RoomState, entries: &Vec<StateEntry>) -> (updated: Vec<String>)
    ensures
        final(room)@ == old(room)@.applied_all(views(entries@)),
        views(updated@) == old(room)@.accepted_keys(views(entries@)),
{
    let ghost start = room@;
    let ghost all = views(entries@);
    let mut updated: Vec<String> = Vec::new();
    let mut i: usize = 0;
    proof {
        assert(all.take(0) =~= Seq::<StateEntryView>::empty());
        assert(views(updated@) =~= Seq::<Seq<char>>::empty());
    }
    while i < entries.len()
        invariant
            i <= entries@.len(),
            all == views(entries@),
            room@ == start.applied_all(all.take(i as int)),
            views(updated@) == start.accepted_keys(all.take(i as int)),
        decreases entries@.len() - i,
    {
        let entry = entries[i].clone();
        let key = entry.key.clone();
        proof {
            assert(all.take(i + 1).drop_last() =~= all.take(i as int));
            assert(all.take(i + 1).last() == entry@);
        }
        let ghost before = views(updated@);
        if room.apply_entry(entry) {
            updated.push(key);
            assert(views(updated@) =~= before.push(key@));
        }
        i = i + 1;
    }
    assert(all.take(i as int) =~= all);
    updated
}

/// Offering an entry a second time changes nothing and is not accepted.
pub proof fn applying_twice_is_applying_once(room: RoomStateView, e: StateEntryView)
    ensures
        room.applied(e).applied(e) == room.applied(e),
        !room.applied(e).wins(e),
{
    let once = room.applied(e);
    text_order_is_total(e.author, e.author);
    if room.wins(e) {
        order_flips(e.clock, e.clock);
    } else {
        assert(clock_merged(clock_merged(room.clock, e.clock), e.clock) =~= clock_merged(
            room.clock,
            e.clock,
        ));
    }
    assert(once.applied(e) =~= once);
}

/// `a` replaces `b` where both are entries of one key.
pub open spec fn beats(a: StateEntryView, b: StateEntryView) -> bool {
    match clock_order(a.clock, b.clock) {
        ClockOrdering::After => true,
        ClockOrdering::Concurrent => a.newer_than(b),
        ClockOrdering::Before => false,
        ClockOrdering::Equal => false,
    }
}

/// Of two entries at most one replaces the other.
pub proof fn beats_is_asymmetric(a: StateEntryView, b: StateEntryView)
    ensures
        !(beats(a, b) && beats(b, a)),
{
    order_flips(a.clock, b.clock);
    text_order_is_total(a.author, b.author);
}

/// `x` is one of the updates or an entry that the room had.
pub open spec fn in_play(
    room: RoomStateView,
    updates: Seq<StateEntryView>,
    x: StateEntryView,
) -> bool {
    updates.contains(x) || (room.entries.contains_key(x.key) && room.entries[x.key] == x)
}

/// For each key one of the entries in play beats all others: two different ones
/// are never tied, and there is no cycle of three.
pub open spec fn decided(room: RoomStateView, updates: Seq<StateEntryView>) -> bool {
    &&& forall|x: StateEntryView, y: StateEntryView|
        #![trigger in_play(room, updates, x), in_play(room, updates, y)]
        in_play(room, updates, x) && in_play(room, updates, y) && x.key == y.key && x != y
            ==> beats(x, y) || beats(y, x)
    &&& forall|x: StateEntryView, y: StateEntryView, z: StateEntryView|
        #![trigger in_play(room, updates, x), in_play(room, updates, y), in_play(room, updates, z)]
        in_play(room, updates, x) && in_play(room, updates, y) && in_play(room, updates, z) && x.key
            == y.key && y.key == z.key && beats(x, y) && beats(y, z) ==> beats(x, z)
}

/// `r` holds for each key the entry in play that beats all others of that key.
spec fn best_of(room: RoomStateView, updates: Seq<StateEntryView>, r: RoomStateView) -> bool {
    &&& forall|k: Seq<char>| #[trigger]
        r.entries.contains_key(k) ==> r.entries[k].key == k && in_play(room, updates, r.entries[k])
    &&& forall|x: StateEntryView| #[trigger]
        in_play(room, updates, x) ==> r.entries.contains_key(x.key) && (r.entries[x.key] == x
            || beats(r.entries[x.key], x))
}

proof fn lemma_best_of(room: RoomStateView, updates: Seq<StateEntryView>)
    requires
        room.wf(),
        decided(room, updates),
    ensures
        best_of(room, updates, room.applied_all(updates)),
    decreases updates.len(),
{
    if updates.len() == 0 {
        assert forall|k: Seq<char>| #[trigger] room.entries.contains_key(k) implies in_play(
            room,
            updates,
            room.entries[k],
        ) by {}
    } else {
        let shorter = updates.drop_last();
        let e = updates.last();
        assert(updates[updates.len() - 1] == e);
        assert forall|x: StateEntryView|
            in_play(room, updates, x) <==> (in_play(room, shorter, x) || x == e) by {
            if shorter.contains(x) {
                assert(updates[shorter.index_of(x)] == x);
            }
            if updates.contains(x) && x != e {
                assert(shorter[updates.index_of(x)] == x);
            }
        }
        assert(decided(room, shorter)) by {
            assert forall|x: StateEntryView, y: StateEntryView|
                #![trigger in_play(room, shorter, x), in_play(room, shorter, y)]
                in_play(room, shorter, x) && in_play(room, shorter, y) && x.key == y.key && x
                    != y implies beats(x, y) || beats(y, x) by {
                assert(in_play(room, updates, x) && in_play(room, updates, y));
            }
            assert forall|x: StateEntryView, y: StateEntryView, z: StateEntryView|
                #![trigger in_play(room, shorter, x), in_play(room, shorter, y), in_play(room, shorter, z)]
                in_play(room, shorter, x) && in_play(room, shorter, y) && in_play(room, shorter, z)
                    && x.key == y.key && y.key == z.key && beats(x, y) && beats(
                    y,
                    z,
                ) implies beats(x, z) by {
                assert(in_play(room, updates, x) && in_play(room, updates, y) && in_play(
                    room,
                    updates,
                    z,
                ));
            }
        }
        lemma_best_of(room, shorter);
        let mid = room.applied_all(shorter);
        let r = mid.applied(e);
        assert(in_play(room, updates, e));
        assert forall|x: StateEntryView| #[trigger] in_play(room, updates, x) implies r.entries.contains_key(
            x.key,
        ) && (r.entries[x.key] == x || beats(r.entries[x.key], x)) by {
            if x.key == e.key {
                if mid.entries.contains_key(e.key) {
                    let old_best = mid.entries[e.key];
                    assert(in_play(room, shorter, old_best));
                    assert(in_play(room, updates, old_best));
                    if x != e {
                        assert(in_play(room, shorter, x));
                    }
                }
            } else {
                assert(in_play(room, shorter, x));
            }
        }
    }
}

/// The clock `bound` dominates the clocks of all the updates.
pub open spec fn bounded(updates: Seq<StateEntryView>, bound: Map<Seq<char>, u64>) -> bool {
    forall|x: StateEntryView| #[trigger] updates.contains(x) ==> clock_leq(x.clock, bound)
}

/// The clock of a room is the merge of all it has seen: it dominates the clock that
/// the room had and those of all updates, and is dominated by every clock that does.
pub proof fn a_room_clock_merges_all_seen(
    room: RoomStateView,
    updates: Seq<StateEntryView>,
    bound: Map<Seq<char>, u64>,
)
    requires
        room.wf(),
    ensures
        clock_leq(room.clock, room.applied_all(updates).clock),
        bounded(updates, room.applied_all(updates).clock),
        clock_leq(room.clock, bound) && bounded(updates, bound) ==> clock_leq(
            room.applied_all(updates).clock,
            bound,
        ),
    decreases updates.len(),
{
    if updates.len() > 0 {
        let shorter = updates.drop_last();
        let e = updates.last();
        assert(updates[updates.len() - 1] == e);
        assert forall|x: StateEntryView|
            updates.contains(x) <==> (shorter.contains(x) || x == e) by {
            if shorter.contains(x) {
                assert(updates[shorter.index_of(x)] == x);
            }
            if updates.contains(x) && x != e {
                assert(shorter[updates.index_of(x)] == x);
            }
        }
        a_room_clock_merges_all_seen(room, shorter, bound);
        lemma_applied_all_wf(room, shorter);
        let mid = room.applied_all(shorter);
        let last = mid.applied(e).clock;
        if bounded(updates, bound) {
            assert forall|x: StateEntryView| #[trigger] shorter.contains(x) implies clock_leq(
                x.clock,
                bound,
            ) by {
                assert(updates.contains(x));
            }
            assert(updates.contains(e));
        }
        merge_is_least_upper_bound(mid.clock, e.clock, bound);
        assert(clock_leq(mid.clock, last));
        if !mid.notices(e) {
            assert(mid.entries.contains_key(e.key));
            let kept = mid.entries[e.key];
            assert(clock_leq(e.clock, kept.clock));
            assert forall|k: Seq<char>| #[trigger] clock_at(e.clock, k) <= clock_at(last, k) by {
                assert(clock_at(kept.clock, k) <= clock_at(mid.clock, k));
            }
        }
        assert forall|x: StateEntryView| #[trigger] updates.contains(x) implies clock_leq(
            x.clock,
            last,
        ) by {
            if x != e {
                assert(clock_leq(x.clock, mid.clock));
                assert forall|k: Seq<char>| #[trigger] clock_at(x.clock, k) <= clock_at(
                    last,
                    k,
                ) by {
                    assert(clock_at(mid.clock, k) <= clock_at(last, k));
                }
            }
        }
        assert forall|k: Seq<char>| #[trigger] clock_at(room.clock, k) <= clock_at(last, k) by {
            assert(clock_at(mid.clock, k) <= clock_at(last, k));
        }
    }
}

/// Rooms converge: the same updates, in whatever order and however often each is
/// delivered, leave equal clocks, and equal entries where no two updates of one
/// key are tied and none stand in a cycle.
pub proof fn same_updates_converge(
    room: RoomStateView,
    one: Seq<StateEntryView>,
    other: Seq<StateEntryView>,
)
    requires
        room.wf(),
        forall|x: StateEntryView| #[trigger] one.contains(x) <==> other.contains(x),
    ensures
        clock_order(room.applied_all(one).clock, room.applied_all(other).clock)
            == ClockOrdering::Equal,
        decided(room, one) ==> room.applied_all(one).entries == room.applied_all(other).entries,
{
    let a = room.applied_all(one);
    let b = room.applied_all(other);
    a_room_clock_merges_all_seen(room, one, b.clock);
    a_room_clock_merges_all_seen(room, other, a.clock);
    assert(bounded(one, b.clock)) by {
        assert forall|x: StateEntryView| #[trigger] one.contains(x) implies clock_leq(
            x.clock,
            b.clock,
        ) by {
            assert(other.contains(x));
        }
    }
    assert(bounded(other, a.clock)) by {
        assert forall|x: StateEntryView| #[trigger] other.contains(x) implies clock_leq(
            x.clock,
            a.clock,
        ) by {
            assert(one.contains(x));
        }
    }
    if decided(room, one) {
        assert forall|x: StateEntryView| #[trigger]
            in_play(room, one, x) <==> in_play(room, other, x) by {}
        assert(decided(room, other)) by {
            assert forall|x: StateEntryView, y: StateEntryView|
                #![trigger in_play(room, other, x), in_play(room, other, y)]
                in_play(room, other, x) && in_play(room, other, y) && x.key == y.key && x
                    != y implies beats(x, y) || beats(y, x) by {
                assert(in_play(room, one, x) && in_play(room, one, y));
            }
            assert forall|x: StateEntryView, y: StateEntryView, z: StateEntryView|
                #![trigger in_play(room, other, x), in_play(room, other, y), in_play(room, other, z)]
                in_play(room, other, x) && in_play(room, other, y) && in_play(room, other, z)
                    && x.key == y.key && y.key == z.key && beats(x, y) && beats(
                    y,
                    z,
                ) implies beats(x, z) by {
                assert(in_play(room, one, x) && in_play(room, one, y) && in_play(room, one, z));
            }
        }
        lemma_best_of(room, one);
        lemma_best_of(room, other);
        assert forall|k: Seq<char>| a.entries.contains_key(k) <==> b.entries.contains_key(k) by {
            if a.entries.contains_key(k) {
                assert(in_play(room, one, a.entries[k]));
                assert(in_play(room, other, a.entries[k]));
            }
            if b.entries.contains_key(k) {
                assert(in_play(room, other, b.entries[k]));
                assert(in_play(room, one, b.entries[k]));
            }
        }
        assert forall|k: Seq<char>| #[trigger] a.entries.contains_key(k) implies a.entries[k]
            == b.entries[k] by {
            assert(b.entries.contains_key(k));
            assert(in_play(room, other, a.entries[k]));
            assert(in_play(room, one, b.entries[k]));
            beats_is_asymmetric(a.entries[k], b.entries[k]);
        }
        assert(a.entries.dom() =~= b.entries.dom());
        assert(a.entries =~= b.entries);
    }
}

/// The entries of a room that took over those of `incoming` that win.
pub open spec fn taken_over(room: RoomStateView, incoming: Map<Seq<char>, StateEntryView>) -> Map<
    Seq<char>,
    StateEntryView,
> {
    Map::new(
        |k: Seq<char>| room.entries.contains_key(k) || incoming.contains_key(k),
        |k: Seq<char>|
            if incoming.contains_key(k) && room.wins(incoming[k]) {
                incoming[k]
            } else {
                room.entries[k]
            },
    )
}

/// Every entry is filed under its own key.
pub open spec fn filed_by_key(entries: Map<Seq<char>, StateEntryView>) -> bool {
    forall|k: Seq<char>| #[trigger] entries.contains_key(k) ==> entries[k].key == k
}

proof fn lemma_prefix_taken_over(
    room: RoomStateView,
    incoming: Map<Seq<char>, StateEntryView>,
    order: Seq<StateEntryView>,
    keys: Seq<Seq<char>>,
    n: int,
)
    requires
        filed_by_key(incoming),
        lists_by(order, keys, incoming),
        0 <= n <= order.len(),
    ensures
        forall|k: Seq<char>| #[trigger]
            room.applied_all(order.take(n)).entries.contains_key(k) <==> room.entries.contains_key(k)
                || keys.take(n).contains(k),
        forall|k: Seq<char>| #[trigger]
            room.applied_all(order.take(n)).entries.contains_key(k) ==> room.applied_all(
                order.take(n),
            ).entries[k] == if keys.take(n).contains(k) && room.wins(incoming[k]) {
                incoming[k]
            } else {
                room.entries[k]
            },
    decreases n,
{
    if n > 0 {
        lemma_prefix_taken_over(room, incoming, order, keys, n - 1);
        assert(order.take(n).drop_last() =~= order.take(n - 1));
        let e = order[n - 1];
        let mid = room.applied_all(order.take(n - 1));
        assert(incoming.contains_key(keys[n - 1]));
        assert(e == incoming[keys[n - 1]]);
        assert(e.key == keys[n - 1]);
        assert forall|k: Seq<char>| keys.take(n).contains(k) <==> keys.take(n - 1).contains(k) || k
            == e.key by {
            if keys.take(n - 1).contains(k) {
                assert(keys.take(n)[keys.take(n - 1).index_of(k)] == k);
            }
            if k == e.key {
                assert(keys.take(n)[n - 1] == k);
            }
            if keys.take(n).contains(k) && k != e.key {
                assert(keys.take(n - 1)[keys.take(n).index_of(k)] == k);
            }
        }
        assert(!keys.take(n - 1).contains(e.key));
        assert(mid.entries.contains_key(e.key) <==> room.entries.contains_key(e.key));
        assert(mid.wins(e) == room.wins(e));
    } else {
        assert(order.take(0) =~= Seq::<StateEntryView>::empty());
    }
}

/// Merging a snapshot, or a delta, whose entries are filed by key takes over
/// exactly the entries that win, in whatever order they are offered.
pub proof fn restoring_takes_over_winners(
    room: RoomStateView,
    incoming: Map<Seq<char>, StateEntryView>,
    order: Seq<StateEntryView>,
)
    requires
        filed_by_key(incoming),
        lists(order, incoming),
    ensures
        room.applied_all(order).entries == taken_over(room, incoming),
{
    let keys = choose|keys: Seq<Seq<char>>| #[trigger] lists_by(order, keys, incoming);
    lemma_prefix_taken_over(room, incoming, order, keys, order.len() as int);
    assert(order.take(order.len() as int) =~= order);
    assert(keys.take(keys.len() as int) =~= keys);
    let goal = taken_over(room, incoming);
    let got = room.applied_all(order).entries;
    assert forall|k: Seq<char>| got.contains_key(k) <==> goal.contains_key(k) by {
        if keys.contains(k) {
            assert(incoming.contains_key(keys[keys.index_of(k)]));
        }
    }
    assert forall|k: Seq<char>| #[trigger] got.contains_key(k) implies got[k] == goal[k] by {
        if keys.contains(k) {
            assert(incoming.contains_key(keys[keys.index_of(k)]));
        }
    }
    assert(got.dom() =~= goal.dom());
    assert(got =~= goal);
}

/// A peer without entries that restores the snapshot of a room ends up with
/// exactly the entries of that room.
pub proof fn a_late_joiner_catches_up(source: RoomStateView, order: Seq<StateEntryView>)
    requires
        source.wf(),
        lists(order, source.entries),
    ensures
        RoomStateView::fresh().applied_all(order).entries == source.entries,
{
    restoring_takes_over_winners(RoomStateView::fresh(), source.entries, order);
    assert(taken_over(RoomStateView::fresh(), source.entries) =~= source.entries);
}

/// After a delta was applied, none of its entries would be accepted again.
pub proof fn a_delta_is_applied_once(
    room: RoomStateView,
    incoming: Map<Seq<char>, StateEntryView>,
    order: Seq<StateEntryView>,
)
    requires
        filed_by_key(incoming),
        lists(order, incoming),
    ensures
        forall|i: int|
            0 <= i < order.len() ==> !room.applied_all(order).wins(#[trigger] order[i]),
{
    restoring_takes_over_winners(room, incoming, order);
    let after = room.applied_all(order);
    let keys = choose|keys: Seq<Seq<char>>| #[trigger] lists_by(order, keys, incoming);
    assert forall|i: int| 0 <= i < order.len() implies !after.wins(#[trigger] order[i]) by {
        let e = order[i];
        assert(incoming.contains_key(keys[i]));
        assert(e == incoming[keys[i]]);
        order_flips(e.clock, e.clock);
        text_order_is_total(e.author, e.author);
    }
}

/// A peer whose clock covers everything the room has seen gets an empty delta.
pub proof fn nothing_is_news_to_a_peer_that_saw_all(
    room: RoomStateView,
    since: Map<Seq<char>, u64>,
    order: Seq<StateEntryView>,
)
    requires
        room.wf(),
        clock_leq(room.clock, since),
        lists(order, only(room.entries, |e: StateEntryView| is_news(e.clock, since))),
    ensures
        order.len() == 0,
{
    let news = only(room.entries, |e: StateEntryView| is_news(e.clock, since));
    let keys = choose|keys: Seq<Seq<char>>| #[trigger] lists_by(order, keys, news);
    if order.len() > 0 {
        assert(news.contains_key(keys[0]));
        let c = room.entries[keys[0]].clock;
        assert(clock_leq(c, room.clock));
        assert forall|k: Seq<char>| #[trigger] clock_at(c, k) <= clock_at(since, k) by {
            assert(clock_at(room.clock, k) <= clock_at(since, k));
        }
    }
}

/// A write is news to every peer that has not seen it: its clock is ahead of the
/// peer's in the time of the author.
pub proof fn a_write_is_news_to_who_has_not_seen_it(
    room: RoomStateView,
    agent: Seq<char>,
    key: Seq<char>,
    value: serde_json::Value,
    now: Timestamp,
    since: Map<Seq<char>, u64>,
)
    requires
        clock_at(room.clock, agent) < u64::MAX,
        clock_at(since, agent) <= clock_at(room.clock, agent),
    ensures
        is_news(room.written(agent, key, value, now).clock, since),
{
    let c = room.written(agent, key, value, now).clock;
    assert(clock_at(c, agent) > clock_at(since, agent));
}

/// What an agent sets is what is read back, and every other key of every room reads
/// as before.
pub proof fn a_set_key_is_read_back(
    sync: RoomStateSyncView,
    room: Seq<char>,
    agent: Seq<char>,
    key: Seq<char>,
    value: serde_json::Value,
    now: Timestamp,
)
    requires
        sync.wf(),
        sync.rooms.contains_key(room),
        clock_at(sync.rooms[room].clock, agent) < u64::MAX,
    ensures
        ({
            let entry = sync.rooms[room].written(agent, key, value, now);
            let after = sync.after_set(room, entry);
            &&& after.lookup(room, key) == Ok::<StateEntryView, StateErrorView>(entry)
            &&& forall|r: Seq<char>, k: Seq<char>|
                r != room || k != key ==> #[trigger] after.lookup(r, k) == sync.lookup(r, k)
        }),
{
    a_write_wins(sync.rooms[room], agent, key, value, now);
}

/// Two peers that offer each other all their entries of a room end up with the same
/// entries, unless two different entries of one key are tied.
pub proof fn exchanging_all_entries_converges(
    a: RoomStateView,
    b: RoomStateView,
    from_a: Seq<StateEntryView>,
    from_b: Seq<StateEntryView>,
)
    requires
        a.wf(),
        b.wf(),
        lists(from_a, a.entries),
        lists(from_b, b.entries),
        forall|k: Seq<char>|
            #![trigger a.entries.contains_key(k)]
            #![trigger b.entries.contains_key(k)]
            a.entries.contains_key(k) && b.entries.contains_key(k) && a.entries[k] != b.entries[k]
                ==> beats(a.entries[k], b.entries[k]) || beats(b.entries[k], a.entries[k]),
    ensures
        a.applied_all(from_b).entries == b.applied_all(from_a).entries,
{
    restoring_takes_over_winners(a, b.entries, from_b);
    restoring_takes_over_winners(b, a.entries, from_a);
    let one = taken_over(a, b.entries);
    let other = taken_over(b, a.entries);
    assert(one.dom() =~= other.dom());
    assert forall|k: Seq<char>| #[trigger] one.contains_key(k) implies one[k] == other[k] by {
        if a.entries.contains_key(k) && b.entries.contains_key(k) {
            beats_is_asymmetric(a.entries[k], b.entries[k]);
            order_flips(a.entries[k].clock, b.entries[k].clock);
        }
    }
    assert(one =~= other);
}

/// The largest time of `agent` in the clocks of the updates, zero where there are none.
pub open spec fn largest_time(updates: Seq<StateEntryView>, agent: Seq<char>) -> u64
    decreases updates.len(),
{
    if updates.len() == 0 {
        0
    } else {
        later(largest_time(updates.drop_last(), agent), clock_at(updates.last().clock, agent))
    }
}

/// The clock of a room that started out fresh holds for each agent the largest time in
/// all updates that were offered, accepted or not, and dominates the clocks of its
/// entries.
pub proof fn a_room_clock_is_the_maximum_of_all_offered(updates: Seq<StateEntryView>)
    ensures
        forall|agent: Seq<char>| #[trigger]
            clock_at(RoomStateView::fresh().applied_all(updates).clock, agent) == largest_time(
                updates,
                agent,
            ),
        forall|k: Seq<char>| #[trigger]
            RoomStateView::fresh().applied_all(updates).entries.contains_key(k) ==> clock_leq(
                RoomStateView::fresh().applied_all(updates).entries[k].clock,
                RoomStateView::fresh().applied_all(updates).clock,
            ),
    decreases updates.len(),
{
    let fresh = RoomStateView::fresh();
    assert(fresh.wf());
    lemma_applied_all_wf(fresh, updates);
    if updates.len() > 0 {
        let shorter = updates.drop_last();
        let e = updates.last();
        a_room_clock_is_the_maximum_of_all_offered(shorter);
        lemma_applied_all_wf(fresh, shorter);
        let mid = fresh.applied_all(shorter);
        let after = mid.applied(e);
        assert forall|agent: Seq<char>| #[trigger] clock_at(after.clock, agent) == largest_time(
            updates,
            agent,
        ) by {
            assert(clock_at(mid.clock, agent) == largest_time(shorter, agent));
            if !mid.notices(e) {
                let kept = mid.entries[e.key];
                assert(clock_at(e.clock, agent) <= clock_at(kept.clock, agent));
                assert(clock_at(kept.clock, agent) <= clock_at(mid.clock, agent));
            }
        }
    }
}

/// Two updates of one key leave the same entries and the same times in whatever order
/// they arrive at a fresh room, unless their clocks are equal or they are concurrent,
/// written at the same time by the same author.
pub proof fn two_updates_commute(one: StateEntryView, other: StateEntryView)
    requires
        one.key == other.key,
        clock_order(one.clock, other.clock) != ClockOrdering::Equal,
        clock_order(one.clock, other.clock) == ClockOrdering::Concurrent ==> (one.updated_at
            != other.updated_at || one.author != other.author),
    ensures
        ({
            let s = RoomStateView::fresh().applied(one).applied(other);
            let t = RoomStateView::fresh().applied(other).applied(one);
            &&& s.entries == t.entries
            &&& forall|k: Seq<char>| #[trigger] clock_at(s.clock, k) == clock_at(t.clock, k)
        }),
{
    let fresh = RoomStateView::fresh();
    let s = fresh.applied(one).applied(other);
    let t = fresh.applied(other).applied(one);
    order_flips(one.clock, other.clock);
    time_order_is_total(one.updated_at, other.updated_at, one.updated_at);
    text_order_is_total(one.author, other.author);
    assert(s.entries =~= t.entries);
    assert forall|k: Seq<char>| #[trigger] clock_at(s.clock, k) == clock_at(t.clock, k) by {
        assert(clock_leq(one.clock, other.clock) ==> clock_at(one.clock, k) <= clock_at(
            other.clock,
            k,
        ));
        assert(clock_leq(other.clock, one.clock) ==> clock_at(other.clock, k) <= clock_at(
            one.clock,
            k,
        ));
    }
}

/// The later of two concurrent writes wins: of two entries of one key whose clocks are
/// concurrent, a room without that key that was offered both, in either order, holds the one that was
/// written later, to the nanosecond.
pub proof fn the_later_concurrent_write_wins(
    room: RoomStateView,
    a: StateEntryView,
    b: StateEntryView,
)
    requires
        !room.entries.contains_key(a.key),
        a.key == b.key,
        clock_order(a.clock, b.clock) == ClockOrdering::Concurrent,
        a.updated_at.after(b.updated_at),
    ensures
        room.applied(a).applied(b).entries[a.key] == a,
        room.applied(b).applied(a).entries[a.key] == a,
        room.accepted_keys(seq![a, b]) == seq![a.key],
        room.accepted_keys(seq![b, a]) == seq![a.key, a.key],
{
    order_flips(a.clock, b.clock);
    time_order_is_total(a.updated_at, b.updated_at, a.updated_at);
    lemma_accepted_of_two(room, a, b);
    lemma_accepted_of_two(room, b, a);
}

/// Of two concurrent writes of one key at the same instant the one by the author whose
/// id comes later in the order of bytes wins, in whatever order the two arrive.
pub proof fn of_simultaneous_writes_the_later_author_wins(
    room: RoomStateView,
    a: StateEntryView,
    b: StateEntryView,
    i: int,
)
    requires
        !room.entries.contains_key(a.key),
        a.key == b.key,
        clock_order(a.clock, b.clock) == ClockOrdering::Concurrent,
        a.updated_at == b.updated_at,
        ahead_at(vstd::utf8::encode_utf8(a.author), vstd::utf8::encode_utf8(b.author), i),
    ensures
        room.applied(a).applied(b).entries[a.key] == a,
        room.applied(b).applied(a).entries[a.key] == a,
{
    order_flips(a.clock, b.clock);
    time_order_is_total(a.updated_at, b.updated_at, a.updated_at);
    the_first_difference_decides(
        vstd::utf8::encode_utf8(a.author),
        vstd::utf8::encode_utf8(b.author),
    );
    text_order_is_total(a.author, b.author);
}

/// A write that has seen another, its clock being nowhere behind and somewhere ahead,
/// replaces it whatever the wall clocks and authors say, in whatever order the two
/// arrive.
pub proof fn a_write_replaces_what_it_has_seen(
    room: RoomStateView,
    a: StateEntryView,
    b: StateEntryView,
    agent: Seq<char>,
)
    requires
        !room.entries.contains_key(a.key),
        a.key == b.key,
        forall|k: Seq<char>| #[trigger] clock_at(b.clock, k) <= clock_at(a.clock, k),
        clock_at(b.clock, agent) < clock_at(a.clock, agent),
    ensures
        room.applied(a).applied(b).entries[a.key] == a,
        room.applied(b).applied(a).entries[a.key] == a,
        room.accepted_keys(seq![a, b]) == seq![a.key],
        room.accepted_keys(seq![b, a]) == seq![a.key, a.key],
{
    assert(clock_leq(b.clock, a.clock));
    assert(!clock_leq(a.clock, b.clock));
    lemma_accepted_of_two(room, a, b);
    lemma_accepted_of_two(room, b, a);
}

proof fn lemma_accepted_of_two(
    room: RoomStateView,
    a: StateEntryView,
    b: StateEntryView,
)
    requires
        !room.entries.contains_key(a.key),
    ensures
        room.accepted_keys(seq![a, b]) == (if room.applied(
            a,
        ).wins(b) {
            seq![a.key, b.key]
        } else {
            seq![a.key]
        }),
{
    let both = seq![a, b];
    assert(both.drop_last() =~= seq![a]);
    assert(seq![a].drop_last() =~= Seq::<StateEntryView>::empty());
    reveal_with_fuel(RoomStateView::accepted_keys, 3);
    reveal_with_fuel(RoomStateView::applied_all, 3);
    assert(room.applied_all(seq![a]) == room.applied(a));
    assert(room.accepted_keys(seq![a]) =~= seq![a.key]);
    assert(room.accepted_keys(both) =~= if room.applied(a).wins(b) {
        seq![a.key, b.key]
    } else {
        seq![a.key]
    });
}

/// Two clocks are equal if no agent's times differ, one is before the other if it is
/// nowhere ahead and somewhere behind, and they are concurrent if each is somewhere
/// ahead.
pub proof fn clocks_compare_agent_by_agent(
    a: Map<Seq<char>, u64>,
    b: Map<Seq<char>, u64>,
    p: Seq<char>,
    q: Seq<char>,
)
    ensures
        a =~= b ==> clock_order(a, b) == ClockOrdering::Equal,
        clock_at(a, p) > clock_at(b, p) && clock_at(a, q) < clock_at(b, q) ==> clock_order(a, b)
            == ClockOrdering::Concurrent,
        clock_at(a, p) > clock_at(b, p) ==> clock_order(a, b) == ClockOrdering::After
            || clock_order(a, b) == ClockOrdering::Concurrent,
        clock_order(a, b) == ClockOrdering::After ==> clock_at(a, p) >= clock_at(b, p),
        clock_order(a, b) == ClockOrdering::Before ==> clock_at(a, p) <= clock_at(b, p),
        clock_order(a, b) == ClockOrdering::Equal ==> clock_at(a, p) == clock_at(b, p),
{
    if clock_leq(b, a) {
        assert(clock_at(b, p) <= clock_at(a, p));
        assert(clock_at(b, q) <= clock_at(a, q));
    }
    if clock_leq(a, b) {
        assert(clock_at(a, p) <= clock_at(b, p));
        assert(clock_at(a, q) <= clock_at(b, q));
    }
}

/// In a merged clock each agent has the larger of its two times, and an agent that
/// neither clock knows has none.
pub proof fn a_merged_clock_has_the_larger_times(
    a: Map<Seq<char>, u64>,
    b: Map<Seq<char>, u64>,
    agent: Seq<char>,
)
    ensures
        clock_at(clock_merged(a, b), agent) >= clock_at(a, agent),
        clock_at(clock_merged(a, b), agent) >= clock_at(b, agent),
        clock_at(clock_merged(a, b), agent) == clock_at(a, agent) || clock_at(
            clock_merged(a, b),
            agent,
        ) == clock_at(b, agent),
        clock_merged(a, b).contains_key(agent) <==> a.contains_key(agent) || b.contains_key(agent),
        a.contains_key(agent) ==> clock_at(a, agent) == a[agent],
        !a.contains_key(agent) ==> clock_at(a, agent) == 0,
{
}

/// An entry is news to a peer exactly if some agent's time is larger in its clock than
/// in the peer's.
pub proof fn news_is_what_a_peer_has_not_seen(
    c: Map<Seq<char>, u64>,
    since: Map<Seq<char>, u64>,
)
    ensures
        is_news(c, since) <==> exists|agent: Seq<char>| #[trigger]
            clock_at(c, agent) > clock_at(since, agent),
{
}

/// What an agent writes carries its key, value and name and the time of the write; its
/// clock is the room's with the agent's own time moved on by one.
pub proof fn a_write_is_stamped(
    room: RoomStateView,
    agent: Seq<char>,
    key: Seq<char>,
    value: serde_json::Value,
    now: Timestamp,
    other: Seq<char>,
)
    requires
        clock_at(room.clock, agent) < u64::MAX,
        other != agent,
    ensures
        ({
            let e = room.written(agent, key, value, now);
            &&& e.key == key
            &&& e.value == value
            &&& e.author == agent
            &&& e.updated_at == now
            &&& clock_at(e.clock, agent) == clock_at(room.clock, agent) + 1
            &&& clock_at(e.clock, other) == clock_at(room.clock, other)
        }),
{
}

/// An entry that is offered concerns its own key only: the entries of other keys stay
/// as they are, no time of the room's clock gets smaller, and the entry of its key is
/// the offered one or what it was.
pub proof fn an_entry_concerns_its_own_key(room: RoomStateView, e: StateEntryView, k: Seq<char>)
    ensures
        k != e.key ==> (room.applied(e).entries.contains_key(k) <==> room.entries.contains_key(k)),
        k != e.key && room.entries.contains_key(k) ==> room.applied(e).entries[k]
            == room.entries[k],
        room.applied(e).entries.contains_key(e.key),
        room.applied(e).entries[e.key] == e || (room.entries.contains_key(e.key) && room.applied(
            e,
        ).entries[e.key] == room.entries[e.key]),
        !room.entries.contains_key(e.key) ==> room.applied(e).entries[e.key] == e,
        clock_at(room.clock, k) <= clock_at(room.applied(e).clock, k),
{
}

/// Keys are reported as updated exactly if their entries changed: of incoming entries
/// filed by key, in whatever order, those keys are reported that were new or hold
/// another entry than before, each once.
pub proof fn updated_keys_are_those_that_changed(
    room: RoomStateView,
    incoming: Map<Seq<char>, StateEntryView>,
    order: Seq<StateEntryView>,
)
    requires
        filed_by_key(incoming),
        lists(order, incoming),
    ensures
        ({
            let after = room.applied_all(order).entries;
            let keys = room.accepted_keys(order);
            &&& keys.no_duplicates()
            &&& forall|k: Seq<char>| #[trigger]
                keys.contains(k) <==> after.contains_key(k) && (!room.entries.contains_key(k)
                    || after[k] != room.entries[k])
        }),
{
    let by = choose|keys: Seq<Seq<char>>| #[trigger] lists_by(order, keys, incoming);
    lemma_accepted_prefix(room, incoming, order, by, order.len() as int);
    assert(order.take(order.len() as int) =~= order);
    assert(by.take(by.len() as int) =~= by);
    restoring_takes_over_winners(room, incoming, order);
    let after = room.applied_all(order).entries;
    let keys = room.accepted_keys(order);
    assert forall|k: Seq<char>| #[trigger] keys.contains(k) <==> after.contains_key(k) && (
    !room.entries.contains_key(k) || after[k] != room.entries[k]) by {
        if by.contains(k) {
            assert(incoming.contains_key(by[by.index_of(k)]));
            let e = incoming[k];
            order_flips(e.clock, e.clock);
            text_order_is_total(e.author, e.author);
        } else {
            assert(!incoming.contains_key(k));
        }
    }
}

proof fn lemma_accepted_prefix(
    room: RoomStateView,
    incoming: Map<Seq<char>, StateEntryView>,
    order: Seq<StateEntryView>,
    by: Seq<Seq<char>>,
    n: int,
)
    requires
        filed_by_key(incoming),
        lists_by(order, by, incoming),
        0 <= n <= order.len(),
    ensures
        room.accepted_keys(order.take(n)).no_duplicates(),
        forall|k: Seq<char>| #[trigger]
            room.accepted_keys(order.take(n)).contains(k) <==> by.take(n).contains(k) && room.wins(
                incoming[k],
            ),
    decreases n,
{
    if n > 0 {
        lemma_accepted_prefix(room, incoming, order, by, n - 1);
        lemma_prefix_taken_over(room, incoming, order, by, n - 1);
        assert(order.take(n).drop_last() =~= order.take(n - 1));
        let e = order[n - 1];
        let mid = room.applied_all(order.take(n - 1));
        assert(incoming.contains_key(by[n - 1]));
        assert(e == incoming[by[n - 1]]);
        assert(e.key == by[n - 1]);
        assert forall|k: Seq<char>| by.take(n).contains(k) <==> by.take(n - 1).contains(k) || k
            == e.key by {
            if by.take(n - 1).contains(k) {
                assert(by.take(n)[by.take(n - 1).index_of(k)] == k);
            }
            if k == e.key {
                assert(by.take(n)[n - 1] == k);
            }
            if by.take(n).contains(k) && k != e.key {
                assert(by.take(n - 1)[by.take(n).index_of(k)] == k);
            }
        }
        assert(!by.take(n - 1).contains(e.key));
        assert(mid.entries.contains_key(e.key) <==> room.entries.contains_key(e.key));
        assert(mid.wins(e) == room.wins(e));
        let before = room.accepted_keys(order.take(n - 1));
        let now = room.accepted_keys(order.take(n));
        if mid.wins(e) {
            assert(now == before.push(e.key));
            assert forall|k: Seq<char>| now.contains(k) <==> before.contains(k) || k == e.key by {
                if before.contains(k) {
                    assert(now[before.index_of(k)] == k);
                }
                if k == e.key {
                    assert(now[before.len() as int] == k);
                }
                if now.contains(k) && k != e.key {
                    assert(before[now.index_of(k)] == k);
                }
            }
            assert(!before.contains(e.key));
        }
    } else {
        assert(order.take(0) =~= Seq::<StateEntryView>::empty());
        assert(by.take(0) =~= Seq::<Seq<char>>::empty());
    }
}

/// Reading a key of a room that is tracked gives its entry if there is one; otherwise
/// the room, or the key, is not found.
pub proof fn reading_finds_what_is_there(
    sync: RoomStateSyncView,
    room: Seq<char>,
    key: Seq<char>,
)
    ensures
        match sync.lookup(room, key) {
            Ok(e) => sync.rooms.contains_key(room) && sync.rooms[room].entries.contains_key(key)
                && e == sync.rooms[room].entries[key],
            Err(StateErrorView::KeyNotFound(k)) => sync.rooms.contains_key(room)
                && !sync.rooms[room].entries.contains_key(key) && k == key,
            Err(StateErrorView::RoomNotFound(r)) => !sync.rooms.contains_key(room) && r == room,
        },
{
}

/// Setting a key, applying a delta and restoring a snapshot concern one room; each emits
/// at most one event, with its own text, and a delta or snapshot that updates nothing
/// emits none.
pub proof fn state_changes_concern_one_room_and_are_announced(
    sync: RoomStateSyncView,
    entry: StateEntryView,
    delta: StateDeltaView,
    order: Seq<StateEntryView>,
    room: Seq<char>,
    other: Seq<char>,
)
    requires
        other != room,
        delta.room_id == room,
    ensures
        sync.after_set(room, entry).log == sync.log.push(
            EventView::PatchReady {
                mesh_id: sync.mesh_id,
                description: entry.author + " set state key "@ + entry.key + " in "@ + room,
            },
        ),
        sync.after_delta(delta).log == (if sync.rooms[room].accepted_keys(delta.entries).len()
            == 0 {
            sync.log
        } else {
            sync.log.push(
                EventView::PatchReady {
                    mesh_id: sync.mesh_id,
                    description: "state sync from "@ + delta.from + ": "@ + numeral(
                        sync.rooms[room].accepted_keys(delta.entries).len(),
                    ) + " keys updated in "@ + room,
                },
            )
        }),
        sync.after_restore(room, order).log == (if sync.room_or_fresh(room).accepted_keys(
            order,
        ).len() == 0 {
            sync.log
        } else {
            sync.log.push(
                EventView::PatchReady {
                    mesh_id: sync.mesh_id,
                    description: "snapshot restored: "@ + numeral(
                        sync.room_or_fresh(room).accepted_keys(order).len(),
                    ) + " keys in "@ + room,
                },
            )
        }),
        sync.after_set(room, entry).rooms.contains_key(other) <==> sync.rooms.contains_key(other),
        sync.after_delta(delta).rooms.contains_key(other) <==> sync.rooms.contains_key(other),
        sync.after_restore(room, order).rooms.contains_key(other) <==> sync.rooms.contains_key(
            other,
        ),
        sync.rooms.contains_key(other) ==> sync.after_set(room, entry).rooms[other]
            == sync.rooms[other] && sync.after_delta(delta).rooms[other] == sync.rooms[other]
            && sync.after_restore(room, order).rooms[other] == sync.rooms[other],
        sync.after_set(room, entry).rooms[room] == sync.rooms[room].applied(entry),
        sync.after_delta(delta).rooms[room] == sync.rooms[room].applied_all(delta.entries),
        sync.rooms.contains_key(room) ==> sync.after_restore(room, order).rooms[room]
            == sync.rooms[room].applied_all(order),
        !sync.rooms.contains_key(room) ==> sync.after_restore(room, order).rooms[room]
            == RoomStateView::fresh().applied_all(order),
        RoomStateView::fresh().entries.dom() == Set::<Seq<char>>::empty(),
        RoomStateView::fresh().clock.dom() == Set::<Seq<char>>::empty(),
{
}

/// An entry whose clock is nowhere ahead of that of the room's entry of its key is ignored:
/// the room has seen it, or something that replaces it.
pub proof fn what_was_seen_is_ignored(room: RoomStateView, e: StateEntryView)
    requires
        room.entries.contains_key(e.key),
        forall|k: Seq<char>| #[trigger]
            clock_at(e.clock, k) <= clock_at(room.entries[e.key].clock, k),
    ensures
        room.applied(e) == room,
        !room.wins(e),
{
    assert(clock_leq(e.clock, room.entries[e.key].clock));
}

/// Updates are applied one after the other, in their order.
pub proof fn updates_are_applied_in_order(
    room: RoomStateView,
    updates: Seq<StateEntryView>,
    next: StateEntryView,
)
    ensures
        room.applied_all(Seq::empty()) == room,
        room.accepted_keys(Seq::empty()).len() == 0,
        room.applied_all(updates.push(next)) == room.applied_all(updates).applied(next),
        room.accepted_keys(updates.push(next)) == (if room.applied_all(updates.push(next)).entries
            == room.applied_all(updates).entries {
            room.accepted_keys(updates)
        } else {
            room.accepted_keys(updates).push(next.key)
        }),
{
    assert(updates.push(next).drop_last() =~= updates);
    let mid = room.applied_all(updates);
    if mid.wins(next) {
        order_flips(next.clock, next.clock);
        text_order_is_total(next.author, next.author);
        assert(mid.applied(next).entries[next.key] == next);
        if mid.entries.contains_key(next.key) {
            assert(mid.entries[next.key] != next);
        } else {
            assert(mid.applied(next).entries.contains_key(next.key));
        }
    }
}

/// In a well-formed room each entry is filed under its own key, and no entry's clock is
/// ahead of the room's.
pub proof fn a_room_clock_covers_its_entries(
    sync: RoomStateSyncView,
    room: Seq<char>,
    key: Seq<char>,
    agent: Seq<char>,
)
    requires
        sync.wf(),
        sync.rooms.contains_key(room),
        sync.rooms[room].entries.contains_key(key),
    ensures
        sync.rooms[room].entries[key].key == key,
        clock_at(sync.rooms[room].entries[key].clock, agent) <= clock_at(
            sync.rooms[room].clock,
            agent,
        ),
{
    assert(sync.rooms[room].wf());
}

} // verus!
