//! A map from text keys to values.
use vstd::prelude::*;

verus! {

/// A map from text keys to values. Each key occurs once.
#[derive(Debug)]
pub struct Table<V: View> {
    entries: Vec<(String, V)>,
}

spec fn distinct<V>(entries: Seq<(String, V)>) -> bool {
    forall|i: int, j: int|
        0 <= i < j < entries.len() ==> (#[trigger] entries[i]).0@ != (#[trigger] entries[j]).0@
}

spec fn holds<V>(entries: Seq<(String, V)>, key: Seq<char>) -> bool {
    exists|i: int| 0 <= i < entries.len() && (#[trigger] entries[i]).0@ == key
}

spec fn position<V>(entries: Seq<(String, V)>, key: Seq<char>) -> int {
    choose|i: int| 0 <= i < entries.len() && (#[trigger] entries[i]).0@ == key
}

spec fn contents<V: View>(entries: Seq<(String, V)>) -> Map<Seq<char>, V::V> {
    Map::new(|k: Seq<char>| holds(entries, k), |k: Seq<char>| entries[position(entries, k)].1@)
}

spec fn key_seq<V>(entries: Seq<(String, V)>) -> Seq<Seq<char>> {
    Seq::new(entries.len(), |i: int| entries[i].0@)
}

/// `keys` names every key of `m` once.
pub open spec fn enumerates<V>(keys: Seq<Seq<char>>, m: Map<Seq<char>, V>) -> bool {
    &&& keys.no_duplicates()
    &&& forall|i: int| 0 <= i < keys.len() ==> m.contains_key(#[trigger] keys[i])
    &&& forall|k: Seq<char>| #[trigger] m.contains_key(k) ==> keys.contains(k)
}

/// `items` holds the values of `m`, each key's value once, in some order.
pub open spec fn lists<V>(items: Seq<V>, m: Map<Seq<char>, V>) -> bool {
    exists|keys: Seq<Seq<char>>| #[trigger] lists_by(items, keys, m)
}

/// `items` holds the values of `m` in the order of `keys`.
pub open spec fn lists_by<V>(items: Seq<V>, keys: Seq<Seq<char>>, m: Map<Seq<char>, V>) -> bool {
    &&& enumerates(keys, m)
    &&& items.len() == keys.len()
    &&& forall|i: int| 0 <= i < items.len() ==> #[trigger] items[i] == m[keys[i]]
}

/// The entries of `m` whose values satisfy `keep`.
pub open spec fn only<V>(m: Map<Seq<char>, V>, keep: spec_fn(V) -> bool) -> Map<Seq<char>, V> {
    Map::new(|k: Seq<char>| m.contains_key(k) && keep(m[k]), |k: Seq<char>| m[k])
}

/// The views of the items.
pub open spec fn views<T: View>(items: Seq<T>) -> Seq<T::V> {
    items.map_values(|t: T| t@)
}

/// The view of an optional value.
pub open spec fn opt_view<T: View>(item: Option<T>) -> Option<T::V> {
    match item {
        Some(t) => Some(t@),
        None => None,
    }
}

/// The view of a result.
pub open spec fn result_view<T: View, E: View>(r: Result<T, E>) -> Result<T::V, E::V> {
    match r {
        Ok(t) => Ok(t@),
        Err(e) => Err(e@),
    }
}

/// Cloning a `T` keeps its view.
pub open spec fn clone_keeps_view<T: View + Clone>() -> bool {
    forall|a: T, b: T| #[trigger] cloned(a, b) ==> a@ == b@
}

proof fn lemma_contents<V: View>(entries: Seq<(String, V)>)
    requires
        distinct(entries),
    ensures
        forall|i: int|
            0 <= i < entries.len() ==> contents(entries).contains_key((#[trigger] entries[i]).0@)
                && contents(entries)[entries[i].0@] == entries[i].1@,
        enumerates(key_seq(entries), contents(entries)),
        contents(entries).dom().finite(),
        contents(entries).len() == entries.len(),
{
    let m = contents(entries);
    let keys = key_seq(entries);
    assert forall|i: int| 0 <= i < entries.len() implies m.contains_key(
        (#[trigger] entries[i]).0@,
    ) && m[entries[i].0@] == entries[i].1@ by {
        let k = entries[i].0@;
        assert(holds(entries, k));
        let p = position(entries, k);
        assert(entries[p].0@ == k);
    }
    assert forall|k: Seq<char>| #[trigger] m.contains_key(k) implies keys.contains(k) by {
        let p = position(entries, k);
        assert(keys[p] == k);
    }
    assert(keys.to_set() =~= m.dom());
    keys.unique_seq_to_set();
    vstd::seq_lib::seq_to_set_is_finite(keys);
}

/// Exactly the empty map has an empty listing.
pub proof fn lemma_lists_empty<V>(items: Seq<V>, m: Map<Seq<char>, V>)
    requires
        lists(items, m),
    ensures
        items.len() == 0 <==> m == Map::<Seq<char>, V>::empty(),
{
    let keys = choose|keys: Seq<Seq<char>>| #[trigger] lists_by(items, keys, m);
    if items.len() == 0 {
        assert forall|k: Seq<char>| !m.contains_key(k) by {
            if m.contains_key(k) {
                assert(keys.contains(k));
            }
        }
        assert(m =~= Map::<Seq<char>, V>::empty());
    } else {
        assert(m.contains_key(keys[0]));
    }
}

/// The image of a listing lists the image of the map.
pub proof fn lemma_lists_mapped<V, W>(
    items: Seq<V>,
    m: Map<Seq<char>, V>,
    f: spec_fn(V) -> W,
)
    requires
        lists(items, m),
    ensures
        lists(items.map_values(f), m.map_values(f)),
{
    let keys = choose|keys: Seq<Seq<char>>| #[trigger] lists_by(items, keys, m);
    assert(lists_by(items.map_values(f), keys, m.map_values(f)));
}

impl<V: View> View for Table<V> {
    type V = Map<Seq<char>, V::V>;

    closed spec fn view(&self) -> Map<Seq<char>, V::V> {
        contents(self.entries@)
    }
}

impl<V: View + Clone> Clone for Table<V> {
    fn clone(&self) -> (r: Self)
        ensures
            clone_keeps_view::<V>() ==> r@ == self@,
    {
        proof {
            use_type_invariant(self);
            lemma_contents(self.entries@);
        }
        let mut entries: Vec<(String, V)> = Vec::new();
        let mut i: usize = 0;
        while i < self.entries.len()
            invariant
                i <= self.entries@.len(),
                i == entries@.len(),
                distinct(self.entries@),
                forall|j: int|
                    0 <= j < i ==> (#[trigger] entries@[j]).0@ == self.entries@[j].0@ && cloned(
                        self.entries@[j].1,
                        entries@[j].1,
                    ),
            decreases self.entries@.len() - i,
        {
            let key: String = self.entries[i].0.clone();
            let value: V = self.entries[i].1.clone();
            entries.push((key, value));
            i = i + 1;
        }
        proof {
            assert forall|j: int, k: int| 0 <= j < k < entries@.len() implies (
            #[trigger] entries@[j]).0@ != (#[trigger] entries@[k]).0@ by {
                assert(self.entries@[j].0@ != self.entries@[k].0@);
            }
            lemma_contents(entries@);
            if clone_keeps_view::<V>() {
                let a = contents(self.entries@);
                let b = contents(entries@);
                assert forall|k: Seq<char>| a.contains_key(k) <==> b.contains_key(k) by {
                    if a.contains_key(k) {
                        let p = position(self.entries@, k);
                        assert(self.entries@[p].0@ == k);
                        assert(entries@[p].0@ == k);
                    }
                    if b.contains_key(k) {
                        let p = position(entries@, k);
                        assert(entries@[p].0@ == k);
                        assert(self.entries@[p].0@ == k);
                    }
                }
                assert forall|k: Seq<char>| #[trigger] a.contains_key(k) implies a[k] == b[k] by {
                    let p = position(self.entries@, k);
                    assert(self.entries@[p].0@ == k);
                    assert(entries@[p].0@ == k);
                    assert(cloned(self.entries@[p].1, entries@[p].1));
                }
                assert(a =~= b);
            }
        }
        Table { entries }
    }
}

impl<V: View> Table<V> {
    #[verifier::type_invariant]
    spec fn inv(self) -> bool {
        distinct(self.entries@)
    }

    /// The keys in the order in which `key_at` gives them.
    pub closed spec fn keys(&self) -> Seq<Seq<char>> {
        key_seq(self.entries@)
    }

    /// A table with no entries.
    pub fn new() -> (r: Self)
        ensures
            r@ == Map::<Seq<char>, V::V>::empty(),
    {
        let r = Table { entries: Vec::new() };
        proof {
            assert(r@ =~= Map::<Seq<char>, V::V>::empty());
        }
        r
    }

    /// The number of entries.
    pub fn len(&self) -> (n: usize)
        ensures
            n == self@.len(),
            n == self.keys().len(),
            self@.dom().finite(),
            enumerates(self.keys(), self@),
    {
        proof {
            use_type_invariant(self);
            lemma_contents(self.entries@);
        }
        self.entries.len()
    }

    /// Whether there are no entries.
    pub fn is_empty(&self) -> (r: bool)
        ensures
            r <==> self@ == Map::<Seq<char>, V::V>::empty(),
    {
        proof {
            use_type_invariant(self);
            lemma_contents(self.entries@);
            if self.entries@.len() == 0 {
                assert(self@ =~= Map::<Seq<char>, V::V>::empty());
            } else {
                assert(self@.contains_key(self.entries@[0].0@));
            }
        }
        self.entries.is_empty()
    }

    /// The key at position `i`.
    pub fn key_at(&self, i: usize) -> (r: &String)
        requires
            i < self.keys().len(),
        ensures
            r@ == self.keys()[i as int],
            self@.contains_key(r@),
    {
        proof {
            use_type_invariant(self);
            lemma_contents(self.entries@);
        }
        &self.entries[i].0
    }

    /// The value at position `i`.
    pub fn value_at(&self, i: usize) -> (r: &V)
        requires
            i < self.keys().len(),
        ensures
            r@ == self@[self.keys()[i as int]],
            self@.contains_key(self.keys()[i as int]),
    {
        proof {
            use_type_invariant(self);
            lemma_contents(self.entries@);
        }
        &self.entries[i].1
    }

    fn find(&self, key: &str) -> (r: Option<usize>)
        ensures
            match r {
                Some(i) => i < self.entries@.len() && self.entries@[i as int].0@ == key@,
                None => !holds(self.entries@, key@),
            },
    {
        let wanted = key.to_owned();
        let mut i: usize = 0;
        while i < self.entries.len()
            invariant
                i <= self.entries@.len(),
                wanted@ == key@,
                forall|j: int| 0 <= j < i ==> (#[trigger] self.entries@[j]).0@ != key@,
            decreases self.entries@.len() - i,
        {
            if self.entries[i].0 == wanted {
                return Some(i);
            }
            i = i + 1;
        }
        None
    }

    /// Whether `key` has a value.
    pub fn contains_key(&self, key: &str) -> (r: bool)
        ensures
            r == self@.contains_key(key@),
    {
        proof {
            use_type_invariant(self);
            lemma_contents(self.entries@);
        }
        self.find(key).is_some()
    }

    /// The value of `key`.
    pub fn get(&self, key: &str) -> (r: Option<&V>)
        ensures
            r is Some <==> self@.contains_key(key@),
            r matches Some(v) ==> v@ == self@[key@],
    {
        proof {
            use_type_invariant(self);
            lemma_contents(self.entries@);
        }
        match self.find(key) {
            Some(i) => Some(&self.entries[i].1),
            None => None,
        }
    }

    /// Gives `key` the value `value`, replacing the value it had.
    pub fn insert(&mut self, key: String, value: V)
        ensures
            final(self)@ == old(self)@.insert(key@, value@),
    {
        proof {
            use_type_invariant(&*self);
            lemma_contents(self.entries@);
        }
        let mut entries: Vec<(String, V)> = Vec::new();
        let found = self.find(key.as_str());
        std::mem::swap(&mut self.entries, &mut entries);
        let ghost before = entries@;
        let ghost k = key@;
        match found {
            Some(i) => {
                entries.set(i, (key, value));
            },
            None => {
                entries.push((key, value));
            },
        }
        proof {
            assert(distinct(entries@));
            lemma_contents(entries@);
            let after = contents(entries@);
            let expected = contents(before).insert(k, value@);
            assert forall|q: Seq<char>| after.contains_key(q) <==> expected.contains_key(q) by {
                if expected.contains_key(q) {
                    if q == k {
                        assert(match found {
                            Some(i) => entries@[i as int].0@ == k,
                            None => entries@[before.len() as int].0@ == k,
                        });
                    } else {
                        let p = position(before, q);
                        assert(before[p].0@ == q);
                        assert(entries@[p].0@ == q);
                    }
                }
                if after.contains_key(q) && q != k {
                    let p = position(entries@, q);
                    assert(entries@[p].0@ == q);
                    assert(before[p].0@ == q);
                }
            }
            assert forall|q: Seq<char>| #[trigger] after.contains_key(q) implies after[q]
                == expected[q] by {
                let p = position(entries@, q);
                assert(entries@[p].0@ == q);
                if q != k {
                    assert(before[p].0@ == q);
                }
            }
            assert(after =~= expected);
        }
        std::mem::swap(&mut self.entries, &mut entries);
    }

    /// Takes out the value of `key`.
    pub fn remove(&mut self, key: &str) -> (r: Option<V>)
        ensures
            final(self)@ == old(self)@.remove(key@),
            r is Some <==> old(self)@.contains_key(key@),
            r matches Some(v) ==> v@ == old(self)@[key@],
    {
        proof {
            use_type_invariant(&*self);
            lemma_contents(self.entries@);
        }
        match self.find(key) {
            Some(i) => {
                let mut entries: Vec<(String, V)> = Vec::new();
                std::mem::swap(&mut self.entries, &mut entries);
                let ghost before = entries@;
                let gone: (String, V) = entries.remove(i);
                proof {
                    assert(distinct(entries@));
                    lemma_contents(entries@);
                    let after = contents(entries@);
                    let expected = contents(before).remove(key@);
                    assert forall|q: Seq<char>| after.contains_key(q) <==> expected.contains_key(
                        q,
                    ) by {
                        if expected.contains_key(q) {
                            let p = position(before, q);
                            assert(before[p].0@ == q);
                            assert(p != i);
                            let s = if p < i { p } else { p - 1 };
                            assert(entries@[s].0@ == q);
                        }
                        if after.contains_key(q) {
                            let p = position(entries@, q);
                            assert(entries@[p].0@ == q);
                            let s = if p < i { p } else { p + 1 };
                            assert(before[s].0@ == q);
                        }
                    }
                    assert forall|q: Seq<char>| #[trigger] after.contains_key(q) implies after[q]
                        == expected[q] by {
                        let p = position(entries@, q);
                        assert(entries@[p].0@ == q);
                        let s = if p < i { p } else { p + 1 };
                        assert(before[s].0@ == q);
                        assert(before[s].1 == entries@[p].1);
                    }
                    assert(after =~= expected);
                }
                std::mem::swap(&mut self.entries, &mut entries);
                Some(gone.1)
            },
            None => {
                proof {
                    assert(self@.remove(key@) =~= self@);
                }
                None
            },
        }
    }

    /// The keys.
    pub(crate) fn key_list(&self) -> (r: Vec<String>)
        ensures
            enumerates(views(r@), self@),
    {
        let every = |v: &V| -> (b: bool)
            ensures
                b == true,
            { true };
        let r = self.keys_where(every, Ghost(|v: V::V| true));
        proof {
            assert(only(self@, |v: V::V| true) =~= self@);
        }
        r
    }

    /// The keys whose values satisfy `p`, which `keep` decides.
    fn keys_where<F: Fn(&V) -> bool>(&self, keep: F, Ghost(p): Ghost<spec_fn(V::V) -> bool>) -> (r:
        Vec<String>)
        requires
            forall|v: &V| #[trigger] keep.requires((v,)),
            forall|v: &V, b: bool| #[trigger] keep.ensures((v,), b) ==> b == p(v@),
        ensures
            enumerates(views(r@), only(self@, p)),
    {
        let mut r: Vec<String> = Vec::new();
        let n: usize = self.len();
        let mut i: usize = 0;
        while i < n
            invariant
                i <= n,
                n == self.keys().len(),
                enumerates(self.keys(), self@),
                forall|v: &V| #[trigger] keep.requires((v,)),
                forall|v: &V, b: bool| #[trigger] keep.ensures((v,), b) ==> b == p(v@),
                views(r@).no_duplicates(),
                forall|j: int|
                    0 <= j < r@.len() ==> self.keys().take(i as int).contains(
                        #[trigger] views(r@)[j],
                    ) && p(self@[views(r@)[j]]),
                forall|q: int|
                    0 <= q < i && p(self@[#[trigger] self.keys()[q]]) ==> views(r@).contains(
                        self.keys()[q],
                    ),
            decreases n - i,
        {
            let ghost before = views(r@);
            proof {
                let shorter = self.keys().take(i as int);
                let longer = self.keys().take(i + 1);
                assert forall|k: Seq<char>| shorter.contains(k) implies longer.contains(k) by {
                    assert(longer[shorter.index_of(k)] == k);
                }
                assert(longer[i as int] == self.keys()[i as int]);
                assert(!shorter.contains(self.keys()[i as int]));
            }
            if keep(self.value_at(i)) {
                r.push(self.key_at(i).clone());
                proof {
                    assert(views(r@) =~= before.push(self.keys()[i as int]));
                    assert forall|q: int| 0 <= q < i + 1 && p(
                        self@[#[trigger] self.keys()[q]],
                    ) implies views(r@).contains(self.keys()[q]) by {
                        if q < i {
                            let w = before.index_of(self.keys()[q]);
                            assert(views(r@)[w] == self.keys()[q]);
                        } else {
                            assert(views(r@)[before.len() as int] == self.keys()[q]);
                        }
                    }
                    assert(views(r@).no_duplicates());
                }
            }
            i = i + 1;
        }
        r
    }

    /// Clones of the values that satisfy `p`, which `keep` decides.
    pub(crate) fn select<F: Fn(&V) -> bool>(
        &self,
        keep: F,
        Ghost(p): Ghost<spec_fn(V::V) -> bool>,
    ) -> (r: Vec<V>) where V: Clone
        requires
            clone_keeps_view::<V>(),
            forall|v: &V| #[trigger] keep.requires((v,)),
            forall|v: &V, b: bool| #[trigger] keep.ensures((v,), b) ==> b == p(v@),
        ensures
            lists(views(r@), only(self@, p)),
    {
        let keys = self.keys_where(keep, Ghost(p));
        let mut r: Vec<V> = Vec::new();
        let mut i: usize = 0;
        while i < keys.len()
            invariant
                i <= keys@.len(),
                i == r@.len(),
                clone_keeps_view::<V>(),
                enumerates(views(keys@), only(self@, p)),
                forall|j: int| 0 <= j < i ==> #[trigger] views(r@)[j] == self@[views(keys@)[j]],
            decreases keys@.len() - i,
        {
            let ghost before = r@;
            assert(only(self@, p).contains_key(views(keys@)[i as int]));
            match self.get(keys[i].as_str()) {
                Some(v) => {
                    let copy = v.clone();
                    assert(cloned(*v, copy));
                    r.push(copy);
                },
                None => {},
            }
            proof {
                assert forall|j: int| 0 <= j < i + 1 implies #[trigger] views(r@)[j]
                    == self@[views(keys@)[j]] by {
                    if j < i {
                        assert(views(before)[j] == views(r@)[j]);
                    }
                }
            }
            i = i + 1;
        }
        proof {
            assert(lists_by(views(r@), views(keys@), only(self@, p)));
        }
        r
    }

    /// Clones of all the values.
    pub(crate) fn values(&self) -> (r: Vec<V>) where V: Clone
        requires
            clone_keeps_view::<V>(),
        ensures
            lists(views(r@), self@),
    {
        let every = |v: &V| -> (b: bool)
            ensures
                b == true,
            { true };
        let r = self.select(every, Ghost(|v: V::V| true));
        proof {
            assert(only(self@, |v: V::V| true) =~= self@);
        }
        r
    }

    /// Keeps only the entries whose values satisfy `p`, which `keep` decides.
    pub(crate) fn retain<F: Fn(&V) -> bool>(
        &mut self,
        keep: F,
        Ghost(p): Ghost<spec_fn(V::V) -> bool>,
    )
        requires
            forall|v: &V| #[trigger] keep.requires((v,)),
            forall|v: &V, b: bool| #[trigger] keep.ensures((v,), b) ==> b == p(v@),
        ensures
            final(self)@ == only(old(self)@, p),
    {
        let ghost start = self@;
        let ghost unwanted = |v: V::V| !p(v);
        let drop_it = |v: &V| -> (b: bool)
            ensures
                b == !p(v@),
            { !keep(v) };
        let keys = self.keys_where(drop_it, Ghost(unwanted));
        let mut i: usize = 0;
        while i < keys.len()
            invariant
                i <= keys@.len(),
                enumerates(views(keys@), only(start, unwanted)),
                unwanted == (|v: V::V| !p(v)),
                forall|k: Seq<char>| #[trigger]
                    self@.contains_key(k) ==> start.contains_key(k) && self@[k] == start[k],
                forall|k: Seq<char>|
                    start.contains_key(k) ==> (#[trigger] self@.contains_key(k) || exists|j: int|
                        0 <= j < i && #[trigger] views(keys@)[j] == k),
                forall|j: int|
                    0 <= j < i ==> !self@.contains_key(#[trigger] views(keys@)[j]),
            decreases keys@.len() - i,
        {
            let ghost before = self@;
            assert(keys@[i as int]@ == views(keys@)[i as int]);
            let _ = self.remove(keys[i].as_str());
            i = i + 1;
        }
        proof {
            let goal = only(start, p);
            assert forall|k: Seq<char>| self@.contains_key(k) <==> goal.contains_key(k) by {
                if self@.contains_key(k) && !p(start[k]) {
                    assert(only(start, unwanted).contains_key(k));
                    let j = views(keys@).index_of(k);
                    assert(views(keys@)[j] == k);
                }
                if goal.contains_key(k) && !self@.contains_key(k) {
                    let j = choose|j: int| 0 <= j < i && #[trigger] views(keys@)[j] == k;
                    assert(only(start, unwanted).contains_key(views(keys@)[j]));
                }
            }
            assert(self@.dom() =~= goal.dom());
            assert forall|k: Seq<char>| self@.contains_key(k) implies self@[k] == goal[k] by {}
            assert(self@ =~= goal);
        }
    }
}

/// Some key of the map has this value.
pub open spec fn is_value<V>(m: Map<Seq<char>, V>, v: V) -> bool {
    exists|k: Seq<char>| #[trigger] m.contains_key(k) && m[k] == v
}

/// A listing has as many items as the map has keys, holds the value of every key, and
/// nothing else.
pub proof fn a_listing_holds_every_value<V>(items: Seq<V>, m: Map<Seq<char>, V>)
    requires
        lists(items, m),
    ensures
        items.len() == m.dom().len(),
        m.dom().finite(),
        forall|k: Seq<char>| #[trigger] m.contains_key(k) ==> items.contains(m[k]),
        forall|i: int| 0 <= i < items.len() ==> is_value(m, #[trigger] items[i]),
{
    let keys = choose|keys: Seq<Seq<char>>| #[trigger] lists_by(items, keys, m);
    assert(keys.to_set() =~= m.dom());
    keys.unique_seq_to_set();
    vstd::seq_lib::seq_to_set_is_finite(keys);
    assert forall|k: Seq<char>| #[trigger] m.contains_key(k) implies items.contains(m[k]) by {
        let i = keys.index_of(k);
        assert(items[i] == m[k]);
    }
    assert forall|i: int| 0 <= i < items.len() implies is_value(m, #[trigger] items[i]) by {
        assert(m.contains_key(keys[i]));
    }
}

/// A listing of the values that satisfy `keep` holds every value of the map that does,
/// and only those.
pub proof fn a_selection_holds_what_is_kept<V>(
    items: Seq<V>,
    m: Map<Seq<char>, V>,
    keep: spec_fn(V) -> bool,
)
    requires
        lists(items, only(m, keep)),
    ensures
        forall|k: Seq<char>| #[trigger]
            m.contains_key(k) && keep(m[k]) ==> items.contains(m[k]),
        forall|i: int|
            0 <= i < items.len() ==> keep(#[trigger] items[i]) && is_value(m, items[i]),
{
    let kept = only(m, keep);
    let keys = choose|keys: Seq<Seq<char>>| #[trigger] lists_by(items, keys, kept);
    assert forall|k: Seq<char>| #[trigger] m.contains_key(k) && keep(m[k]) implies items.contains(
        m[k],
    ) by {
        assert(kept.contains_key(k));
        let i = keys.index_of(k);
        assert(items[i] == kept[k]);
    }
    assert forall|i: int| 0 <= i < items.len() implies keep(#[trigger] items[i]) && is_value(
        m,
        items[i],
    ) by {
        assert(kept.contains_key(keys[i]));
        assert(m.contains_key(keys[i]));
    }
}

/// Views keep what they are of: as many items, in the same places; a value, or an error,
/// as itself.
pub proof fn views_keep_what_they_are_of<T: View, E: View>(
    items: Seq<T>,
    i: int,
    t: T,
    e: E,
)
    requires
        0 <= i < items.len(),
    ensures
        views(items).len() == items.len(),
        views(items)[i] == items[i]@,
        opt_view(Some(t)) == Some(t@),
        opt_view(None::<T>) is None,
        result_view(Ok::<T, E>(t)) == Ok::<T::V, E::V>(t@),
        result_view(Err::<T, E>(e)) == Err::<T::V, E::V>(e@),
{
}

} // verus!
