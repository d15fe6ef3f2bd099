//! A collection of records identified by a string key, each key at most once.
//! Its view is the map from keys to records; the records also keep an order
//! (insertion order, except that removal moves the last record into the gap).
use vstd::prelude::*;
use crate::text::{str_eq, owned};

verus! {

/// A record that carries its own string key.
pub trait Keyed {
    spec fn key_view(&self) -> Seq<char>;

    fn key_str(&self) -> (r: &str)
        ensures
            r@ == self.key_view();
}

/// A string is its own key.
impl Keyed for String {
    open spec fn key_view(&self) -> Seq<char> {
        self@
    }

    fn key_str(&self) -> (r: &str) {
        self.as_str()
    }
}

/// No key occurs twice in `s`.
pub open spec fn unique_keys<V: Keyed>(s: Seq<V>) -> bool {
    forall|i: int, j: int| 0 <= i < s.len() && 0 <= j < s.len() && i != j ==> #[trigger] s[i].key_view() != #[trigger] s[j].key_view()
}

/// Some record of `s` has key `k`.
pub open spec fn has_key<V: Keyed>(s: Seq<V>, k: Seq<char>) -> bool {
    exists|i: int| 0 <= i < s.len() && #[trigger] s[i].key_view() == k
}

/// The map from each key to the record that carries it.
pub open spec fn map_of<V: Keyed>(s: Seq<V>) -> Map<Seq<char>, V> {
    Map::new(
        |k: Seq<char>| has_key(s, k),
        |k: Seq<char>| s[choose|i: int| 0 <= i < s.len() && #[trigger] s[i].key_view() == k],
    )
}

/// Records keyed by string, each key at most once.
pub struct Store<V: Keyed> {
    items: Vec<V>,
}

impl<V: Keyed> Store<V> {
    #[verifier::type_invariant]
    spec fn inv(&self) -> bool {
        unique_keys(self.items@)
    }

    /// The records in their current order.
    pub closed spec fn items(&self) -> Seq<V> {
        self.items@
    }

    /// The map from keys to records.
    pub open spec fn map(&self) -> Map<Seq<char>, V> {
        map_of(self.items())
    }

    /// Facts about the records: distinct keys, and each record is what the map
    /// gives for its key. Calling it costs nothing at run time.
    pub fn facts(&self)
        ensures
            unique_keys(self.items()),
            forall|i: int| 0 <= i < self.items().len() ==> #[trigger] self.map().dom().contains(self.items()[i].key_view())
                && self.map()[self.items()[i].key_view()] == self.items()[i],
            forall|k: Seq<char>| #[trigger] self.map().dom().contains(k) <==> has_key(self.items(), k),
            self.map().dom().finite(),
            self.map().dom().len() == self.items().len(),
            forall|k: Seq<char>| #[trigger] self.map().dom().contains(k) ==> self.map()[k].key_view() == k,
    {
        proof {
            use_type_invariant(self);
            lemma_map_of_len(self.items());
            assert forall|k: Seq<char>| #[trigger] self.map().dom().contains(k) implies self.map()[k].key_view() == k by {
                let i = choose|i: int| 0 <= i < self.items().len() && #[trigger] self.items()[i].key_view() == k;
                assert(self.items()[i].key_view() == k);
            }
            assert forall|i: int| 0 <= i < self.items().len() implies #[trigger] self.map().dom().contains(self.items()[i].key_view())
                && self.map()[self.items()[i].key_view()] == self.items()[i] by {
                lemma_map_of_index(self.items(), i);
            }
        }
    }

    /// An empty collection.
    pub fn new() -> (s: Self)
        ensures
            s.items() == Seq::<V>::empty(),
            s.map() == Map::<Seq<char>, V>::empty(),
    {
        let s = Store { items: Vec::new() };
        assert(s.map() =~= Map::<Seq<char>, V>::empty());
        s
    }

    /// The number of records.
    pub fn len(&self) -> (n: usize)
        ensures
            n == self.items().len(),
    {
        self.items.len()
    }

    /// The records in order.
    pub fn as_vec(&self) -> (v: &Vec<V>)
        ensures
            v@ == self.items(),
    {
        &self.items
    }

    /// The position of the record with key `k`, if any.
    pub fn find(&self, k: &str) -> (r: Option<usize>)
        ensures
            r matches Some(i) ==> i < self.items().len() && self.items()[i as int].key_view() == k@,
            r is None <==> !self.map().dom().contains(k@),
    {
        let n = self.items.len();
        let mut i: usize = 0;
        while i < n
            invariant
                n == self.items@.len(),
                i <= n,
                forall|j: int| 0 <= j < i ==> #[trigger] self.items@[j].key_view() != k@,
            decreases n - i,
        {
            if str_eq(self.items[i].key_str(), k) {
                return Some(i);
            }
            i = i + 1;
        }
        None
    }

    /// The record with key `k`, if any.
    pub fn get(&self, k: &str) -> (r: Option<&V>)
        ensures
            match r {
                Some(v) => self.map().dom().contains(k@) && self.map()[k@] == *v,
                None => !self.map().dom().contains(k@),
            },
    {
        match self.find(k) {
            Some(i) => {
                proof { use_type_invariant(self); lemma_map_of_index(self.items@, i as int); }
                Some(&self.items[i])
            }
            None => None,
        }
    }

    /// Puts `v` in place of the record with the same key, or appends it.
    pub fn upsert(&mut self, v: V)
        ensures
            final(self).map() == old(self).map().insert(v.key_view(), v),
            old(self).map().dom().contains(v.key_view()) ==> final(self).items().len() == old(self).items().len(),
            !old(self).map().dom().contains(v.key_view()) ==> final(self).items() == old(self).items().push(v),
    {
        proof { use_type_invariant(&*self); }
        let ghost old_items = self.items@;
        match self.find(v.key_str()) {
            Some(i) => {
                let ghost k = v.key_view();
                let mut items: Vec<V> = Vec::new();
                std::mem::swap(&mut items, &mut self.items);
                items.set(i, v);
                proof {
                    lemma_map_of_set(old_items, i as int, items@[i as int]);
                }
                self.items = items;
            }
            None => {
                let mut items: Vec<V> = Vec::new();
                std::mem::swap(&mut items, &mut self.items);
                let ghost pushed = v;
                items.push(v);
                proof {
                    lemma_map_of_push(old_items, pushed);
                }
                self.items = items;
            }
        }
    }

    /// Takes out the record with key `k`, if any; the last record moves into its place.
    pub fn remove(&mut self, k: &str) -> (r: Option<V>)
        ensures
            final(self).map() == old(self).map().remove(k@),
            match r {
                Some(v) => old(self).map().dom().contains(k@) && old(self).map()[k@] == v,
                None => !old(self).map().dom().contains(k@),
            },
            final(self).items().len() == old(self).items().len() - (if r is Some { 1int } else { 0int }),
            r is None ==> *final(self) == *old(self),
    {
        proof { use_type_invariant(&*self); }
        let ghost old_items = self.items@;
        match self.find(k) {
            Some(i) => {
                proof { lemma_map_of_index(old_items, i as int); }
                let mut items: Vec<V> = Vec::new();
                std::mem::swap(&mut items, &mut self.items);
                let v = items.swap_remove(i);
                proof {
                    lemma_map_of_swap_remove(old_items, i as int, items@);
                }
                self.items = items;
                Some(v)
            }
            None => {
                assert(old(self).map().remove(k@) =~= old(self).map());
                None
            }
        }
    }

    /// Removes every record.
    pub fn clear(&mut self)
        ensures
            final(self).items() == Seq::<V>::empty(),
            final(self).map() == Map::<Seq<char>, V>::empty(),
    {
        self.items = Vec::new();
        assert(self.map() =~= Map::<Seq<char>, V>::empty());
    }

    /// The records, in order, giving up the collection.
    pub fn into_vec(self) -> (v: Vec<V>)
        ensures
            v@ == self.items(),
            unique_keys(v@),
    {
        proof { use_type_invariant(&self); }
        self.items
    }

    /// Replaces the records by `items`, whose keys must be distinct.
    pub fn from_vec(items: Vec<V>) -> (s: Self)
        requires
            unique_keys(items@),
        ensures
            s.items() == items@,
    {
        Store { items }
    }
}

/// A key and how many times it was counted.
pub struct CountEntry {
    pub key: String,
    pub count: usize,
}

impl Keyed for CountEntry {
    open spec fn key_view(&self) -> Seq<char> {
        self.key@
    }

    fn key_str(&self) -> (r: &str) {
        self.key.as_str()
    }
}

/// Adds one to the count of `key`, starting it at one.
pub fn bump_count(counts: &mut Store<CountEntry>, key: &str)
    requires
        old(counts).map().dom().contains(key@) ==> old(counts).map()[key@].count < usize::MAX,
    ensures
        final(counts).map().dom() == old(counts).map().dom().insert(key@),
        final(counts).map()[key@].count == if old(counts).map().dom().contains(key@) {
            old(counts).map()[key@].count + 1
        } else {
            1
        },
        forall|k: Seq<char>| k != key@ && #[trigger] old(counts).map().dom().contains(k) ==> final(counts).map()[k] == old(counts).map()[k],
{
    match counts.remove(key) {
        Some(e) => {
            counts.upsert(CountEntry { key: e.key, count: e.count + 1 });
        }
        None => {
            counts.upsert(CountEntry { key: owned(key), count: 1 });
        }
    }
}

pub proof fn lemma_map_of_index<V: Keyed>(s: Seq<V>, i: int)
    requires
        unique_keys(s),
        0 <= i < s.len(),
    ensures
        map_of(s).dom().contains(s[i].key_view()),
        map_of(s)[s[i].key_view()] == s[i],
{
    let k = s[i].key_view();
    assert(has_key(s, k));
    let j = choose|j: int| 0 <= j < s.len() && #[trigger] s[j].key_view() == k;
    assert(j == i);
}

/// Each record of the map of a store is stored under its own key.
pub proof fn lemma_store_keys<V: Keyed>(st: Store<V>)
    ensures
        forall|k: Seq<char>| #[trigger] st.map().dom().contains(k) ==> st.map()[k].key_view() == k,
{
    let s = st.items();
    assert forall|k: Seq<char>| #[trigger] st.map().dom().contains(k) implies st.map()[k].key_view() == k by {
        let i = choose|i: int| 0 <= i < s.len() && #[trigger] s[i].key_view() == k;
        assert(s[i].key_view() == k);
    }
}

/// With distinct keys, there are as many keys as records.
pub proof fn lemma_map_of_len<V: Keyed>(s: Seq<V>)
    requires
        unique_keys(s),
    ensures
        map_of(s).dom().finite(),
        map_of(s).dom().len() == s.len(),
    decreases s.len(),
{
    if s.len() == 0 {
        assert(map_of(s).dom() =~= Set::<Seq<char>>::empty());
    } else {
        let t = s.drop_last();
        let last = s.len() - 1;
        assert forall|a: int, b: int| 0 <= a < t.len() && 0 <= b < t.len() && a != b implies #[trigger] t[a].key_view() != #[trigger] t[b].key_view() by {
            assert(s[a].key_view() != s[b].key_view());
        }
        lemma_map_of_len(t);
        let k0 = s[last].key_view();
        assert forall|k: Seq<char>| has_key(s, k) <==> (has_key(t, k) || k == k0) by {
            if has_key(s, k) {
                let j = choose|j: int| 0 <= j < s.len() && #[trigger] s[j].key_view() == k;
                if j < last {
                    assert(t[j].key_view() == k);
                }
            }
            if has_key(t, k) {
                let j = choose|j: int| 0 <= j < t.len() && #[trigger] t[j].key_view() == k;
                assert(s[j].key_view() == k);
            }
            if k == k0 {
                assert(s[last].key_view() == k);
            }
        }
        assert(map_of(s).dom() =~= map_of(t).dom().insert(k0));
        if has_key(t, k0) {
            let j = choose|j: int| 0 <= j < t.len() && #[trigger] t[j].key_view() == k0;
            assert(s[j].key_view() == s[last].key_view());
        }
    }
}

proof fn lemma_map_of_set<V: Keyed>(s: Seq<V>, i: int, v: V)
    requires
        unique_keys(s),
        0 <= i < s.len(),
        s[i].key_view() == v.key_view(),
    ensures
        unique_keys(s.update(i, v)),
        map_of(s.update(i, v)) == map_of(s).insert(v.key_view(), v),
{
    let t = s.update(i, v);
    assert forall|a: int, b: int| 0 <= a < t.len() && 0 <= b < t.len() && a != b implies #[trigger] t[a].key_view() != #[trigger] t[b].key_view() by {
        assert(s[a].key_view() != s[b].key_view());
    }
    let m1 = map_of(t);
    let m2 = map_of(s).insert(v.key_view(), v);
    assert forall|k: Seq<char>| m1.dom().contains(k) <==> m2.dom().contains(k) by {
        if has_key(s, k) {
            let j = choose|j: int| 0 <= j < s.len() && #[trigger] s[j].key_view() == k;
            assert(t[j].key_view() == k);
        }
        if has_key(t, k) {
            let j = choose|j: int| 0 <= j < t.len() && #[trigger] t[j].key_view() == k;
            assert(s[j].key_view() == k);
        }
    }
    assert forall|k: Seq<char>| m1.dom().contains(k) implies m1[k] == m2[k] by {
        let j = choose|j: int| 0 <= j < t.len() && #[trigger] t[j].key_view() == k;
        lemma_map_of_index(t, j);
        if k != v.key_view() {
            assert(s[j].key_view() == k);
            lemma_map_of_index(s, j);
        }
    }
    assert(m1 =~= m2);
}

proof fn lemma_map_of_push<V: Keyed>(s: Seq<V>, v: V)
    requires
        unique_keys(s),
        !has_key(s, v.key_view()),
    ensures
        unique_keys(s.push(v)),
        map_of(s.push(v)) == map_of(s).insert(v.key_view(), v),
{
    let t = s.push(v);
    assert forall|a: int, b: int| 0 <= a < t.len() && 0 <= b < t.len() && a != b implies #[trigger] t[a].key_view() != #[trigger] t[b].key_view() by {
        if a < s.len() && b < s.len() {
            assert(s[a].key_view() != s[b].key_view());
        } else if a < s.len() {
            assert(t[a] == s[a]);
        } else {
            assert(t[b] == s[b]);
        }
    }
    let m1 = map_of(t);
    let m2 = map_of(s).insert(v.key_view(), v);
    assert forall|k: Seq<char>| m1.dom().contains(k) <==> m2.dom().contains(k) by {
        if has_key(s, k) {
            let j = choose|j: int| 0 <= j < s.len() && #[trigger] s[j].key_view() == k;
            assert(t[j].key_view() == k);
        }
        if k == v.key_view() {
            assert(t[s.len() as int].key_view() == k);
        }
        if has_key(t, k) {
            let j = choose|j: int| 0 <= j < t.len() && #[trigger] t[j].key_view() == k;
            if j < s.len() {
                assert(s[j].key_view() == k);
            }
        }
    }
    assert forall|k: Seq<char>| m1.dom().contains(k) implies m1[k] == m2[k] by {
        let j = choose|j: int| 0 <= j < t.len() && #[trigger] t[j].key_view() == k;
        lemma_map_of_index(t, j);
        if j < s.len() {
            assert(s[j].key_view() == k);
            lemma_map_of_index(s, j);
        }
    }
    assert(m1 =~= m2);
}

proof fn lemma_map_of_swap_remove<V: Keyed>(s: Seq<V>, i: int, t: Seq<V>)
    requires
        unique_keys(s),
        0 <= i < s.len(),
        t == s.update(i, s.last()).drop_last(),
    ensures
        unique_keys(t),
        map_of(t) == map_of(s).remove(s[i].key_view()),
{
    let last = s.len() - 1;
    assert forall|a: int, b: int| 0 <= a < t.len() && 0 <= b < t.len() && a != b implies #[trigger] t[a].key_view() != #[trigger] t[b].key_view() by {
        let a2 = if a == i { last } else { a };
        let b2 = if b == i { last } else { b };
        assert(t[a] == s[a2]);
        assert(t[b] == s[b2]);
        assert(s[a2].key_view() != s[b2].key_view());
    }
    let k0 = s[i].key_view();
    let m1 = map_of(t);
    let m2 = map_of(s).remove(k0);
    assert forall|k: Seq<char>| m1.dom().contains(k) <==> m2.dom().contains(k) by {
        if has_key(t, k) {
            let j = choose|j: int| 0 <= j < t.len() && #[trigger] t[j].key_view() == k;
            let j2 = if j == i { last } else { j };
            assert(t[j] == s[j2]);
            assert(s[j2].key_view() == k);
            assert(j2 != i);
        }
        if has_key(s, k) && k != k0 {
            let j = choose|j: int| 0 <= j < s.len() && #[trigger] s[j].key_view() == k;
            assert(j != i);
            if j == last {
                assert(t[i] == s[last]);
                assert(t[i].key_view() == k);
            } else {
                assert(t[j] == s[j]);
                assert(t[j].key_view() == k);
            }
        }
    }
    assert forall|k: Seq<char>| m1.dom().contains(k) implies m1[k] == m2[k] by {
        let j = choose|j: int| 0 <= j < t.len() && #[trigger] t[j].key_view() == k;
        lemma_map_of_index(t, j);
        let j2 = if j == i { last } else { j };
        assert(t[j] == s[j2]);
        lemma_map_of_index(s, j2);
    }
    assert(m1 =~= m2);
}

} // verus!
