//! A map from texts, or pairs of texts, to values, held as a list of entries
//! no two of which share a key.

use vstd::prelude::*;

verus! {

/// Keys that are compared by the characters they hold.
pub trait TextKey: View + Sized {
    fn same_key(&self, other: &Self) -> (r: bool)
        ensures
            r == (self@ == other@),
    ;
}

impl TextKey for String {
    fn same_key(&self, other: &Self) -> (r: bool) {
        *self == *other
    }
}

impl TextKey for (String, String) {
    fn same_key(&self, other: &Self) -> (r: bool) {
        self.0 == other.0 && self.1 == other.1
    }
}

/// `k` is the key of some entry.
pub open spec fn has_key<K: View, T>(entries: Seq<(K, T)>, k: K::V) -> bool {
    exists|i: int| 0 <= i < entries.len() && #[trigger] entries[i].0@ == k
}

/// The place of the entry with key `k`.
pub open spec fn place_of<K: View, T>(entries: Seq<(K, T)>, k: K::V) -> int {
    choose|i: int| 0 <= i < entries.len() && #[trigger] entries[i].0@ == k
}

/// No two entries share a key.
pub open spec fn keys_distinct<K: View, T>(entries: Seq<(K, T)>) -> bool {
    forall|i: int, j: int|
        0 <= i < j < entries.len() ==> #[trigger] entries[i].0@ != #[trigger] entries[j].0@
}

/// The map that a list of entries stands for.
pub open spec fn as_map<K: View, T>(entries: Seq<(K, T)>) -> Map<K::V, T> {
    Map::new(|k: K::V| has_key(entries, k), |k: K::V| entries[place_of(entries, k)].1)
}

/// `pairs` names every key of `m` exactly once, each with its value.
pub open spec fn is_listing<KV, T>(pairs: Seq<(KV, T)>, m: Map<KV, T>) -> bool {
    &&& forall|i: int, j: int| 0 <= i < j < pairs.len() ==> (#[trigger] pairs[i]).0 != (#[trigger] pairs[j]).0
    &&& forall|i: int|
        0 <= i < pairs.len() ==> m.contains_key((#[trigger] pairs[i]).0) && m[pairs[i].0] == pairs[i].1
    &&& forall|k: KV| #[trigger]
        m.contains_key(k) ==> exists|i: int| 0 <= i < pairs.len() && (#[trigger] pairs[i]).0 == k
}

/// A listing is as long as the map is large.
pub proof fn lemma_listing_len<KV, T>(pairs: Seq<(KV, T)>, m: Map<KV, T>)
    requires
        is_listing(pairs, m),
    ensures
        m.dom().finite(),
        m.dom().len() == pairs.len(),
    decreases pairs.len(),
{
    if pairs.len() == 0 {
        assert(m.dom() =~= Set::<KV>::empty());
    } else {
        let shorter = pairs.drop_last();
        let k = pairs.last().0;
        let rest = m.remove(k);
        assert(pairs[pairs.len() - 1].0 == k);
        assert forall|i: int| 0 <= i < shorter.len() implies rest.contains_key((#[trigger] shorter[i]).0)
            && rest[shorter[i].0] == shorter[i].1 by {
            assert(pairs[i].0 != pairs[pairs.len() - 1].0);
        }
        assert forall|x: KV| #[trigger] rest.contains_key(x) implies exists|i: int|
            0 <= i < shorter.len() && (#[trigger] shorter[i]).0 == x by {
            assert(m.contains_key(x));
            let i = choose|i: int| 0 <= i < pairs.len() && (#[trigger] pairs[i]).0 == x;
            assert(shorter[i].0 == x);
        }
        assert forall|i: int, j: int| 0 <= i < j < shorter.len() implies (#[trigger] shorter[i]).0 != (
        #[trigger] shorter[j]).0 by {
            assert(pairs[i].0 != pairs[j].0);
        }
        lemma_listing_len(shorter, rest);
        assert(m.dom() =~= rest.dom().insert(k));
    }
}

/// A map keyed by texts. Entries keep the order in which their keys first
/// arrived.
pub struct KeyedList<K: TextKey, T> {
    entries: Vec<(K, T)>,
}

impl<K: TextKey, T> View for KeyedList<K, T> {
    type V = Map<K::V, T>;

    closed spec fn view(&self) -> Map<K::V, T> {
        as_map(self.entries@)
    }
}

impl<K: TextKey, T> KeyedList<K, T> {
    #[verifier::type_invariant]
    spec fn distinct(self) -> bool {
        keys_distinct(self.entries@)
    }

    /// The entries in the order they are held.
    pub closed spec fn pairs(self) -> Seq<(K::V, T)> {
        Seq::new(self.entries@.len(), |i: int| (self.entries@[i].0@, self.entries@[i].1))
    }

    pub fn new() -> (r: Self)
        ensures
            r@ == Map::<K::V, T>::empty(),
    {
        let r = KeyedList { entries: Vec::new() };
        assert(r@ =~= Map::<K::V, T>::empty());
        r
    }

    /// The number of entries.
    pub fn len(&self) -> (n: usize)
        ensures
            n == self.pairs().len(),
            is_listing(self.pairs(), self@),
    {
        proof {
            use_type_invariant(self);
            self.lemma_listing();
        }
        self.entries.len()
    }

    proof fn lemma_listing(&self)
        requires
            keys_distinct(self.entries@),
        ensures
            is_listing(self.pairs(), self@),
    {
        let e = self.entries@;
        let p = self.pairs();
        assert forall|i: int, j: int| 0 <= i < j < p.len() implies (#[trigger] p[i]).0 != (#[trigger] p[j]).0 by {
            assert(e[i].0@ != e[j].0@);
        }
        assert forall|i: int| 0 <= i < p.len() implies self@.contains_key((#[trigger] p[i]).0)
            && self@[p[i].0] == p[i].1 by {
            lemma_place(e, i);
        }
        assert forall|k: K::V| #[trigger] self@.contains_key(k) implies exists|i: int|
            0 <= i < p.len() && (#[trigger] p[i]).0 == k by {
            let i = place_of(e, k);
            assert(p[i].0 == k);
        }
    }

    /// The key and value of the `i`-th entry.
    pub fn at(&self, i: usize) -> (r: (&K, &T))
        requires
            i < self.pairs().len(),
        ensures
            (r.0@, *r.1) == self.pairs()[i as int],
    {
        (&self.entries[i].0, &self.entries[i].1)
    }

    /// The place of a key, or the number of entries if it is absent.
    fn find(&self, key: &K) -> (i: usize)
        ensures
            i <= self.entries@.len(),
            i < self.entries@.len() ==> self.entries@[i as int].0@ == key@,
            i == self.entries@.len() ==> !has_key(self.entries@, key@),
    {
        let mut i: usize = 0;
        while i < self.entries.len()
            invariant
                i <= self.entries@.len(),
                forall|j: int| 0 <= j < i ==> #[trigger] self.entries@[j].0@ != key@,
            decreases self.entries@.len() - i,
        {
            if self.entries[i].0.same_key(key) {
                return i;
            }
            i = i + 1;
        }
        i
    }

    pub fn contains(&self, key: &K) -> (r: bool)
        ensures
            r == self@.contains_key(key@),
    {
        let i: usize = self.find(key);
        i < self.entries.len()
    }

    pub fn get(&self, key: &K) -> (r: Option<&T>)
        ensures
            match r {
                Some(v) => self@.contains_key(key@) && *v == self@[key@],
                None => !self@.contains_key(key@),
            },
    {
        let i: usize = self.find(key);
        if i < self.entries.len() {
            proof {
                use_type_invariant(self);
                lemma_place(self.entries@, i as int);
            }
            Some(&self.entries[i].1)
        } else {
            None
        }
    }

    /// Binds `key` to `value`, replacing an earlier binding.
    pub fn insert(&mut self, key: K, value: T)
        ensures
            final(self)@ == old(self)@.insert(key@, value),
    {
        proof {
            use_type_invariant(&*self);
        }
        let ghost k = key@;
        let i: usize = self.find(&key);
        let ghost before = self.entries@;
        let mut entries: Vec<(K, T)> = Vec::new();
        core::mem::swap(&mut entries, &mut self.entries);
        if i < entries.len() {
            entries.set(i, (key, value));
            proof {
                lemma_replaced(before, i as int, (key, value));
            }
        } else {
            entries.push((key, value));
            proof {
                lemma_appended(before, (key, value));
            }
        }
        self.entries = entries;
    }

    /// Forgets `key`. Returns whether it was bound.
    pub fn remove(&mut self, key: &K) -> (r: bool)
        ensures
            r == old(self)@.contains_key(key@),
            final(self)@ == old(self)@.remove(key@),
    {
        proof {
            use_type_invariant(&*self);
        }
        let i: usize = self.find(key);
        let ghost before = self.entries@;
        let mut entries: Vec<(K, T)> = Vec::new();
        core::mem::swap(&mut entries, &mut self.entries);
        let found = i < entries.len();
        if found {
            let _ = entries.remove(i);
            proof {
                lemma_removed(before, i as int);
            }
        } else {
            assert(as_map(before).remove(key@) =~= as_map(before));
        }
        self.entries = entries;
        found
    }
}

proof fn lemma_place<K: View, T>(e: Seq<(K, T)>, i: int)
    requires
        keys_distinct(e),
        0 <= i < e.len(),
    ensures
        as_map(e).contains_key(e[i].0@),
        as_map(e)[e[i].0@] == e[i].1,
{
    let k = e[i].0@;
    assert(has_key(e, k));
    let j = place_of(e, k);
    assert(e[j].0@ == k);
    if j < i {
        assert(e[j].0@ != e[i].0@);
    } else if i < j {
        assert(e[i].0@ != e[j].0@);
    }
}

proof fn lemma_replaced<K: View, T>(e: Seq<(K, T)>, i: int, x: (K, T))
    requires
        keys_distinct(e),
        0 <= i < e.len(),
        x.0@ == e[i].0@,
    ensures
        keys_distinct(e.update(i, x)),
        as_map(e.update(i, x)) == as_map(e).insert(x.0@, x.1),
{
    let f = e.update(i, x);
    assert forall|a: int, b: int| 0 <= a < b < f.len() implies #[trigger] f[a].0@ != #[trigger] f[b].0@ by {
        assert(e[a].0@ != e[b].0@);
    }
    assert forall|k: K::V| as_map(f).contains_key(k) == #[trigger] as_map(e).insert(x.0@, x.1).contains_key(k) by {
        if has_key(f, k) {
            let p = place_of(f, k);
            assert(e[p].0@ == k);
        }
        if has_key(e, k) {
            let p = place_of(e, k);
            assert(f[p].0@ == k);
        }
        assert(f[i].0@ == x.0@);
    }
    assert forall|k: K::V| #[trigger] as_map(f).contains_key(k) implies as_map(f)[k] == as_map(e).insert(x.0@, x.1)[k] by {
        let p = place_of(f, k);
        lemma_place(f, p);
        lemma_place(e, p);
        if k == x.0@ {
            lemma_place(f, i);
        }
    }
    assert(as_map(f) =~= as_map(e).insert(x.0@, x.1));
}

proof fn lemma_appended<K: View, T>(e: Seq<(K, T)>, x: (K, T))
    requires
        keys_distinct(e),
        !has_key(e, x.0@),
    ensures
        keys_distinct(e.push(x)),
        as_map(e.push(x)) == as_map(e).insert(x.0@, x.1),
{
    let f = e.push(x);
    assert forall|a: int, b: int| 0 <= a < b < f.len() implies #[trigger] f[a].0@ != #[trigger] f[b].0@ by {
        if b < e.len() {
            assert(e[a].0@ != e[b].0@);
        } else {
            assert(e[a].0@ != x.0@);
        }
    }
    assert forall|k: K::V| as_map(f).contains_key(k) == #[trigger] as_map(e).insert(x.0@, x.1).contains_key(k) by {
        if has_key(f, k) {
            let p = place_of(f, k);
            if p < e.len() {
                assert(e[p].0@ == k);
            }
        }
        if has_key(e, k) {
            let p = place_of(e, k);
            assert(f[p].0@ == k);
        }
        assert(f[e.len() as int].0@ == x.0@);
    }
    assert forall|k: K::V| #[trigger] as_map(f).contains_key(k) implies as_map(f)[k] == as_map(e).insert(x.0@, x.1)[k] by {
        let p = place_of(f, k);
        lemma_place(f, p);
        if p < e.len() {
            lemma_place(e, p);
        }
    }
    assert(as_map(f) =~= as_map(e).insert(x.0@, x.1));
}

proof fn lemma_removed<K: View, T>(e: Seq<(K, T)>, i: int)
    requires
        keys_distinct(e),
        0 <= i < e.len(),
    ensures
        keys_distinct(e.remove(i)),
        as_map(e.remove(i)) == as_map(e).remove(e[i].0@),
{
    let f = e.remove(i);
    assert forall|a: int, b: int| 0 <= a < b < f.len() implies #[trigger] f[a].0@ != #[trigger] f[b].0@ by {
        let a1 = if a < i { a } else { a + 1 };
        let b1 = if b < i { b } else { b + 1 };
        assert(e[a1].0@ != e[b1].0@);
    }
    assert forall|k: K::V| as_map(f).contains_key(k) == #[trigger] as_map(e).remove(e[i].0@).contains_key(k) by {
        if has_key(f, k) {
            let p = place_of(f, k);
            let q = if p < i { p } else { p + 1 };
            assert(e[q].0@ == k);
            if q < i {
                assert(e[q].0@ != e[i].0@);
            } else {
                assert(e[i].0@ != e[q].0@);
            }
        }
        if has_key(e, k) && k != e[i].0@ {
            let p = place_of(e, k);
            let q = if p < i { p } else { p - 1 };
            assert(f[q].0@ == k);
        }
    }
    assert forall|k: K::V| #[trigger] as_map(f).contains_key(k) implies as_map(f)[k] == as_map(e).remove(e[i].0@)[k] by {
        let p = place_of(f, k);
        let q = if p < i { p } else { p + 1 };
        lemma_place(f, p);
        lemma_place(e, q);
    }
    assert(as_map(f) =~= as_map(e).remove(e[i].0@));
}

/// A listing names each key once, with its value, and leaves none out.
pub proof fn law_listing_is_complete<KV, T>(pairs: Seq<(KV, T)>, m: Map<KV, T>, i: int, j: int, k: KV)
    requires
        is_listing(pairs, m),
    ensures
        pairs.len() == m.dom().len(),
        0 <= i < pairs.len() ==> m.contains_key(pairs[i].0) && m[pairs[i].0] == pairs[i].1,
        0 <= i < j < pairs.len() ==> pairs[i].0 != pairs[j].0,
        m.contains_key(k) ==> pairs.contains((k, m[k])),
{
    lemma_listing_len(pairs, m);
    if m.contains_key(k) {
        let n = choose|n: int| 0 <= n < pairs.len() && (#[trigger] pairs[n]).0 == k;
        assert(pairs[n] == (k, m[k]));
    }
}

} // verus!
