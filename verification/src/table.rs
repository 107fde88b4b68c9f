//! An ordered key/value table: the storage maps of the pallets.
//!
//! Entries keep the order in which their keys were first inserted; a key occurs
//! at most once. The abstract view is a `Map`, and `entries_seq` gives the order.

use vstd::prelude::*;

verus! {

/// Executable key equality that agrees with equality in specifications.
pub trait KeyEq: Sized {
    fn key_eq(&self, other: &Self) -> (r: bool)
        ensures
            r == (*self == *other),
    ;
}

impl KeyEq for u32 {
    fn key_eq(&self, other: &Self) -> (r: bool) {
        *self == *other
    }
}

impl KeyEq for u64 {
    fn key_eq(&self, other: &Self) -> (r: bool) {
        *self == *other
    }
}

impl KeyEq for (u32, u64) {
    fn key_eq(&self, other: &Self) -> (r: bool) {
        self.0 == other.0 && self.1 == other.1
    }
}

impl KeyEq for (u64, u64) {
    fn key_eq(&self, other: &Self) -> (r: bool) {
        self.0 == other.0 && self.1 == other.1
    }
}

impl KeyEq for (u32, u64, u64) {
    fn key_eq(&self, other: &Self) -> (r: bool) {
        self.0 == other.0 && self.1 == other.1 && self.2 == other.2
    }
}

/// Byte-wise equality of two byte arrays of one length.
pub fn bytes_eq<const N: usize>(a: &[u8; N], b: &[u8; N]) -> (r: bool)
    ensures
        r == (*a == *b),
{
    let mut i: usize = 0;
    while i < N
        invariant
            0 <= i <= N,
            a@.len() == N,
            b@.len() == N,
            forall|j: int| 0 <= j < i ==> a@[j] == b@[j],
        decreases N - i,
    {
        if a[i] != b[i] {
            assert(a@[i as int] != b@[i as int]);
            return false;
        }
        i = i + 1;
    }
    assert(*a =~= *b);
    true
}

impl KeyEq for [u8; 32] {
    fn key_eq(&self, other: &Self) -> (r: bool) {
        bytes_eq(self, other)
    }
}

impl KeyEq for [u8; 41] {
    fn key_eq(&self, other: &Self) -> (r: bool) {
        bytes_eq(self, other)
    }
}

/// `picked` is a choice of `min(limit, |candidates|)` distinct candidates, in no
/// particular order: all of them when at most `limit` are offered.
pub open spec fn is_selection<A>(picked: Seq<A>, candidates: Seq<A>, limit: int) -> bool {
    &&& picked.no_duplicates()
    &&& forall|i: int| 0 <= i < picked.len() ==> candidates.contains(#[trigger] picked[i])
    &&& picked.len() == if candidates.len() <= limit { candidates.len() as int } else { limit }
}

/// The first `min(limit, |candidates|)` of distinct candidates are a selection.
pub proof fn lemma_prefix_is_selection<A>(candidates: Seq<A>, limit: int)
    requires
        candidates.no_duplicates(),
        0 <= limit,
    ensures
        is_selection(
            candidates.take(if candidates.len() <= limit { candidates.len() as int } else { limit }),
            candidates,
            limit,
        ),
{
    let n = if candidates.len() <= limit { candidates.len() as int } else { limit };
    let t = candidates.take(n);
    assert forall|i: int| 0 <= i < t.len() implies candidates.contains(#[trigger] t[i]) by {
        assert(t[i] == candidates[i]);
    }
    assert forall|i: int, j: int| 0 <= i < t.len() && 0 <= j < t.len() && i != j implies t[i] != t[j] by {
        assert(t[i] == candidates[i] && t[j] == candidates[j]);
    }
}

/// Filtering keeps distinct elements distinct.
pub proof fn lemma_filter_no_duplicates<A>(s: Seq<A>, p: spec_fn(A) -> bool)
    requires
        s.no_duplicates(),
    ensures
        s.filter(p).no_duplicates(),
    decreases s.len(),
{
    broadcast use Seq::lemma_filter_push;
    if s.len() > 0 {
        let t = s.drop_last();
        let x = s.last();
        assert(t.no_duplicates()) by {
            assert forall|i: int, j: int| 0 <= i < t.len() && 0 <= j < t.len() && i != j implies t[i] != t[j] by {
                assert(t[i] == s[i] && t[j] == s[j]);
            }
        }
        lemma_filter_no_duplicates(t, p);
        assert(s =~= t.push(x));
        if p(x) {
            assert(!t.filter(p).contains(x)) by {
                if t.filter(p).contains(x) {
                    t.lemma_filter_contains_rev(p, x);
                    let i = choose|i: int| 0 <= i < t.len() && t[i] == x;
                    assert(s[i] == s[s.len() - 1]);
                }
            }
            let f = t.filter(p);
            let g = f.push(x);
            assert forall|i: int, j: int| 0 <= i < g.len() && 0 <= j < g.len() && i != j implies g[i] != g[j] by {
                if i < f.len() && j < f.len() {
                    assert(g[i] == f[i] && g[j] == f[j]);
                } else if i < f.len() {
                    assert(f.contains(g[i]));
                } else if j < f.len() {
                    assert(f.contains(g[j]));
                }
            }
        }
    }
}

/// An insertion-ordered map from `K` to `V`.
pub struct Table<K, V> {
    entries: Vec<(K, V)>,
}

impl<K, V> Table<K, V> {
    /// Well-formedness: no key occurs twice.
    pub closed spec fn wf(&self) -> bool {
        forall|i: int, j: int|
            0 <= i < j < self.entries@.len() ==> #[trigger] self.entries@[i].0 != #[trigger] self.entries@[j].0
    }

    /// The entries in table order.
    pub closed spec fn entries_seq(&self) -> Seq<(K, V)> {
        self.entries@
    }

    /// The position of `k` among the entries (meaningful when present).
    pub closed spec fn index_of(&self, k: K) -> int {
        choose|i: int| 0 <= i < self.entries@.len() && self.entries@[i].0 == k
    }

    /// The table as a map.
    pub closed spec fn view(&self) -> Map<K, V> {
        Map::new(
            |k: K| exists|i: int| 0 <= i < self.entries@.len() && self.entries@[i].0 == k,
            |k: K| self.entries@[self.index_of(k)].1,
        )
    }

    /// The keys in table order.
    pub open spec fn keys_seq(&self) -> Seq<K> {
        self.entries_seq().map_values(|e: (K, V)| e.0)
    }

    /// The map holds exactly the keys of the entries, each with the value stored beside it,
    /// and the keys are distinct.
    pub proof fn lemma_view(&self)
        requires
            self.wf(),
        ensures
            forall|i: int|
                0 <= i < self.entries_seq().len() ==> #[trigger] self@.contains_key(
                    self.entries_seq()[i].0,
                ) && self@[self.entries_seq()[i].0] == self.entries_seq()[i].1,
            forall|k: K|
                #[trigger] self@.contains_key(k) ==> exists|i: int|
                    0 <= i < self.entries_seq().len() && #[trigger] self.entries_seq()[i].0 == k,
            forall|i: int, j: int|
                0 <= i < self.entries_seq().len() && 0 <= j < self.entries_seq().len() && i != j
                    ==> #[trigger] self.entries_seq()[i].0 != #[trigger] self.entries_seq()[j].0,
            self@.dom().finite(),
            self@.dom().len() == self.entries_seq().len(),
    {
        assert forall|i: int| 0 <= i < self.entries_seq().len() implies #[trigger] self@.contains_key(
            self.entries_seq()[i].0,
        ) && self@[self.entries_seq()[i].0] == self.entries_seq()[i].1 by {
            let k = self.entries@[i].0;
            assert(self.entries@[i].0 == k);
            let j = self.index_of(k);
            if j != i {
                if j < i {
                    assert(self.entries@[j].0 != self.entries@[i].0);
                } else {
                    assert(self.entries@[i].0 != self.entries@[j].0);
                }
            }
        }
        assert forall|k: K| #[trigger] self@.contains_key(k) implies exists|i: int|
            0 <= i < self.entries_seq().len() && #[trigger] self.entries_seq()[i].0 == k by {
            let i = choose|i: int| 0 <= i < self.entries@.len() && self.entries@[i].0 == k;
            assert(self.entries_seq()[i].0 == k);
        }
        Self::lemma_dom_len(self.entries@);
        assert(self@.dom() =~= Set::new(
            |k: K| exists|i: int| 0 <= i < self.entries@.len() && self.entries@[i].0 == k,
        ));
    }

    /// The keys in table order are distinct and are exactly the keys of the map.
    pub proof fn lemma_keys(&self)
        requires
            self.wf(),
        ensures
            self.keys_seq().no_duplicates(),
            forall|k: K| #[trigger] self@.contains_key(k) <==> self.keys_seq().contains(k),
    {
        self.lemma_view();
        let ks = self.keys_seq();
        assert forall|i: int, j: int| 0 <= i < ks.len() && 0 <= j < ks.len() && i != j implies ks[i] != ks[j] by {
            assert(ks[i] == self.entries_seq()[i].0);
            assert(ks[j] == self.entries_seq()[j].0);
        }
        assert forall|k: K| #[trigger] self@.contains_key(k) <==> ks.contains(k) by {
            if self@.contains_key(k) {
                let i = choose|i: int| 0 <= i < self.entries_seq().len() && #[trigger] self.entries_seq()[i].0 == k;
                assert(ks[i] == k);
            }
            if ks.contains(k) {
                let i = choose|i: int| 0 <= i < ks.len() && ks[i] == k;
                assert(self.entries_seq()[i].0 == k);
            }
        }
    }

    proof fn lemma_dom_len(s: Seq<(K, V)>)
        requires
            forall|i: int, j: int| 0 <= i < j < s.len() ==> #[trigger] s[i].0 != #[trigger] s[j].0,
        ensures
            Set::new(|k: K| exists|i: int| 0 <= i < s.len() && s[i].0 == k).finite(),
            Set::new(|k: K| exists|i: int| 0 <= i < s.len() && s[i].0 == k).len() == s.len(),
        decreases s.len(),
    {
        let d = Set::new(|k: K| exists|i: int| 0 <= i < s.len() && s[i].0 == k);
        if s.len() == 0 {
            assert(d =~= Set::empty());
        } else {
            let t = s.drop_last();
            Self::lemma_dom_len(t);
            let dt = Set::new(|k: K| exists|i: int| 0 <= i < t.len() && t[i].0 == k);
            let last = s.last().0;
            assert(d =~= dt.insert(last)) by {
                assert forall|k: K| d.contains(k) implies dt.insert(last).contains(k) by {
                    let i = choose|i: int| 0 <= i < s.len() && s[i].0 == k;
                    if i < t.len() {
                        assert(t[i].0 == k);
                    }
                }
                assert forall|k: K| dt.insert(last).contains(k) implies d.contains(k) by {
                    if k != last {
                        let i = choose|i: int| 0 <= i < t.len() && t[i].0 == k;
                        assert(s[i].0 == k);
                    } else {
                        assert(s[s.len() - 1].0 == k);
                    }
                }
            }
            assert(!dt.contains(last)) by {
                if dt.contains(last) {
                    let i = choose|i: int| 0 <= i < t.len() && t[i].0 == last;
                    assert(s[i].0 != s[s.len() - 1].0);
                }
            }
        }
    }

    /// An empty table.
    pub fn new() -> (t: Self)
        ensures
            t.wf(),
            t@ == Map::<K, V>::empty(),
            t.entries_seq() == Seq::<(K, V)>::empty(),
    {
        let t = Table { entries: Vec::new() };
        assert(t@ =~= Map::<K, V>::empty());
        t
    }

    /// Number of entries.
    pub fn len(&self) -> (n: usize)
        requires
            self.wf(),
        ensures
            n == self.entries_seq().len(),
            n == self@.dom().len(),
    {
        proof {
            self.lemma_view();
        }
        self.entries.len()
    }

    /// The key at position `i`.
    pub fn key_at(&self, i: usize) -> (k: &K)
        requires
            i < self.entries_seq().len(),
        ensures
            *k == self.entries_seq()[i as int].0,
    {
        &self.entries[i].0
    }

    /// The value at position `i`.
    pub fn value_at(&self, i: usize) -> (v: &V)
        requires
            i < self.entries_seq().len(),
        ensures
            *v == self.entries_seq()[i as int].1,
    {
        &self.entries[i].1
    }
}

impl<K: Copy, V: Copy> Table<K, V> {
    /// An independent copy of the table.
    pub fn copy(&self) -> (t: Self)
        requires
            self.wf(),
        ensures
            t.wf(),
            t@ == self@,
            t.entries_seq() == self.entries_seq(),
    {
        let mut entries: Vec<(K, V)> = Vec::new();
        let mut i: usize = 0;
        while i < self.entries.len()
            invariant
                0 <= i <= self.entries@.len(),
                entries@ == self.entries@.subrange(0, i as int),
            decreases self.entries@.len() - i,
        {
            let e = self.entries[i];
            entries.push(e);
            assert(self.entries@.subrange(0, i + 1) =~= self.entries@.subrange(0, i as int).push(e));
            i = i + 1;
        }
        assert(self.entries@.subrange(0, self.entries@.len() as int) =~= self.entries@);
        Table { entries }
    }
}

impl<K: KeyEq, V> Table<K, V> {
    /// The position of `k`, if present.
    pub fn find(&self, k: &K) -> (r: Option<usize>)
        requires
            self.wf(),
        ensures
            match r {
                Some(i) => i < self.entries_seq().len() && self.entries_seq()[i as int].0 == *k,
                None => !self@.contains_key(*k),
            },
            r is Some <==> self@.contains_key(*k),
    {
        proof {
            self.lemma_view();
        }
        let mut i: usize = 0;
        while i < self.entries.len()
            invariant
                0 <= i <= self.entries@.len(),
                forall|j: int| 0 <= j < i ==> self.entries@[j].0 != *k,
            decreases self.entries@.len() - i,
        {
            if self.entries[i].0.key_eq(k) {
                assert(self.entries_seq()[i as int].0 == *k);
                return Some(i);
            }
            i = i + 1;
        }
        proof {
            if self@.contains_key(*k) {
                let j = choose|j: int| 0 <= j < self.entries_seq().len() && self.entries_seq()[j].0 == *k;
                assert(self.entries@[j].0 == *k);
            }
        }
        None
    }

    /// Whether `k` is present.
    pub fn contains_key(&self, k: &K) -> (b: bool)
        requires
            self.wf(),
        ensures
            b == self@.contains_key(*k),
    {
        self.find(k).is_some()
    }

    /// The value stored at `k`, if any.
    pub fn get(&self, k: &K) -> (r: Option<&V>)
        requires
            self.wf(),
        ensures
            match r {
                Some(v) => self@.contains_key(*k) && *v == self@[*k],
                None => !self@.contains_key(*k),
            },
    {
        proof {
            self.lemma_view();
        }
        match self.find(k) {
            Some(i) => Some(&self.entries[i].1),
            None => None,
        }
    }

    /// Store `v` at `k`; an existing key keeps its position, a new key goes last.
    pub fn insert(&mut self, k: K, v: V)
        requires
            old(self).wf(),
        ensures
            final(self).wf(),
            final(self)@ == old(self)@.insert(k, v),
            old(self)@.contains_key(k) ==> final(self).keys_seq() == old(self).keys_seq(),
            !old(self)@.contains_key(k) ==> final(self).keys_seq() == old(self).keys_seq().push(k),
            forall|i: int|
                0 <= i < old(self).entries_seq().len() && old(self).entries_seq()[i].0 != k
                    ==> #[trigger] final(self).entries_seq()[i] == old(self).entries_seq()[i],
    {
        proof {
            self.lemma_view();
        }
        let ghost old_entries = self.entries@;
        let ghost old_view = self@;
        match self.find(&k) {
            Some(i) => {
                let ghost kk = self.entries@[i as int].0;
                self.entries.set(i, (k, v));
                proof {
                    assert forall|a: int, b: int|
                        0 <= a < b < self.entries@.len() implies #[trigger] self.entries@[a].0
                        != #[trigger] self.entries@[b].0 by {
                        assert(old_entries[a].0 != old_entries[b].0);
                    }
                }
            },
            None => {
                self.entries.push((k, v));
                proof {
                    assert forall|a: int, b: int|
                        0 <= a < b < self.entries@.len() implies #[trigger] self.entries@[a].0
                        != #[trigger] self.entries@[b].0 by {
                        if b < old_entries.len() {
                            assert(old_entries[a].0 != old_entries[b].0);
                        } else {
                            assert(old_entries[a].0 != k) by {
                                if old_entries[a].0 == k {
                                    assert(old_view.contains_key(old_entries[a].0));
                                }
                            }
                        }
                    }
                }
            },
        }
        proof {
            self.lemma_view();
            assert(self.keys_seq() =~= (if old_view.contains_key(k) {
                old_entries.map_values(|e: (K, V)| e.0)
            } else {
                old_entries.map_values(|e: (K, V)| e.0).push(k)
            }));
            assert forall|key: K| #[trigger] self@.contains_key(key) <==> old_view.insert(k, v).contains_key(key) by {
                if self@.contains_key(key) {
                    let i = choose|i: int| 0 <= i < self.entries_seq().len() && #[trigger] self.entries_seq()[i].0 == key;
                    if key != k {
                        assert(old_entries[i].0 == key);
                        assert(old_view.contains_key(old_entries[i].0));
                    }
                }
                if old_view.insert(k, v).contains_key(key) && key != k {
                    let i = choose|i: int| 0 <= i < old_entries.len() && old_entries[i].0 == key;
                    assert(self.entries_seq()[i].0 == key);
                }
                if key == k {
                    let i = if old_view.contains_key(k) {
                        choose|i: int| 0 <= i < old_entries.len() && old_entries[i].0 == k
                    } else {
                        old_entries.len() as int
                    };
                    assert(self.entries_seq()[i].0 == key);
                }
            }
            assert forall|key: K| #[trigger] self@.contains_key(key) implies self@[key] == old_view.insert(k, v)[key] by {
                let i = choose|i: int| 0 <= i < self.entries_seq().len() && #[trigger] self.entries_seq()[i].0 == key;
                assert(self@[self.entries_seq()[i].0] == self.entries_seq()[i].1);
                if key != k {
                    assert(old_entries[i].0 == key);
                    assert(old_view[old_entries[i].0] == old_entries[i].1);
                }
            }
            assert(self@ =~= old_view.insert(k, v));
        }
    }

    /// Remove `k` (if present), keeping the order of the other entries; returns its value.
    pub fn remove(&mut self, k: &K) -> (r: Option<V>)
        requires
            old(self).wf(),
        ensures
            final(self).wf(),
            final(self)@ == old(self)@.remove(*k),
            match r {
                Some(v) => old(self)@.contains_key(*k) && v == old(self)@[*k],
                None => !old(self)@.contains_key(*k),
            },
            final(self).keys_seq() == old(self).keys_seq().filter(|x: K| x != *k),
    {
        proof {
            self.lemma_view();
        }
        let ghost old_entries = self.entries@;
        let ghost old_view = self@;
        let ghost old_keys = self.keys_seq();
        match self.find(k) {
            Some(i) => {
                let e = self.remove_index(i);
                proof {
                    Self::lemma_filter_remove(old_entries, i as int, *k);
                }
                Some(e.1)
            },
            None => {
                proof {
                    assert(old_view.remove(*k) =~= old_view);
                    assert forall|j: int| 0 <= j < old_keys.len() implies old_keys[j] != *k by {
                        assert(old_keys[j] == old_entries[j].0);
                    }
                    Self::lemma_filter_none(old_keys, *k);
                }
                None
            },
        }
    }

    /// Take the entry of `k` out, reporting its position, so that a changed value can be
    /// put back in the same place with `put_back`.
    pub fn take(&mut self, k: &K) -> (r: Option<(usize, V)>)
        requires
            old(self).wf(),
        ensures
            final(self).wf(),
            match r {
                Some((pos, v)) => {
                    &&& old(self)@.contains_key(*k)
                    &&& v == old(self)@[*k]
                    &&& pos < old(self).entries_seq().len()
                    &&& old(self).entries_seq()[pos as int] == (*k, v)
                    &&& final(self)@ == old(self)@.remove(*k)
                    &&& final(self).entries_seq() == old(self).entries_seq().remove(pos as int)
                },
                None => !old(self)@.contains_key(*k) && *final(self) == *old(self),
            },
    {
        proof {
            self.lemma_view();
        }
        match self.find(k) {
            Some(i) => {
                let e = self.remove_index(i);
                Some((i, e.1))
            },
            None => None,
        }
    }

    /// Put an entry for a key that is absent back at position `pos`.
    pub fn put_back(&mut self, pos: usize, k: K, v: V)
        requires
            old(self).wf(),
            !old(self)@.contains_key(k),
            pos <= old(self).entries_seq().len(),
        ensures
            final(self).wf(),
            final(self)@ == old(self)@.insert(k, v),
            final(self).entries_seq() == old(self).entries_seq().insert(pos as int, (k, v)),
    {
        proof {
            self.lemma_view();
        }
        let ghost old_entries = self.entries@;
        let ghost old_view = self@;
        self.entries.insert(pos, (k, v));
        proof {
            assert forall|a: int, b: int|
                0 <= a < b < self.entries@.len() implies #[trigger] self.entries@[a].0
                != #[trigger] self.entries@[b].0 by {
                if a != pos && b != pos {
                    let a2 = if a < pos { a } else { a - 1 };
                    let b2 = if b < pos { b } else { b - 1 };
                    assert(old_entries[a2].0 != old_entries[b2].0);
                } else if a == pos {
                    let b2 = b - 1;
                    assert(old_view.contains_key(old_entries[b2].0));
                } else {
                    let a2 = if a < pos { a } else { a - 1 };
                    assert(old_view.contains_key(old_entries[a2].0));
                }
            }
            self.lemma_view();
            assert forall|key: K| #[trigger] self@.contains_key(key) <==> old_view.insert(k, v).contains_key(key) by {
                if self@.contains_key(key) && key != k {
                    let j = choose|j: int| 0 <= j < self.entries_seq().len() && #[trigger] self.entries_seq()[j].0 == key;
                    let j2 = if j < pos { j } else { j - 1 };
                    assert(old_entries[j2].0 == key);
                    assert(old_view.contains_key(old_entries[j2].0));
                }
                if old_view.contains_key(key) {
                    let j = choose|j: int| 0 <= j < old_entries.len() && old_entries[j].0 == key;
                    let j2 = if j < pos { j } else { j + 1 };
                    assert(self.entries_seq()[j2].0 == key);
                }
                if key == k {
                    assert(self.entries_seq()[pos as int].0 == key);
                }
            }
            assert forall|key: K| #[trigger] self@.contains_key(key) implies self@[key] == old_view.insert(k, v)[key] by {
                let j = choose|j: int| 0 <= j < self.entries_seq().len() && #[trigger] self.entries_seq()[j].0 == key;
                assert(self@[self.entries_seq()[j].0] == self.entries_seq()[j].1);
                if j != pos {
                    let j2 = if j < pos { j } else { j - 1 };
                    assert(old_view[old_entries[j2].0] == old_entries[j2].1);
                }
            }
            assert(self@ =~= old_view.insert(k, v));
        }
    }

    fn remove_index(&mut self, i: usize) -> (e: (K, V))
        requires
            old(self).wf(),
            i < old(self).entries_seq().len(),
        ensures
            final(self).wf(),
            e == old(self).entries_seq()[i as int],
            old(self)@.contains_key(e.0),
            old(self)@[e.0] == e.1,
            final(self)@ == old(self)@.remove(e.0),
            final(self).entries_seq() == old(self).entries_seq().remove(i as int),
    {
        proof {
            self.lemma_view();
        }
        let ghost old_entries = self.entries@;
        let ghost old_view = self@;
        let ghost k = old_entries[i as int].0;
        let e = self.entries.remove(i);
        proof {
            assert forall|a: int, b: int|
                0 <= a < b < self.entries@.len() implies #[trigger] self.entries@[a].0
                != #[trigger] self.entries@[b].0 by {
                let a2 = if a < i { a } else { a + 1 };
                let b2 = if b < i { b } else { b + 1 };
                assert(self.entries@[a] == old_entries[a2]);
                assert(self.entries@[b] == old_entries[b2]);
                assert(old_entries[a2].0 != old_entries[b2].0);
            }
            self.lemma_view();
            assert forall|key: K| #[trigger] self@.contains_key(key) <==> old_view.remove(k).contains_key(key) by {
                if self@.contains_key(key) {
                    let j = choose|j: int| 0 <= j < self.entries_seq().len() && #[trigger] self.entries_seq()[j].0 == key;
                    let j2 = if j < i { j } else { j + 1 };
                    assert(old_entries[j2].0 == key);
                    assert(old_view.contains_key(old_entries[j2].0));
                    assert(j2 != i);
                    assert(key != k);
                }
                if old_view.remove(k).contains_key(key) {
                    let j = choose|j: int| 0 <= j < old_entries.len() && old_entries[j].0 == key;
                    assert(j != i);
                    let j2 = if j < i { j } else { j - 1 };
                    assert(self.entries_seq()[j2].0 == key);
                }
            }
            assert forall|key: K| #[trigger] self@.contains_key(key) implies self@[key] == old_view[key] by {
                let j = choose|j: int| 0 <= j < self.entries_seq().len() && #[trigger] self.entries_seq()[j].0 == key;
                let j2 = if j < i { j } else { j + 1 };
                assert(self@[self.entries_seq()[j].0] == self.entries_seq()[j].1);
                assert(old_view[old_entries[j2].0] == old_entries[j2].1);
            }
            assert(self@ =~= old_view.remove(k));
        }
        e
    }

    proof fn lemma_filter_none(s: Seq<K>, k: K)
        requires
            forall|j: int| 0 <= j < s.len() ==> s[j] != k,
        ensures
            s.filter(|x: K| x != k) == s,
        decreases s.len(),
    {
        reveal(Seq::filter);
        if s.len() > 0 {
            Self::lemma_filter_none(s.drop_last(), k);
            assert(s.drop_last().push(s.last()) =~= s);
        }
    }

    proof fn lemma_filter_remove(s: Seq<(K, V)>, i: int, k: K)
        requires
            0 <= i < s.len(),
            s[i].0 == k,
            forall|a: int, b: int| 0 <= a < b < s.len() ==> #[trigger] s[a].0 != #[trigger] s[b].0,
        ensures
            s.remove(i).map_values(|e: (K, V)| e.0) == s.map_values(|e: (K, V)| e.0).filter(
                |x: K| x != k,
            ),
        decreases s.len(),
    {
        reveal(Seq::filter);
        let f = |e: (K, V)| e.0;
        let p = |x: K| x != k;
        if i == s.len() - 1 {
            assert(s.remove(i) =~= s.drop_last());
            let t = s.drop_last();
            assert forall|j: int| 0 <= j < t.map_values(f).len() implies t.map_values(f)[j] != k by {
                assert(s[j].0 != s[i].0);
            }
            Self::lemma_filter_none(t.map_values(f), k);
            assert(s.map_values(f).drop_last() =~= t.map_values(f));
        } else {
            let t = s.drop_last();
            Self::lemma_filter_remove(t, i, k);
            assert(s.remove(i) =~= t.remove(i).push(s.last()));
            assert(s.map_values(f).drop_last() =~= t.map_values(f));
            assert(s.last().0 != k) by {
                assert(s[i].0 != s[s.len() - 1].0);
            }
            assert(s.remove(i).map_values(f) =~= t.remove(i).map_values(f).push(s.last().0));
        }
    }
}

} // verus!
