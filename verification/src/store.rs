//! Keyed contract storage.
//!
//! A `Store<K, T>` holds the entries of one storage slot family of a
//! contract (for instance all `Stake(address)` records). Its abstract
//! value is a finite map from key views to values. Entries are kept in
//! insertion order, each key at most once.
use vstd::prelude::*;

verus! {

/// A key that can be compared for equality in executable code, with the
/// comparison agreeing with equality of the key's abstract value.
pub trait StoreKey: Sized {
    type KeyView;

    spec fn key_view(&self) -> Self::KeyView;

    fn same_key(&self, other: &Self) -> (b: bool)
        ensures
            b == (self.key_view() == other.key_view()),
    ;
}

impl StoreKey for u64 {
    type KeyView = u64;

    open spec fn key_view(&self) -> u64 {
        *self
    }

    fn same_key(&self, other: &Self) -> (b: bool) {
        *self == *other
    }
}

impl StoreKey for u32 {
    type KeyView = u32;

    open spec fn key_view(&self) -> u32 {
        *self
    }

    fn same_key(&self, other: &Self) -> (b: bool) {
        *self == *other
    }
}

impl StoreKey for String {
    type KeyView = Seq<char>;

    open spec fn key_view(&self) -> Seq<char> {
        self@
    }

    fn same_key(&self, other: &Self) -> (b: bool) {
        *self == *other
    }
}

impl StoreKey for (u64, u32) {
    type KeyView = (u64, u32);

    open spec fn key_view(&self) -> (u64, u32) {
        *self
    }

    fn same_key(&self, other: &Self) -> (b: bool) {
        self.0 == other.0 && self.1 == other.1
    }
}

impl StoreKey for (u64, u64) {
    type KeyView = (u64, u64);

    open spec fn key_view(&self) -> (u64, u64) {
        *self
    }

    fn same_key(&self, other: &Self) -> (b: bool) {
        self.0 == other.0 && self.1 == other.1
    }
}

impl StoreKey for (u64, String) {
    type KeyView = (u64, Seq<char>);

    open spec fn key_view(&self) -> (u64, Seq<char>) {
        (self.0, self.1@)
    }

    fn same_key(&self, other: &Self) -> (b: bool) {
        self.0 == other.0 && self.1 == other.1
    }
}

/// The map denoted by a sequence of entries: later entries win.
pub open spec fn entries_map<K: StoreKey, T>(s: Seq<(K, T)>) -> Map<K::KeyView, T>
    decreases s.len(),
{
    if s.len() == 0 {
        Map::empty()
    } else {
        entries_map(s.drop_last()).insert(s.last().0.key_view(), s.last().1)
    }
}

/// No key occurs twice among the entries.
pub open spec fn keys_unique<K: StoreKey, T>(s: Seq<(K, T)>) -> bool {
    forall|i: int, j: int|
        0 <= i < s.len() && 0 <= j < s.len() && i != j ==> #[trigger] s[i].0.key_view()
            != #[trigger] s[j].0.key_view()
}

pub proof fn lemma_entries_absent<K: StoreKey, T>(s: Seq<(K, T)>, k: K::KeyView)
    requires
        forall|i: int| 0 <= i < s.len() ==> #[trigger] s[i].0.key_view() != k,
    ensures
        !entries_map(s).contains_key(k),
    decreases s.len(),
{
    if s.len() > 0 {
        let t = s.drop_last();
        assert forall|i: int| 0 <= i < t.len() implies #[trigger] t[i].0.key_view() != k by {
            assert(t[i] == s[i]);
        }
        lemma_entries_absent(t, k);
    }
}

pub proof fn lemma_entries_lookup<K: StoreKey, T>(s: Seq<(K, T)>, i: int)
    requires
        keys_unique(s),
        0 <= i < s.len(),
    ensures
        entries_map(s).contains_key(s[i].0.key_view()),
        entries_map(s)[s[i].0.key_view()] == s[i].1,
    decreases s.len(),
{
    if i < s.len() - 1 {
        let t = s.drop_last();
        assert(t[i] == s[i]);
        assert(keys_unique(t)) by {
            assert forall|a: int, b: int|
                0 <= a < t.len() && 0 <= b < t.len() && a != b implies #[trigger] t[a].0.key_view()
                != #[trigger] t[b].0.key_view() by {
                assert(t[a] == s[a] && t[b] == s[b]);
            }
        }
        lemma_entries_lookup(t, i);
        assert(s.last() == s[s.len() - 1]);
    }
}

pub proof fn lemma_entries_update<K: StoreKey, T>(s: Seq<(K, T)>, i: int, e: (K, T))
    requires
        keys_unique(s),
        0 <= i < s.len(),
        e.0.key_view() == s[i].0.key_view(),
    ensures
        entries_map(s.update(i, e)) == entries_map(s).insert(e.0.key_view(), e.1),
        keys_unique(s.update(i, e)),
    decreases s.len(),
{
    let u = s.update(i, e);
    assert(keys_unique(u)) by {
        assert forall|a: int, b: int|
            0 <= a < u.len() && 0 <= b < u.len() && a != b implies #[trigger] u[a].0.key_view()
            != #[trigger] u[b].0.key_view() by {
            assert(s[a].0.key_view() != s[b].0.key_view());
        }
    }
    let t = s.drop_last();
    assert(keys_unique(t)) by {
        assert forall|a: int, b: int|
            0 <= a < t.len() && 0 <= b < t.len() && a != b implies #[trigger] t[a].0.key_view()
            != #[trigger] t[b].0.key_view() by {
            assert(t[a] == s[a] && t[b] == s[b]);
        }
    }
    if i == s.len() - 1 {
        assert(u.drop_last() =~= t);
        assert(entries_map(u) =~= entries_map(s).insert(e.0.key_view(), e.1));
    } else {
        assert(u.drop_last() =~= t.update(i, e));
        assert(t[i] == s[i]);
        lemma_entries_update(t, i, e);
        assert(u.last() == s.last());
        assert(s.last() == s[s.len() - 1]);
        assert(s[s.len() - 1].0.key_view() != s[i].0.key_view());
        assert(entries_map(u) =~= entries_map(s).insert(e.0.key_view(), e.1));
    }
}

pub proof fn lemma_entries_push<K: StoreKey, T>(s: Seq<(K, T)>, e: (K, T))
    requires
        keys_unique(s),
        !entries_map(s).contains_key(e.0.key_view()),
    ensures
        entries_map(s.push(e)) == entries_map(s).insert(e.0.key_view(), e.1),
        keys_unique(s.push(e)),
{
    let u = s.push(e);
    assert(u.drop_last() =~= s);
    assert forall|a: int, b: int|
        0 <= a < u.len() && 0 <= b < u.len() && a != b implies #[trigger] u[a].0.key_view()
        != #[trigger] u[b].0.key_view() by {
        if a < s.len() && b < s.len() {
            assert(u[a] == s[a] && u[b] == s[b]);
        } else if a < s.len() {
            assert(u[a] == s[a]);
            lemma_entries_lookup(s, a);
        } else {
            assert(u[b] == s[b]);
            lemma_entries_lookup(s, b);
        }
    }
}

pub proof fn lemma_entries_remove<K: StoreKey, T>(s: Seq<(K, T)>, i: int)
    requires
        keys_unique(s),
        0 <= i < s.len(),
    ensures
        entries_map(s.remove(i)) == entries_map(s).remove(s[i].0.key_view()),
        keys_unique(s.remove(i)),
    decreases s.len(),
{
    let u = s.remove(i);
    let k = s[i].0.key_view();
    assert(keys_unique(u)) by {
        assert forall|a: int, b: int|
            0 <= a < u.len() && 0 <= b < u.len() && a != b implies #[trigger] u[a].0.key_view()
            != #[trigger] u[b].0.key_view() by {
            let a2 = if a < i { a } else { a + 1 };
            let b2 = if b < i { b } else { b + 1 };
            assert(u[a] == s[a2] && u[b] == s[b2]);
        }
    }
    let t = s.drop_last();
    assert(keys_unique(t)) by {
        assert forall|a: int, b: int|
            0 <= a < t.len() && 0 <= b < t.len() && a != b implies #[trigger] t[a].0.key_view()
            != #[trigger] t[b].0.key_view() by {
            assert(t[a] == s[a] && t[b] == s[b]);
        }
    }
    if i == s.len() - 1 {
        assert(u =~= t);
        assert forall|j: int| 0 <= j < t.len() implies #[trigger] t[j].0.key_view() != k by {
            assert(t[j] == s[j]);
        }
        lemma_entries_absent(t, k);
        assert(entries_map(u) =~= entries_map(s).remove(k));
    } else {
        assert(u.drop_last() =~= t.remove(i));
        assert(t[i] == s[i]);
        lemma_entries_remove(t, i);
        assert(u.last() == s.last());
        assert(s.last() == s[s.len() - 1]);
        assert(s[s.len() - 1].0.key_view() != k);
        assert(entries_map(u) =~= entries_map(s).remove(k));
    }
}

/// Storage for one family of keyed records.
pub struct Store<K: StoreKey, T> {
    entries: Vec<(K, T)>,
}

impl<K: StoreKey, T> Store<K, T> {
    #[verifier::type_invariant]
    closed spec fn inv(&self) -> bool {
        keys_unique(self.entries@)
    }

    /// The abstract content: key view to value.
    pub closed spec fn view(&self) -> Map<K::KeyView, T> {
        entries_map(self.entries@)
    }

    pub fn new() -> (r: Self)
        ensures
            r@ == Map::<K::KeyView, T>::empty(),
    {
        let r = Store { entries: Vec::new() };
        assert(r@ =~= Map::<K::KeyView, T>::empty());
        r
    }

    fn find(&self, k: &K) -> (r: Option<usize>)
        ensures
            match r {
                Some(i) => i < self.entries@.len() && self.entries@[i as int].0.key_view()
                    == k.key_view(),
                None => !self@.contains_key(k.key_view()),
            },
    {
        let mut i: usize = 0;
        while i < self.entries.len()
            invariant
                i <= self.entries@.len(),
                forall|j: int| 0 <= j < i ==> #[trigger] self.entries@[j].0.key_view() != k.key_view(),
            decreases self.entries@.len() - i,
        {
            if self.entries[i].0.same_key(k) {
                return Some(i);
            }
            i = i + 1;
        }
        proof {
            lemma_entries_absent(self.entries@, k.key_view());
        }
        None
    }

    /// The value stored under `k`, if any.
    pub fn get(&self, k: &K) -> (r: Option<&T>)
        ensures
            match r {
                Some(v) => self@.contains_key(k.key_view()) && *v == self@[k.key_view()],
                None => !self@.contains_key(k.key_view()),
            },
    {
        proof {
            use_type_invariant(self);
        }
        match self.find(k) {
            Some(i) => {
                proof {
                    lemma_entries_lookup(self.entries@, i as int);
                }
                Some(&self.entries[i].1)
            },
            None => None,
        }
    }

    /// Whether a value is stored under `k`.
    pub fn has(&self, k: &K) -> (b: bool)
        ensures
            b == self@.contains_key(k.key_view()),
    {
        proof {
            use_type_invariant(self);
        }
        match self.find(k) {
            Some(i) => {
                proof {
                    lemma_entries_lookup(self.entries@, i as int);
                }
                true
            },
            None => false,
        }
    }

    /// Store `v` under `k`, replacing any earlier value.
    pub fn set(&mut self, k: K, v: T)
        ensures
            final(self)@ == old(self)@.insert(k.key_view(), v),
    {
        proof {
            use_type_invariant(&*self);
        }
        match self.find(&k) {
            Some(i) => {
                proof {
                    lemma_entries_update(self.entries@, i as int, (k, v));
                }
                let mut entries: Vec<(K, T)> = Vec::new();
                std::mem::swap(&mut entries, &mut self.entries);
                entries.set(i, (k, v));
                self.entries = entries;
            },
            None => {
                proof {
                    lemma_entries_push(self.entries@, (k, v));
                }
                let mut entries: Vec<(K, T)> = Vec::new();
                std::mem::swap(&mut entries, &mut self.entries);
                entries.push((k, v));
                self.entries = entries;
            },
        }
    }

    /// Delete the value stored under `k`, if any.
    pub fn remove(&mut self, k: &K)
        ensures
            final(self)@ == old(self)@.remove(k.key_view()),
    {
        proof {
            use_type_invariant(&*self);
        }
        match self.find(k) {
            Some(i) => {
                proof {
                    lemma_entries_remove(self.entries@, i as int);
                }
                let mut entries: Vec<(K, T)> = Vec::new();
                std::mem::swap(&mut entries, &mut self.entries);
                entries.remove(i);
                self.entries = entries;
            },
            None => {
                assert(old(self)@ =~= old(self)@.remove(k.key_view()));
            },
        }
    }

    /// Remove and return the value stored under `k`, if any.
    pub fn take(&mut self, k: &K) -> (r: Option<T>)
        ensures
            match r {
                Some(v) => old(self)@.contains_key(k.key_view()) && v == old(self)@[k.key_view()],
                None => !old(self)@.contains_key(k.key_view()),
            },
            final(self)@ == old(self)@.remove(k.key_view()),
    {
        proof {
            use_type_invariant(&*self);
        }
        match self.find(k) {
            Some(i) => {
                proof {
                    lemma_entries_lookup(self.entries@, i as int);
                    lemma_entries_remove(self.entries@, i as int);
                }
                let mut entries: Vec<(K, T)> = Vec::new();
                std::mem::swap(&mut entries, &mut self.entries);
                let (_, v) = entries.remove(i);
                self.entries = entries;
                Some(v)
            },
            None => {
                assert(old(self)@ =~= old(self)@.remove(k.key_view()));
                None
            },
        }
    }
}

} // verus!
