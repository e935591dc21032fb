//! A keyed store: an association list with unique keys whose contents are a
//! finite `Map` from key views to values. Keys are compared by their views,
//! so symbols held as `String` are found again by their characters.

use vstd::prelude::*;

verus! {

/// Keys whose executable equality agrees with equality of their views.
pub trait KeyEq: View + Sized {
    fn key_eq(&self, other: &Self) -> (r: bool)
        ensures
            r == (self@ == other@),
    ;

    fn key_dup(&self) -> (r: Self)
        ensures
            r@ == self@,
    ;
}

/// Values that can be copied with the same view.
pub trait Dup: View + Sized {
    fn dup(&self) -> (r: Self)
        ensures
            r@ == self@,
    ;
}

impl KeyEq for u64 {
    fn key_eq(&self, other: &Self) -> (r: bool) {
        *self == *other
    }

    fn key_dup(&self) -> (r: Self) {
        *self
    }
}

impl KeyEq for String {
    fn key_eq(&self, other: &Self) -> (r: bool) {
        *self == *other
    }

    fn key_dup(&self) -> (r: Self) {
        self.clone()
    }
}

impl<A: KeyEq, B: KeyEq> KeyEq for (A, B) {
    fn key_eq(&self, other: &Self) -> (r: bool) {
        let a = self.0.key_eq(&other.0);
        let b = self.1.key_eq(&other.1);
        a && b
    }

    fn key_dup(&self) -> (r: Self) {
        (self.0.key_dup(), self.1.key_dup())
    }
}

impl Dup for u32 {
    fn dup(&self) -> (r: Self) {
        *self
    }
}

impl Dup for u64 {
    fn dup(&self) -> (r: Self) {
        *self
    }
}

impl Dup for i128 {
    fn dup(&self) -> (r: Self) {
        *self
    }
}

impl Dup for u128 {
    fn dup(&self) -> (r: Self) {
        *self
    }
}

impl Dup for bool {
    fn dup(&self) -> (r: Self) {
        *self
    }
}

impl Dup for String {
    fn dup(&self) -> (r: Self) {
        self.clone()
    }
}

/// Whether the keys of `s` have pairwise distinct views.
pub open spec fn unique_keys<K: View, V>(s: Seq<(K, V)>) -> bool {
    forall|i: int, j: int|
        0 <= i < s.len() && 0 <= j < s.len() && i != j ==> #[trigger] s[i].0@ != #[trigger] s[j].0@
}

/// Whether some entry of `s` has key view `k`.
pub open spec fn has_key<K: View, V>(s: Seq<(K, V)>, k: K::V) -> bool {
    exists|i: int| 0 <= i < s.len() && #[trigger] s[i].0@ == k
}

/// The map that an entry list stands for.
pub open spec fn entries_map<K: View, V: View>(s: Seq<(K, V)>) -> Map<K::V, V::V> {
    Map::new(
        |k: K::V| has_key(s, k),
        |k: K::V| s[choose|i: int| 0 <= i < s.len() && #[trigger] s[i].0@ == k].1@,
    )
}

/// In a list with unique keys, the entry at `i` is what the map holds for its key.
pub proof fn lemma_entry_in_map<K: View, V: View>(s: Seq<(K, V)>, i: int)
    requires
        unique_keys(s),
        0 <= i < s.len(),
    ensures
        entries_map(s).contains_key(s[i].0@),
        entries_map(s)[s[i].0@] == s[i].1@,
{
    let k = s[i].0@;
    assert(has_key(s, k));
    let j = choose|j: int| 0 <= j < s.len() && #[trigger] s[j].0@ == k;
    assert(j == i);
}

/// A store of values by key.
pub struct KeyedList<K: KeyEq, V: View> {
    entries: Vec<(K, V)>,
}

impl<K: KeyEq, V: View> View for KeyedList<K, V> {
    type V = Map<K::V, V::V>;

    closed spec fn view(&self) -> Map<K::V, V::V> {
        entries_map(self.entries@)
    }
}

impl<K: KeyEq, V: View> KeyedList<K, V> {
    /// Keys are unique; this holds of every store (a type invariant).
    #[verifier::type_invariant]
    pub closed spec fn inv(&self) -> bool {
        unique_keys(self.entries@)
    }

    /// Number of entries, as a spec value.
    pub closed spec fn spec_len(&self) -> nat {
        self.entries@.len()
    }

    /// Key view of the entry at position `i`.
    pub closed spec fn key_at(&self, i: int) -> K::V {
        self.entries@[i].0@
    }

    /// Value of the entry at position `i`.
    pub closed spec fn value_at(&self, i: int) -> V::V {
        self.entries@[i].1@
    }

    /// An empty store.
    pub fn new() -> (r: Self)
        ensures
            r@ == Map::<K::V, V::V>::empty(),
            r.spec_len() == 0,
    {
        let r = KeyedList { entries: Vec::new() };
        assert(r@ =~= Map::<K::V, V::V>::empty());
        r
    }

    /// The positions hold exactly the keys of the map, each once.
    pub proof fn lemma_positions(&self)
        requires
            self.inv(),
        ensures
            self@.dom().finite(),
            self@.dom().len() == self.spec_len(),
            forall|i: int| 0 <= i < self.spec_len() ==> #[trigger] self@.contains_key(self.key_at(i))
                && self@[self.key_at(i)] == self.value_at(i),
            forall|k: K::V| #[trigger] self@.contains_key(k) ==> exists|i: int| 0 <= i < self.spec_len() && self.key_at(i) == k,
            forall|i: int, j: int| 0 <= i < self.spec_len() && 0 <= j < self.spec_len() && i != j ==> self.key_at(i) != self.key_at(j),
    {
        let s = self.entries@;
        assert forall|i: int| 0 <= i < self.spec_len() implies #[trigger] self@.contains_key(self.key_at(i))
            && self@[self.key_at(i)] == self.value_at(i) by {
            lemma_entry_in_map(s, i);
        }
        assert forall|k: K::V| #[trigger] self@.contains_key(k) implies exists|i: int| 0 <= i < self.spec_len() && self.key_at(i) == k by {
            let i = choose|i: int| 0 <= i < s.len() && #[trigger] s[i].0@ == k;
            assert(self.key_at(i) == k);
        }
        lemma_dom_len(s);
    }

    /// Number of entries.
    pub fn len(&self) -> (n: usize)
        ensures
            n == self.spec_len(),
            n == self@.len(),
    {
        proof {
            use_type_invariant(self);
            self.lemma_positions();
        }
        self.entries.len()
    }

    /// The key and value at position `i`.
    pub fn entry_at(&self, i: usize) -> (r: (&K, &V))
        requires
            i < self.spec_len(),
        ensures
            r.0@ == self.key_at(i as int),
            r.1@ == self.value_at(i as int),
    {
        let e = &self.entries[i];
        (&e.0, &e.1)
    }

    /// Position of key `k`, if present.
    fn find(&self, k: &K) -> (r: Option<usize>)
        ensures
            match r {
                Some(i) => i < self.entries@.len() && self.entries@[i as int].0@ == k@,
                None => !has_key(self.entries@, k@),
            },
    {
        let mut i: usize = 0;
        while i < self.entries.len()
            invariant
                0 <= i <= self.entries@.len(),
                forall|j: int| 0 <= j < i ==> #[trigger] self.entries@[j].0@ != k@,
            decreases self.entries@.len() - i,
        {
            if self.entries[i].0.key_eq(k) {
                return Some(i);
            }
            i = i + 1;
        }
        None
    }

    /// The value stored under `k`, if any.
    pub fn get(&self, k: &K) -> (r: Option<&V>)
        ensures
            match r {
                Some(v) => self@.contains_key(k@) && v@ == self@[k@],
                None => !self@.contains_key(k@),
            },
    {
        proof {
            use_type_invariant(self);
        }
        match self.find(k) {
            Some(i) => {
                proof {
                    lemma_entry_in_map(self.entries@, i as int);
                }
                Some(&self.entries[i].1)
            },
            None => None,
        }
    }

    /// Whether `k` has a value.
    pub fn contains_key(&self, k: &K) -> (r: bool)
        ensures
            r == self@.contains_key(k@),
    {
        proof {
            use_type_invariant(self);
        }
        self.find(k).is_some()
    }

    /// Store `v` under `k`, replacing any earlier value.
    pub fn set(&mut self, k: K, v: V)
        ensures
            final(self)@ == old(self)@.insert(k@, v@),
    {
        proof {
            use_type_invariant(&*self);
        }
        let ghost old_s = self.entries@;
        match self.find(&k) {
            Some(i) => {
                let mut es: Vec<(K, V)> = Vec::new();
                std::mem::swap(&mut es, &mut self.entries);
                es.set(i, (k, v));
                proof {
                    let s = es@;
                    assert(s == old_s.update(i as int, s[i as int]));
                    assert forall|a: int, b: int|
                        0 <= a < s.len() && 0 <= b < s.len() && a != b implies #[trigger] s[a].0@ != #[trigger] s[b].0@ by {
                        if a != i && b != i {
                            assert(old_s[a].0@ != old_s[b].0@);
                        } else if a == i {
                            assert(old_s[i as int].0@ != old_s[b].0@);
                        } else {
                            assert(old_s[a].0@ != old_s[i as int].0@);
                        }
                    }
                    lemma_set_existing(old_s, s, i as int);
                }
                self.entries = es;
            },
            None => {
                let mut es: Vec<(K, V)> = Vec::new();
                std::mem::swap(&mut es, &mut self.entries);
                es.push((k, v));
                proof {
                    let s = es@;
                    assert(s == old_s.push(s[s.len() - 1]));
                    assert forall|a: int, b: int|
                        0 <= a < s.len() && 0 <= b < s.len() && a != b implies #[trigger] s[a].0@ != #[trigger] s[b].0@ by {
                        if a < old_s.len() && b < old_s.len() {
                            assert(old_s[a].0@ != old_s[b].0@);
                        } else if a == old_s.len() {
                            assert(old_s[b].0@ == s[b].0@);
                        } else {
                            assert(old_s[a].0@ == s[a].0@);
                        }
                    }
                    lemma_push_new(old_s, s);
                }
                self.entries = es;
            },
        }
    }

    /// Remove the value under `k`, returning it if there was one.
    pub fn remove(&mut self, k: &K) -> (r: Option<V>)
        ensures
            final(self)@ == old(self)@.remove(k@),
            match r {
                Some(v) => old(self)@.contains_key(k@) && v@ == old(self)@[k@],
                None => !old(self)@.contains_key(k@),
            },
    {
        proof {
            use_type_invariant(&*self);
        }
        let ghost old_s = self.entries@;
        match self.find(k) {
            Some(i) => {
                proof {
                    lemma_entry_in_map(old_s, i as int);
                }
                let mut es: Vec<(K, V)> = Vec::new();
                std::mem::swap(&mut es, &mut self.entries);
                let e = es.remove(i);
                proof {
                    let s = es@;
                    assert(s == old_s.remove(i as int));
                    assert forall|a: int, b: int|
                        0 <= a < s.len() && 0 <= b < s.len() && a != b implies #[trigger] s[a].0@ != #[trigger] s[b].0@ by {
                        let a2 = if a < i { a } else { a + 1 };
                        let b2 = if b < i { b } else { b + 1 };
                        assert(s[a] == old_s[a2]);
                        assert(s[b] == old_s[b2]);
                    }
                    lemma_remove_at(old_s, s, i as int);
                }
                self.entries = es;
                Some(e.1)
            },
            None => {
                proof {
                    assert(old_s == self.entries@);
                    assert(entries_map(old_s).remove(k@) =~= entries_map(old_s));
                }
                None
            },
        }
    }
}

impl<K: KeyEq, V: Dup> KeyedList<K, V> {
    /// An exact copy of this store.
    pub fn dup(&self) -> (r: Self)
        ensures
            r@ == self@,
            r.spec_len() == self.spec_len(),
            forall|i: int| 0 <= i < self.spec_len() ==> r.key_at(i) == self.key_at(i) && r.value_at(i) == self.value_at(i),
    {
        proof {
            use_type_invariant(self);
        }
        let mut out: Vec<(K, V)> = Vec::new();
        let mut i: usize = 0;
        while i < self.entries.len()
            invariant
                0 <= i <= self.entries@.len(),
                out@.len() == i,
                forall|j: int| 0 <= j < i ==> out@[j].0@ == self.entries@[j].0@ && out@[j].1@ == self.entries@[j].1@,
            decreases self.entries@.len() - i,
        {
            let e = &self.entries[i];
            out.push((e.0.key_dup(), e.1.dup()));
            i = i + 1;
        }
        proof {
            let s = self.entries@;
            let o = out@;
            assert forall|a: int, b: int|
                0 <= a < o.len() && 0 <= b < o.len() && a != b implies #[trigger] o[a].0@ != #[trigger] o[b].0@ by {
                assert(s[a].0@ != s[b].0@);
            }
            assert forall|k: K::V| has_key(o, k) <==> has_key(s, k) by {
                if has_key(o, k) {
                    let j = choose|j: int| 0 <= j < o.len() && #[trigger] o[j].0@ == k;
                    assert(s[j].0@ == k);
                }
                if has_key(s, k) {
                    let j = choose|j: int| 0 <= j < s.len() && #[trigger] s[j].0@ == k;
                    assert(o[j].0@ == k);
                }
            }
            assert forall|k: K::V| #[trigger] entries_map(o).contains_key(k) implies entries_map(o)[k] == entries_map(s)[k] by {
                let j = choose|j: int| 0 <= j < o.len() && #[trigger] o[j].0@ == k;
                lemma_entry_in_map(o, j);
                assert(s[j].0@ == k);
                lemma_entry_in_map(s, j);
            }
            assert(entries_map(o) =~= entries_map(s));
        }
        KeyedList { entries: out }
    }
}

/// Replacing the value of an existing key is a map insert.
proof fn lemma_set_existing<K: View, V: View>(old_s: Seq<(K, V)>, s: Seq<(K, V)>, i: int)
    requires
        unique_keys(old_s),
        unique_keys(s),
        0 <= i < old_s.len(),
        s.len() == old_s.len(),
        s[i].0@ == old_s[i].0@,
        forall|j: int| 0 <= j < s.len() && j != i ==> s[j] == old_s[j],
    ensures
        entries_map(s) == entries_map(old_s).insert(s[i].0@, s[i].1@),
{
    let m = entries_map(old_s).insert(s[i].0@, s[i].1@);
    assert forall|k: K::V| has_key(s, k) <==> m.contains_key(k) by {
        if has_key(s, k) {
            let j = choose|j: int| 0 <= j < s.len() && #[trigger] s[j].0@ == k;
            if j != i {
                assert(old_s[j].0@ == k);
                assert(has_key(old_s, k));
            }
        }
        if m.contains_key(k) && k != s[i].0@ {
            let j = choose|j: int| 0 <= j < old_s.len() && #[trigger] old_s[j].0@ == k;
            assert(j != i);
            assert(s[j].0@ == k);
        }
    }
    assert forall|k: K::V| #[trigger] entries_map(s).contains_key(k) implies entries_map(s)[k] == m[k] by {
        let j = choose|j: int| 0 <= j < s.len() && #[trigger] s[j].0@ == k;
        lemma_entry_in_map(s, j);
        if j != i {
            assert(old_s[j] == s[j]);
            lemma_entry_in_map(old_s, j);
        }
    }
    assert(entries_map(s) =~= m);
}

/// Appending an entry with a new key is a map insert.
proof fn lemma_push_new<K: View, V: View>(old_s: Seq<(K, V)>, s: Seq<(K, V)>)
    requires
        unique_keys(old_s),
        unique_keys(s),
        s.len() == old_s.len() + 1,
        forall|j: int| 0 <= j < old_s.len() ==> s[j] == old_s[j],
    ensures
        entries_map(s) == entries_map(old_s).insert(s[s.len() - 1].0@, s[s.len() - 1].1@),
{
    let n = old_s.len() as int;
    let m = entries_map(old_s).insert(s[n].0@, s[n].1@);
    assert forall|k: K::V| has_key(s, k) <==> m.contains_key(k) by {
        if has_key(s, k) {
            let j = choose|j: int| 0 <= j < s.len() && #[trigger] s[j].0@ == k;
            if j != n {
                assert(old_s[j].0@ == k);
                assert(has_key(old_s, k));
            }
        }
        if m.contains_key(k) && k != s[n].0@ {
            let j = choose|j: int| 0 <= j < old_s.len() && #[trigger] old_s[j].0@ == k;
            assert(s[j].0@ == k);
        }
        if k == s[n].0@ {
            assert(s[n].0@ == k);
        }
    }
    assert forall|k: K::V| #[trigger] entries_map(s).contains_key(k) implies entries_map(s)[k] == m[k] by {
        let j = choose|j: int| 0 <= j < s.len() && #[trigger] s[j].0@ == k;
        lemma_entry_in_map(s, j);
        if j != n {
            assert(old_s[j] == s[j]);
            lemma_entry_in_map(old_s, j);
        }
    }
    assert(entries_map(s) =~= m);
}

/// Deleting the entry at `i` is a map remove.
proof fn lemma_remove_at<K: View, V: View>(old_s: Seq<(K, V)>, s: Seq<(K, V)>, i: int)
    requires
        unique_keys(old_s),
        unique_keys(s),
        0 <= i < old_s.len(),
        s == old_s.remove(i),
    ensures
        entries_map(s) == entries_map(old_s).remove(old_s[i].0@),
{
    let m = entries_map(old_s).remove(old_s[i].0@);
    assert forall|k: K::V| has_key(s, k) <==> m.contains_key(k) by {
        if has_key(s, k) {
            let j = choose|j: int| 0 <= j < s.len() && #[trigger] s[j].0@ == k;
            let j2 = if j < i { j } else { j + 1 };
            assert(old_s[j2].0@ == k);
            assert(has_key(old_s, k));
            assert(j2 != i);
        }
        if m.contains_key(k) {
            let j = choose|j: int| 0 <= j < old_s.len() && #[trigger] old_s[j].0@ == k;
            assert(j != i);
            let j2 = if j < i { j } else { j - 1 };
            assert(s[j2].0@ == k);
        }
    }
    assert forall|k: K::V| #[trigger] entries_map(s).contains_key(k) implies entries_map(s)[k] == m[k] by {
        let j = choose|j: int| 0 <= j < s.len() && #[trigger] s[j].0@ == k;
        lemma_entry_in_map(s, j);
        let j2 = if j < i { j } else { j + 1 };
        assert(old_s[j2] == s[j]);
        lemma_entry_in_map(old_s, j2);
    }
    assert(entries_map(s) =~= m);
}

/// The map of a list with unique keys has as many keys as the list has entries.
proof fn lemma_dom_len<K: View, V: View>(s: Seq<(K, V)>)
    requires
        unique_keys(s),
    ensures
        entries_map(s).dom().finite(),
        entries_map(s).dom().len() == s.len(),
    decreases s.len(),
{
    if s.len() == 0 {
        assert(entries_map(s).dom() =~= Set::<K::V>::empty());
    } else {
        let t = s.drop_last();
        assert forall|a: int, b: int|
            0 <= a < t.len() && 0 <= b < t.len() && a != b implies #[trigger] t[a].0@ != #[trigger] t[b].0@ by {
            assert(t[a] == s[a]);
            assert(t[b] == s[b]);
        }
        lemma_dom_len(t);
        let k = s[s.len() - 1].0@;
        assert forall|x: K::V| #[trigger] entries_map(s).dom().contains(x) <==> entries_map(t).dom().insert(k).contains(x) by {
            if has_key(s, x) {
                let j = choose|j: int| 0 <= j < s.len() && #[trigger] s[j].0@ == x;
                if j < t.len() {
                    assert(t[j].0@ == x);
                }
            }
            if has_key(t, x) {
                let j = choose|j: int| 0 <= j < t.len() && #[trigger] t[j].0@ == x;
                assert(s[j].0@ == x);
            }
            if x == k {
                assert(s[s.len() - 1].0@ == x);
            }
        }
        assert(entries_map(s).dom() =~= entries_map(t).dom().insert(k));
        assert(!entries_map(t).dom().contains(k)) by {
            if has_key(t, k) {
                let j = choose|j: int| 0 <= j < t.len() && #[trigger] t[j].0@ == k;
                assert(s[j].0@ == k);
            }
        }
    }
}

} // verus!
