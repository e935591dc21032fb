//! Statistics over an audit trail: how many events fall in each category and
//! in each severity, listed by name in the order strings sort in (their
//! UTF-8 bytes compared lexicographically).

use vstd::prelude::*;
use crate::audit::{utf8, AuditEvent};

verus! {

/// Byte-wise lexicographic order: `a` sorts before `b`.
pub open spec fn bytes_lt(a: Seq<u8>, b: Seq<u8>) -> bool
    decreases a.len(),
{
    if a.len() == 0 {
        b.len() > 0
    } else if b.len() == 0 {
        false
    } else if a[0] < b[0] {
        true
    } else if a[0] > b[0] {
        false
    } else {
        bytes_lt(a.drop_first(), b.drop_first())
    }
}

/// No sequence sorts before itself.
pub proof fn lemma_bytes_lt_irreflexive(a: Seq<u8>)
    ensures
        !bytes_lt(a, a),
    decreases a.len(),
{
    if a.len() > 0 {
        lemma_bytes_lt_irreflexive(a.drop_first());
    }
}

/// The byte order is transitive.
pub proof fn lemma_bytes_lt_transitive(a: Seq<u8>, b: Seq<u8>, c: Seq<u8>)
    requires
        bytes_lt(a, b),
        bytes_lt(b, c),
    ensures
        bytes_lt(a, c),
    decreases a.len(),
{
    if a.len() > 0 && b.len() > 0 && c.len() > 0 && a[0] == b[0] && b[0] == c[0] {
        lemma_bytes_lt_transitive(a.drop_first(), b.drop_first(), c.drop_first());
    }
}

/// Two different sequences are ordered one way or the other.
pub proof fn lemma_bytes_lt_total(a: Seq<u8>, b: Seq<u8>)
    requires
        a != b,
    ensures
        bytes_lt(a, b) || bytes_lt(b, a),
    decreases a.len(),
{
    if a.len() > 0 && b.len() > 0 && a[0] == b[0] {
        if a.drop_first() == b.drop_first() {
            assert(a =~= seq![a[0]] + a.drop_first());
            assert(b =~= seq![b[0]] + b.drop_first());
        }
        lemma_bytes_lt_total(a.drop_first(), b.drop_first());
    } else if a.len() == 0 && b.len() == 0 {
        assert(a =~= b);
    }
}

/// Different strings have different UTF-8 encodings.
pub proof fn lemma_utf8_injective(a: Seq<char>, b: Seq<char>)
    requires
        utf8(a) == utf8(b),
    ensures
        a == b,
{
    vstd::utf8::encode_utf8_decode_utf8(a);
    vstd::utf8::encode_utf8_decode_utf8(b);
}


/// Whether `a` sorts before `b`, byte by byte.
fn bytes_less(a: &[u8], b: &[u8]) -> (r: bool)
    ensures
        r == bytes_lt(a@, b@),
{
    let mut i: usize = 0;
    proof {
        assert(a@.skip(0) =~= a@);
        assert(b@.skip(0) =~= b@);
    }
    while i < a.len() && i < b.len()
        invariant
            0 <= i <= a@.len(),
            i <= b@.len(),
            bytes_lt(a@, b@) == bytes_lt(a@.skip(i as int), b@.skip(i as int)),
        decreases a@.len() - i,
    {
        if a[i] < b[i] {
            return true;
        }
        if a[i] > b[i] {
            return false;
        }
        proof {
            assert(a@.skip(i as int).drop_first() =~= a@.skip(i + 1));
            assert(b@.skip(i as int).drop_first() =~= b@.skip(i + 1));
        }
        i = i + 1;
    }
    i < b.len()
}

/// How many entries of `keys` equal `k`.
pub open spec fn occurrences(keys: Seq<Seq<char>>, k: Seq<char>) -> nat
    decreases keys.len(),
{
    if keys.len() == 0 {
        0
    } else {
        occurrences(keys.drop_last(), k) + if keys.last() == k { 1nat } else { 0nat }
    }
}

/// No entry occurs more often than there are entries.
proof fn lemma_occurrences_bounded(keys: Seq<Seq<char>>, k: Seq<char>)
    ensures
        occurrences(keys, k) <= keys.len(),
    decreases keys.len(),
{
    if keys.len() > 0 {
        lemma_occurrences_bounded(keys.drop_last(), k);
    }
}

/// A key that no entry equals occurs zero times.
proof fn lemma_occurrences_absent(keys: Seq<Seq<char>>, k: Seq<char>)
    requires
        forall|j: int| 0 <= j < keys.len() ==> keys[j] != k,
    ensures
        occurrences(keys, k) == 0,
    decreases keys.len(),
{
    if keys.len() > 0 {
        lemma_occurrences_absent(keys.drop_last(), k);
    }
}

/// `r` lists each distinct key of `keys` once, with how often it occurs,
/// ordered by the keys' UTF-8 bytes.
pub open spec fn is_breakdown(keys: Seq<Seq<char>>, r: Seq<(Seq<char>, usize)>) -> bool {
    &&& forall|i: int, j: int| 0 <= i < j < r.len() ==> bytes_lt(utf8(#[trigger] r[i].0), utf8(#[trigger] r[j].0))
    &&& forall|i: int| 0 <= i < r.len() ==> #[trigger] r[i].1 == occurrences(keys, r[i].0) && r[i].1 > 0
    &&& forall|j: int| 0 <= j < keys.len() ==> exists|i: int| 0 <= i < r.len() && #[trigger] r[i].0 == #[trigger] keys[j]
}

/// The views of a list of strings.
pub open spec fn string_views(v: Seq<String>) -> Seq<Seq<char>> {
    v.map_values(|s: String| s@)
}

/// The views of a breakdown.
pub open spec fn breakdown_views(v: Seq<(String, usize)>) -> Seq<(Seq<char>, usize)> {
    v.map_values(|e: (String, usize)| (e.0@, e.1))
}

/// Count each distinct key of `keys`, listing the keys in sorted order.
pub fn count_by_key(keys: &Vec<String>) -> (r: Vec<(String, usize)>)
    ensures
        is_breakdown(string_views(keys@), breakdown_views(r@)),
{
    let ghost ks = string_views(keys@);
    let mut r: Vec<(String, usize)> = Vec::new();
    let mut n: usize = 0;
    while n < keys.len()
        invariant
            0 <= n <= keys@.len(),
            ks == string_views(keys@),
            is_breakdown(ks.take(n as int), breakdown_views(r@)),
            forall|i: int| 0 <= i < r@.len() ==> #[trigger] r@[i].1 <= n,
        decreases keys@.len() - n,
    {
        let ghost rv = breakdown_views(r@);
        let k = &keys[n];
        let kb = k.as_str().as_bytes();
        let mut p: usize = 0;
        let mut searching = true;
        while searching && p < r.len()
            invariant
                0 <= p <= r@.len(),
                rv == breakdown_views(r@),
                kb@ == utf8(k@),
                forall|q: int| 0 <= q < p ==> bytes_lt(utf8(#[trigger] rv[q].0), utf8(k@)),
                !searching ==> p < r@.len() && !bytes_lt(utf8(rv[p as int].0), utf8(k@)),
            decreases r@.len() - p + if searching { 1int } else { 0int },
        {
            if bytes_less(r[p].0.as_str().as_bytes(), kb) {
                p = p + 1;
            } else {
                searching = false;
            }
        }
        let ghost kv = k@;
        let ghost t = ks.take(n + 1);
        proof {
            assert(ks[n as int] == kv);
            assert(t.drop_last() =~= ks.take(n as int));
            assert(t.last() == kv);
            assert(p < rv.len() ==> !bytes_lt(utf8(rv[p as int].0), utf8(kv)));
        }
        if p < r.len() && r[p].0 == *k {
            let c = r[p].1;
            proof {
                lemma_occurrences_bounded(ks.take(n as int), kv);
                assert(rv[p as int].0 == kv);
            }
            let key = r[p].0.clone();
            r.set(p, (key, c + 1));
            proof {
                let rv2 = breakdown_views(r@);
                assert(rv2 =~= rv.update(p as int, (kv, (c + 1) as usize)));
                assert forall|i: int| 0 <= i < rv.len() && i != p implies #[trigger] rv[i].0 != kv by {
                    if i < p {
                        assert(bytes_lt(utf8(rv[i].0), utf8(rv[p as int].0)));
                    } else {
                        assert(bytes_lt(utf8(rv[p as int].0), utf8(rv[i].0)));
                    }
                    if rv[i].0 == kv {
                        lemma_bytes_lt_irreflexive(utf8(kv));
                    }
                }
                assert forall|i: int| 0 <= i < rv2.len() implies #[trigger] rv2[i].1 == occurrences(t, rv2[i].0) && rv2[i].1 > 0 by {
                    assert(occurrences(t, rv2[i].0) == occurrences(ks.take(n as int), rv2[i].0) + if kv == rv2[i].0 { 1nat } else { 0nat });
                    if i != p {
                        assert(rv2[i] == rv[i]);
                        assert(rv[i].1 == occurrences(ks.take(n as int), rv[i].0));
                        assert(rv[i].0 != kv);
                    } else {
                        assert(rv[p as int].1 == occurrences(ks.take(n as int), rv[p as int].0));
                        assert(c == rv[p as int].1);
                    }
                }
                assert forall|j: int| 0 <= j < t.len() implies exists|i: int| 0 <= i < rv2.len() && #[trigger] rv2[i].0 == #[trigger] t[j] by {
                    if j == n {
                        assert(rv2[p as int].0 == t[j]);
                    } else {
                        assert(t[j] == ks.take(n as int)[j]);
                        let i = choose|i: int| 0 <= i < rv.len() && #[trigger] rv[i].0 == #[trigger] ks.take(n as int)[j];
                        assert(rv2[i].0 == t[j]);
                    }
                }
                assert(is_breakdown(t, rv2));
            }
        } else {
            proof {
                assert forall|i: int| 0 <= i < rv.len() implies #[trigger] rv[i].0 != kv by {
                    if i < p {
                        lemma_bytes_lt_irreflexive(utf8(kv));
                    } else {
                        assert(rv[p as int].0 != kv);
                        if utf8(rv[p as int].0) == utf8(kv) {
                            lemma_utf8_injective(rv[p as int].0, kv);
                        }
                        lemma_bytes_lt_total(utf8(rv[p as int].0), utf8(kv));
                        if i > p {
                            assert(bytes_lt(utf8(rv[p as int].0), utf8(rv[i].0)));
                            lemma_bytes_lt_transitive(utf8(kv), utf8(rv[p as int].0), utf8(rv[i].0));
                        }
                        if rv[i].0 == kv {
                            lemma_bytes_lt_irreflexive(utf8(kv));
                        }
                    }
                }
                assert forall|j: int| 0 <= j < n implies #[trigger] ks.take(n as int)[j] != kv by {
                    if ks.take(n as int)[j] == kv {
                        let i = choose|i: int| 0 <= i < rv.len() && #[trigger] rv[i].0 == #[trigger] ks.take(n as int)[j];
                        assert(rv[i].0 == kv);
                    }
                }
                lemma_occurrences_absent(ks.take(n as int), kv);
            }
            r.insert(p, (k.clone(), 1));
            proof {
                let rv2 = breakdown_views(r@);
                assert(rv2 =~= rv.insert(p as int, (kv, 1usize)));
                assert forall|i: int, j: int| 0 <= i < j < rv2.len() implies bytes_lt(utf8(#[trigger] rv2[i].0), utf8(#[trigger] rv2[j].0)) by {
                    if j < p {
                    } else if j == p {
                        assert(bytes_lt(utf8(rv[i].0), utf8(kv)));
                    } else if i < p {
                        assert(bytes_lt(utf8(rv[i].0), utf8(rv[j - 1].0)));
                    } else if i == p {
                        assert(rv2[j].0 == rv[j - 1].0);
                        assert(rv[p as int].0 != kv);
                        if utf8(rv[p as int].0) == utf8(kv) {
                            lemma_utf8_injective(rv[p as int].0, kv);
                        }
                        lemma_bytes_lt_total(utf8(rv[p as int].0), utf8(kv));
                        if j - 1 > p {
                            assert(bytes_lt(utf8(rv[p as int].0), utf8(rv[j - 1].0)));
                            lemma_bytes_lt_transitive(utf8(kv), utf8(rv[p as int].0), utf8(rv[j - 1].0));
                        }
                    } else {
                        assert(bytes_lt(utf8(rv[i - 1].0), utf8(rv[j - 1].0)));
                    }
                }
                assert forall|i: int| 0 <= i < rv2.len() implies #[trigger] rv2[i].1 == occurrences(t, rv2[i].0) && rv2[i].1 > 0 by {
                    assert(occurrences(t, rv2[i].0) == occurrences(ks.take(n as int), rv2[i].0) + if kv == rv2[i].0 { 1nat } else { 0nat });
                    if i < p {
                        assert(rv2[i] == rv[i]);
                        assert(rv[i].1 == occurrences(ks.take(n as int), rv[i].0));
                        assert(rv[i].0 != kv);
                    } else if i > p {
                        assert(rv2[i] == rv[i - 1]);
                        assert(rv[i - 1].1 == occurrences(ks.take(n as int), rv[i - 1].0));
                        assert(rv[i - 1].0 != kv);
                    }
                }
                assert forall|j: int| 0 <= j < t.len() implies exists|i: int| 0 <= i < rv2.len() && #[trigger] rv2[i].0 == #[trigger] t[j] by {
                    if j == n {
                        assert(rv2[p as int].0 == t[j]);
                    } else {
                        assert(t[j] == ks.take(n as int)[j]);
                        let i = choose|i: int| 0 <= i < rv.len() && #[trigger] rv[i].0 == #[trigger] ks.take(n as int)[j];
                        if i < p {
                            assert(rv2[i].0 == t[j]);
                        } else {
                            assert(rv2[i + 1].0 == t[j]);
                        }
                    }
                }
                assert(is_breakdown(t, rv2));
            }
        }
        n = n + 1;
    }
    proof {
        assert(ks.take(keys@.len() as int) =~= ks);
    }
    r
}


/// The category of each event, in order.
pub open spec fn event_categories(events: Seq<AuditEvent>) -> Seq<Seq<char>> {
    Seq::new(events.len(), |i: int| events[i].category@)
}

/// The severity of each event, in order.
pub open spec fn event_severities(events: Seq<AuditEvent>) -> Seq<Seq<char>> {
    Seq::new(events.len(), |i: int| events[i].severity@)
}

/// How many events fall in each category, by category name in sorted order.
pub fn category_breakdown(events: &Vec<AuditEvent>) -> (r: Vec<(String, usize)>)
    ensures
        is_breakdown(event_categories(events@), breakdown_views(r@)),
{
    let mut keys: Vec<String> = Vec::new();
    let mut i: usize = 0;
    while i < events.len()
        invariant
            0 <= i <= events@.len(),
            string_views(keys@) =~= event_categories(events@).take(i as int),
        decreases events@.len() - i,
    {
        let ghost before = keys@;
        let key = events[i].category.clone();
        keys.push(key);
        proof {
            assert(string_views(keys@) =~= string_views(before).push(events@[i as int].category@));
            assert(event_categories(events@).take(i + 1) =~= event_categories(events@).take(i as int).push(events@[i as int].category@));
        }
        i = i + 1;
    }
    proof {
        assert(event_categories(events@).take(events@.len() as int) =~= event_categories(events@));
    }
    count_by_key(&keys)
}

/// How many events carry each severity, by severity name in sorted order.
pub fn severity_breakdown(events: &Vec<AuditEvent>) -> (r: Vec<(String, usize)>)
    ensures
        is_breakdown(event_severities(events@), breakdown_views(r@)),
{
    let mut keys: Vec<String> = Vec::new();
    let mut i: usize = 0;
    while i < events.len()
        invariant
            0 <= i <= events@.len(),
            string_views(keys@) =~= event_severities(events@).take(i as int),
        decreases events@.len() - i,
    {
        let ghost before = keys@;
        let key = events[i].severity.clone();
        keys.push(key);
        proof {
            assert(string_views(keys@) =~= string_views(before).push(events@[i as int].severity@));
            assert(event_severities(events@).take(i + 1) =~= event_severities(events@).take(i as int).push(events@[i as int].severity@));
        }
        i = i + 1;
    }
    proof {
        assert(event_severities(events@).take(events@.len() as int) =~= event_severities(events@));
    }
    count_by_key(&keys)
}

} // verus!
