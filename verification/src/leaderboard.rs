//! The top-traders leaderboard: at most 100 `(user, pnl)` entries ordered by
//! PnL from highest to lowest.

use vstd::prelude::*;

verus! {

broadcast use vstd::multiset::group_multiset_axioms;

/// Maximum number of leaderboard entries.
pub const MAX_TOP_TRADERS: usize = 100;

/// Entries ordered by PnL, highest first.
pub open spec fn sorted_desc(s: Seq<(u64, i128)>) -> bool {
    forall|i: int, j: int| 0 <= i < j < s.len() ==> #[trigger] s[i].1 >= #[trigger] s[j].1
}

/// Whether `user` has an entry in `s`.
pub open spec fn listed(s: Seq<(u64, i128)>, user: u64) -> bool {
    exists|i: int| 0 <= i < s.len() && #[trigger] s[i].0 == user
}

/// First position of `user` in `s`.
pub open spec fn first_pos(s: Seq<(u64, i128)>, user: u64) -> int {
    choose|i: int| 0 <= i < s.len() && s[i].0 == user && (forall|k: int| 0 <= k < i ==> #[trigger] s[k].0 != user)
}

/// The board with `user`'s PnL recorded before re-sorting: an existing entry
/// is updated in place; a new user is appended while there is room, or takes
/// the last slot of a full board if its PnL beats that slot's.
pub open spec fn board_with(s: Seq<(u64, i128)>, user: u64, pnl: i128) -> Seq<(u64, i128)> {
    if listed(s, user) {
        s.update(first_pos(s, user), (user, pnl))
    } else if s.len() < 100 {
        s.push((user, pnl))
    } else if pnl > s[99].1 {
        s.update(99, (user, pnl))
    } else {
        s
    }
}

/// Position of `user` in `v`, scanning from the front.
fn find_user(v: &Vec<(u64, i128)>, user: u64) -> (r: Option<usize>)
    ensures
        match r {
            Some(i) => i < v@.len() && v@[i as int].0 == user && (forall|k: int| 0 <= k < i ==> #[trigger] v@[k].0 != user),
            None => !listed(v@, user),
        },
{
    let mut i: usize = 0;
    while i < v.len()
        invariant
            0 <= i <= v@.len(),
            forall|k: int| 0 <= k < i ==> #[trigger] v@[k].0 != user,
        decreases v@.len() - i,
    {
        if v[i].0 == user {
            return Some(i);
        }
        i = i + 1;
    }
    None
}

/// Index of the first entry of `t` whose PnL is below `pnl`, or the
/// length of `t` when there is none.
pub open spec fn insert_pos(t: Seq<(u64, i128)>, pnl: i128) -> int
    decreases t.len(),
{
    if t.len() == 0 {
        0
    } else if t[0].1 < pnl {
        0
    } else {
        1 + insert_pos(t.drop_first(), pnl)
    }
}

/// Stable sort by PnL, highest first: entries are taken in order and each
/// is placed after every entry whose PnL is at least its own, so entries of
/// equal PnL keep their relative order.
pub open spec fn stable_desc(s: Seq<(u64, i128)>) -> Seq<(u64, i128)>
    decreases s.len(),
{
    if s.len() == 0 {
        s
    } else {
        let t = stable_desc(s.drop_last());
        t.insert(insert_pos(t, s.last().1), s.last())
    }
}

/// `insert_pos` is the first index whose PnL is below `pnl`.
proof fn lemma_insert_pos(t: Seq<(u64, i128)>, pnl: i128)
    ensures
        0 <= insert_pos(t, pnl) <= t.len(),
        forall|j: int| 0 <= j < insert_pos(t, pnl) ==> #[trigger] t[j].1 >= pnl,
        insert_pos(t, pnl) < t.len() ==> t[insert_pos(t, pnl)].1 < pnl,
    decreases t.len(),
{
    if t.len() > 0 && t[0].1 >= pnl {
        lemma_insert_pos(t.drop_first(), pnl);
        assert forall|j: int| 0 <= j < insert_pos(t, pnl) implies #[trigger] t[j].1 >= pnl by {
            if j > 0 {
                assert(t[j] == t.drop_first()[j - 1]);
            }
        }
    }
}

/// An index before which every PnL is at least `pnl` and at which the PnL
/// is below it (or the end) is `insert_pos`.
proof fn lemma_insert_pos_unique(t: Seq<(u64, i128)>, pnl: i128, k: int)
    requires
        0 <= k <= t.len(),
        forall|j: int| 0 <= j < k ==> #[trigger] t[j].1 >= pnl,
        k < t.len() ==> t[k].1 < pnl,
    ensures
        insert_pos(t, pnl) == k,
    decreases t.len(),
{
    if t.len() > 0 && k > 0 {
        assert(t[0].1 >= pnl);
        assert forall|j: int| 0 <= j < k - 1 implies #[trigger] t.drop_first()[j].1 >= pnl by {
            assert(t.drop_first()[j] == t[j + 1]);
        }
        lemma_insert_pos_unique(t.drop_first(), pnl, k - 1);
    }
}

/// Inserting at `insert_pos` keeps a board sorted.
proof fn lemma_insert_keeps_sorted(t: Seq<(u64, i128)>, e: (u64, i128))
    requires
        sorted_desc(t),
    ensures
        sorted_desc(t.insert(insert_pos(t, e.1), e)),
{
    lemma_insert_pos(t, e.1);
    let k = insert_pos(t, e.1);
    let r = t.insert(k, e);
    assert forall|i: int, j: int| 0 <= i < j < r.len() implies #[trigger] r[i].1 >= #[trigger] r[j].1 by {
        if j < k {
        } else if j == k {
            assert(r[i] == t[i]);
        } else if i < k {
            assert(r[i] == t[i] && r[j] == t[j - 1]);
        } else if i == k {
            assert(r[j] == t[j - 1]);
            assert(t[k].1 >= t[j - 1].1);
        } else {
            assert(r[i] == t[i - 1] && r[j] == t[j - 1]);
        }
    }
}

/// The stable sort is sorted, and holds the same entries.
pub proof fn lemma_stable_desc(s: Seq<(u64, i128)>)
    ensures
        sorted_desc(stable_desc(s)),
        stable_desc(s).to_multiset() == s.to_multiset(),
        stable_desc(s).len() == s.len(),
    decreases s.len(),
{
    if s.len() > 0 {
        let t = stable_desc(s.drop_last());
        lemma_stable_desc(s.drop_last());
        lemma_insert_pos(t, s.last().1);
        lemma_insert_keeps_sorted(t, s.last());
        vstd::seq_lib::to_multiset_insert(t, insert_pos(t, s.last().1), s.last());
        vstd::seq_lib::to_multiset_build(s.drop_last(), s.last());
        assert(s.drop_last().push(s.last()) =~= s);
    }
}

/// Stable sort by PnL, highest first: entries of equal PnL keep their
/// order.
pub fn sort_desc(v: &mut Vec<(u64, i128)>)
    ensures
        final(v)@ == stable_desc(old(v)@),
        sorted_desc(final(v)@),
        final(v)@.to_multiset() == old(v)@.to_multiset(),
        final(v)@.len() == old(v)@.len(),
{
    let ghost orig = v@;
    let mut out: Vec<(u64, i128)> = Vec::new();
    let mut i: usize = 0;
    while i < v.len()
        invariant
            0 <= i <= v@.len(),
            v@ == orig,
            out@ == stable_desc(orig.take(i as int)),
        decreases v@.len() - i,
    {
        let e = v[i];
        let mut k: usize = 0;
        while k < out.len() && out[k].1 >= e.1
            invariant
                0 <= k <= out@.len(),
                forall|j: int| 0 <= j < k ==> #[trigger] out@[j].1 >= e.1,
            decreases out@.len() - k,
        {
            k = k + 1;
        }
        proof {
            lemma_insert_pos_unique(out@, e.1, k as int);
            let s = orig.take(i + 1);
            assert(s.drop_last() =~= orig.take(i as int));
            assert(s.last() == e);
        }
        out.insert(k, e);
        i = i + 1;
    }
    proof {
        assert(orig.take(orig.len() as int) =~= orig);
        lemma_stable_desc(orig);
    }
    *v = out;
}

/// Record `user` with `pnl` on the board and re-sort it.
pub fn update_board(v: &mut Vec<(u64, i128)>, user: u64, pnl: i128)
    ensures
        final(v)@ == stable_desc(board_with(old(v)@, user, pnl)),
        sorted_desc(final(v)@),
        final(v)@.to_multiset() == board_with(old(v)@, user, pnl).to_multiset(),
        final(v)@.len() == board_with(old(v)@, user, pnl).len(),
{
    let ghost s = old(v)@;
    match find_user(v, user) {
        Some(idx) => {
            proof {
                let fp = first_pos(s, user);
                assert(s[idx as int].0 == user && (forall|k: int| 0 <= k < idx ==> #[trigger] s[k].0 != user));
                assert(listed(s, user));
                if fp < idx {
                    assert(s[fp].0 != user);
                } else if fp > idx {
                    assert(s[idx as int].0 != user);
                }
            }
            v.set(idx, (user, pnl));
        },
        None => {
            if v.len() < MAX_TOP_TRADERS {
                v.push((user, pnl));
            } else {
                let lowest = v[99].1;
                if pnl > lowest {
                    v.set(99, (user, pnl));
                }
            }
        },
    }
    proof {
        assert(v@ == board_with(s, user, pnl));
    }
    sort_desc(v);
}


/// The board never holds more than 100 entries: recording a PnL on a board
/// of at most 100 entries and re-sorting it leaves at most 100.
pub proof fn lemma_board_capped(s: Seq<(u64, i128)>, user: u64, pnl: i128)
    requires
        s.len() <= 100,
    ensures
        stable_desc(board_with(s, user, pnl)).len() <= 100,
{
    if listed(s, user) {
        let j = choose|i: int| 0 <= i < s.len() && #[trigger] s[i].0 == user;
        lemma_first_listed(s, user, j);
    }
    lemma_stable_desc(board_with(s, user, pnl));
}

/// A user listed at `j` has a first position, at or before `j`.
proof fn lemma_first_listed(s: Seq<(u64, i128)>, user: u64, j: int)
    requires
        0 <= j < s.len(),
        s[j].0 == user,
    ensures
        0 <= first_pos(s, user) < s.len(),
        s[first_pos(s, user)].0 == user,
    decreases j,
{
    if exists|k: int| 0 <= k < j && #[trigger] s[k].0 == user {
        let k = choose|k: int| 0 <= k < j && #[trigger] s[k].0 == user;
        lemma_first_listed(s, user, k);
    } else {
        assert(forall|k: int| 0 <= k < j ==> #[trigger] s[k].0 != user);
    }
}

/// No user has two entries.
pub open spec fn distinct_users(s: Seq<(u64, i128)>) -> bool {
    forall|i: int, j: int| 0 <= i < j < s.len() ==> #[trigger] s[i].0 != #[trigger] s[j].0
}

/// An entry of `t` is an entry of `s` when both hold the same entries.
proof fn lemma_entry_of_same_multiset(t: Seq<(u64, i128)>, s: Seq<(u64, i128)>, k: int)
    requires
        t.to_multiset() == s.to_multiset(),
        0 <= k < t.len(),
    ensures
        exists|m: int| 0 <= m < s.len() && s[m] == t[k],
{
    vstd::seq_lib::to_multiset_contains(t, t[k]);
    vstd::seq_lib::to_multiset_contains(s, t[k]);
    assert(t.contains(t[k]));
}

/// The stable sort of a board without repeated users has none either.
proof fn lemma_stable_desc_distinct(s: Seq<(u64, i128)>)
    requires
        distinct_users(s),
    ensures
        distinct_users(stable_desc(s)),
    decreases s.len(),
{
    if s.len() > 0 {
        let d = s.drop_last();
        let e = s.last();
        let t = stable_desc(d);
        assert(distinct_users(d));
        lemma_stable_desc_distinct(d);
        lemma_stable_desc(d);
        lemma_insert_pos(t, e.1);
        let k = insert_pos(t, e.1);
        let r = t.insert(k, e);
        assert forall|m: int| 0 <= m < t.len() implies #[trigger] t[m].0 != e.0 by {
            lemma_entry_of_same_multiset(t, d, m);
            let w = choose|w: int| 0 <= w < d.len() && d[w] == t[m];
            assert(s[w] == d[w]);
            assert(s[s.len() - 1] == e);
        }
        assert forall|i: int, j: int| 0 <= i < j < r.len() implies #[trigger] r[i].0 != #[trigger] r[j].0 by {
            if j < k {
                assert(r[i] == t[i] && r[j] == t[j]);
            } else if j == k {
                assert(r[i] == t[i]);
            } else if i < k {
                assert(r[i] == t[i] && r[j] == t[j - 1]);
            } else if i == k {
                assert(r[j] == t[j - 1]);
            } else {
                assert(r[i] == t[i - 1] && r[j] == t[j - 1]);
            }
        }
    }
}

/// No user appears twice on the board: recording a PnL on a board without
/// repeated users and re-sorting it keeps every user to one entry.
pub proof fn lemma_board_users_distinct(s: Seq<(u64, i128)>, user: u64, pnl: i128)
    requires
        distinct_users(s),
    ensures
        distinct_users(stable_desc(board_with(s, user, pnl))),
{
    let b = board_with(s, user, pnl);
    if listed(s, user) {
        let j = choose|i: int| 0 <= i < s.len() && #[trigger] s[i].0 == user;
        lemma_first_listed(s, user, j);
        let f = first_pos(s, user);
        assert forall|i: int, k: int| 0 <= i < k < b.len() implies #[trigger] b[i].0 != #[trigger] b[k].0 by {
            if i == f {
                assert(s[f].0 == user);
                assert(s[k].0 != s[f].0);
            } else if k == f {
                assert(s[i].0 != s[f].0);
            } else {
                assert(s[i].0 != s[k].0);
            }
        }
    } else if s.len() < 100 {
        assert forall|i: int, k: int| 0 <= i < k < b.len() implies #[trigger] b[i].0 != #[trigger] b[k].0 by {
            if k == s.len() {
                assert(b[i] == s[i]);
                if s[i].0 == user {
                    assert(listed(s, user));
                }
            } else {
                assert(s[i].0 != s[k].0);
            }
        }
    } else if pnl > s[99].1 {
        assert forall|i: int, k: int| 0 <= i < k < b.len() implies #[trigger] b[i].0 != #[trigger] b[k].0 by {
            if k == 99 {
                assert(b[i] == s[i]);
                if s[i].0 == user {
                    assert(listed(s, user));
                }
            } else if i == 99 {
                assert(b[k] == s[k]);
                if s[k].0 == user {
                    assert(listed(s, user));
                }
            } else {
                assert(s[i].0 != s[k].0);
            }
        }
    }
    lemma_stable_desc_distinct(b);
}

/// A well-kept board: ordered by PnL from highest to lowest, at most 100
/// entries, and no user listed twice.
pub open spec fn board_ok(s: Seq<(u64, i128)>) -> bool {
    &&& sorted_desc(s)
    &&& s.len() <= 100
    &&& distinct_users(s)
}

/// Recording a PnL keeps a board well kept: it stays sorted, capped at 100
/// entries and free of repeated users.
pub proof fn lemma_board_ok_kept(s: Seq<(u64, i128)>, user: u64, pnl: i128)
    requires
        board_ok(s),
    ensures
        board_ok(stable_desc(board_with(s, user, pnl))),
{
    lemma_stable_desc(board_with(s, user, pnl));
    lemma_board_capped(s, user, pnl);
    lemma_board_users_distinct(s, user, pnl);
}

/// The first `k` entries of a well-kept board are a well-kept board.
pub proof fn lemma_board_prefix_ok(s: Seq<(u64, i128)>, k: int)
    requires
        board_ok(s),
        0 <= k <= s.len(),
    ensures
        board_ok(s.subrange(0, k)),
{
    let t = s.subrange(0, k);
    assert forall|i: int, j: int| 0 <= i < j < t.len() implies #[trigger] t[i].1 >= #[trigger] t[j].1 by {
        assert(t[i] == s[i] && t[j] == s[j]);
    }
    assert forall|i: int, j: int| 0 <= i < j < t.len() implies #[trigger] t[i].0 != #[trigger] t[j].0 by {
        assert(t[i] == s[i] && t[j] == s[j]);
    }
}

} // verus!
