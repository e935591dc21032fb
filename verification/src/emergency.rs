//! Emergency controls: an admin may pause trading, freeze users and set the
//! circuit-breaker threshold; swap volume is tallied per ledger, and a
//! ledger whose projected volume exceeds the threshold share of normal
//! volume pauses trading.

use vstd::prelude::*;
use crate::errors::SwapTradeError;
use crate::portfolio::Portfolio;

verus! {

/// Threshold used when none was set: 100% of normal volume.
pub const DEFAULT_THRESHOLD_BPS: u32 = 10000;

/// The stored settings of the emergency controls.
#[derive(Clone, Copy, Debug, PartialEq, Eq, Structural)]
pub enum EmergencyKey {
    Paused,
    FrozenUsers,
    BlockVolume,
    ThresholdBps,
    Admin,
}

/// A view of the platform state for incident review.
pub struct StateSnapshot {
    pub balances: Vec<((u64, String), i128)>,
    pub pool_xlm: i128,
    pub pool_usdc: i128,
    pub total_fees: i128,
    pub badges: Vec<((u64, String), bool)>,
    pub tiers: Vec<(u64, String)>,
    pub paused: bool,
    pub frozen_users: Vec<u64>,
    pub block_volume: Vec<(u64, i128)>,
}

/// Keys of `s` strictly increase.
pub open spec fn strictly_sorted(s: Seq<(u64, i128)>) -> bool {
    forall|i: int, j: int| 0 <= i < j < s.len() ==> #[trigger] s[i].0 < #[trigger] s[j].0
}

/// The map a sorted list of entries stands for.
pub open spec fn volume_map(s: Seq<(u64, i128)>) -> Map<u64, i128> {
    Map::new(
        |h: u64| exists|i: int| 0 <= i < s.len() && s[i].0 == h,
        |h: u64| s[choose|i: int| 0 <= i < s.len() && s[i].0 == h].1,
    )
}

/// Abstract state of the emergency controls.
pub struct EmergencyView {
    pub admin: Option<u64>,
    pub paused: Option<bool>,
    pub frozen: Option<Seq<u64>>,
    pub threshold_bps: Option<u32>,
    pub block_volume: Seq<(u64, i128)>,
    pub volume_stored: bool,
}

impl EmergencyView {
    /// Whether trading is paused.
    pub open spec fn is_paused(self) -> bool {
        self.paused == Some(true)
    }

    /// The frozen users, in freezing order.
    pub open spec fn frozen_users(self) -> Seq<u64> {
        match self.frozen {
            Some(f) => f,
            None => Seq::empty(),
        }
    }

    /// Whether `user` is frozen.
    pub open spec fn is_frozen(self, user: u64) -> bool {
        self.frozen_users().contains(user)
    }

    /// The circuit-breaker threshold in basis points.
    pub open spec fn threshold(self) -> u32 {
        match self.threshold_bps {
            Some(t) => t,
            None => DEFAULT_THRESHOLD_BPS,
        }
    }

    /// Volume recorded at ledger `height`.
    pub open spec fn volume_at(self, height: u64) -> i128 {
        if volume_map(self.block_volume).contains_key(height) { volume_map(self.block_volume)[height] } else { 0 }
    }

    /// Whether `addr` is the admin.
    pub open spec fn admin_is(self, addr: u64) -> bool {
        self.admin == Some(addr)
    }
}

/// `s` with `amount` added (saturating) to the volume of `height`, kept in
/// key order.
pub open spec fn volume_added(s: Seq<(u64, i128)>, height: u64, amount: i128) -> Map<u64, i128> {
    let m = volume_map(s);
    let cur = if m.contains_key(height) { m[height] } else { 0i128 };
    m.insert(height, crate::math::clamp_i128(cur + amount) as i128)
}

/// The emergency controls' stored state.
pub struct EmergencyState {
    admin: Option<u64>,
    paused: Option<bool>,
    frozen: Option<Vec<u64>>,
    threshold_bps: Option<u32>,
    block_volume: Vec<(u64, i128)>,
    volume_stored: bool,
}

impl View for EmergencyState {
    type V = EmergencyView;

    closed spec fn view(&self) -> EmergencyView {
        EmergencyView {
            admin: self.admin,
            paused: self.paused,
            frozen: match self.frozen {
                Some(f) => Some(f@),
                None => None,
            },
            threshold_bps: self.threshold_bps,
            block_volume: self.block_volume@,
            volume_stored: self.volume_stored,
        }
    }
}

impl EmergencyState {
    #[verifier::type_invariant]
    spec fn wf(self) -> bool {
        &&& strictly_sorted(self.block_volume@)
        &&& match self.frozen {
            Some(f) => f@.no_duplicates(),
            None => true,
        }
    }

    /// Controls with nothing stored.
    pub fn new() -> (r: EmergencyState)
        ensures
            r@.admin is None,
            r@.paused is None,
            r@.frozen is None,
            r@.threshold_bps is None,
            r@.block_volume.len() == 0,
            !r@.volume_stored,
    {
        EmergencyState {
            admin: None,
            paused: None,
            frozen: None,
            threshold_bps: None,
            block_volume: Vec::new(),
            volume_stored: false,
        }
    }

    /// Whether a value is stored under `key`.
    pub fn is_set(&self, key: EmergencyKey) -> (r: bool)
        ensures
            key == EmergencyKey::Paused ==> r == self@.paused is Some,
            key == EmergencyKey::FrozenUsers ==> r == self@.frozen is Some,
            key == EmergencyKey::BlockVolume ==> r == self@.volume_stored,
            key == EmergencyKey::ThresholdBps ==> r == self@.threshold_bps is Some,
            key == EmergencyKey::Admin ==> r == self@.admin is Some,
    {
        match key {
            EmergencyKey::Paused => self.paused.is_some(),
            EmergencyKey::FrozenUsers => self.frozen.is_some(),
            EmergencyKey::BlockVolume => self.volume_stored,
            EmergencyKey::ThresholdBps => self.threshold_bps.is_some(),
            EmergencyKey::Admin => self.admin.is_some(),
        }
    }
}

/// Make `admin` the emergency admin.
pub fn set_admin(state: &mut EmergencyState, admin: u64)
    ensures
        final(state)@ == (EmergencyView { admin: Some(admin), ..old(state)@ }),
{
    proof {
        use_type_invariant(&*state);
    }
    state.admin = Some(admin);
}

/// The emergency admin, if one was set.
pub fn get_admin(state: &EmergencyState) -> (r: Option<u64>)
    ensures
        r == state@.admin,
{
    state.admin
}

/// Whether `addr` is the emergency admin.
pub fn is_admin(state: &EmergencyState, addr: u64) -> (r: bool)
    ensures
        r == state@.admin_is(addr),
{
    match state.admin {
        Some(a) => a == addr,
        None => false,
    }
}

/// Pause trading; only the admin may.
pub fn pause(state: &mut EmergencyState, admin: u64) -> (r: Result<bool, SwapTradeError>)
    ensures
        !old(state)@.admin_is(admin) ==> r == Err::<bool, SwapTradeError>(SwapTradeError::NotEmergencyAdmin)
            && final(state)@ == old(state)@,
        old(state)@.admin_is(admin) ==> r == Ok::<bool, SwapTradeError>(true)
            && final(state)@ == (EmergencyView { paused: Some(true), ..old(state)@ }),
{
    proof {
        use_type_invariant(&*state);
    }
    if !is_admin(state, admin) {
        return Err(SwapTradeError::NotEmergencyAdmin);
    }
    state.paused = Some(true);
    Ok(true)
}

/// Resume trading; only the admin may.
pub fn unpause(state: &mut EmergencyState, admin: u64) -> (r: Result<bool, SwapTradeError>)
    ensures
        !old(state)@.admin_is(admin) ==> r == Err::<bool, SwapTradeError>(SwapTradeError::NotEmergencyAdmin)
            && final(state)@ == old(state)@,
        old(state)@.admin_is(admin) ==> r == Ok::<bool, SwapTradeError>(true)
            && final(state)@ == (EmergencyView { paused: Some(false), ..old(state)@ }),
{
    proof {
        use_type_invariant(&*state);
    }
    if !is_admin(state, admin) {
        return Err(SwapTradeError::NotEmergencyAdmin);
    }
    state.paused = Some(false);
    Ok(true)
}

/// Whether trading is paused.
pub fn is_paused(state: &EmergencyState) -> (r: bool)
    ensures
        r == state@.is_paused(),
{
    match state.paused {
        Some(p) => p,
        None => false,
    }
}

/// Whether `v` holds `x`.
fn contains_user(v: &Vec<u64>, x: u64) -> (r: bool)
    ensures
        r == v@.contains(x),
{
    let mut i: usize = 0;
    while i < v.len()
        invariant
            0 <= i <= v.len(),
            forall|j: int| 0 <= j < i ==> v@[j] != x,
        decreases v.len() - i,
    {
        if v[i] == x {
            return true;
        }
        i = i + 1;
    }
    false
}

/// A copy of the frozen list (empty when none is stored).
fn frozen_list(state: &EmergencyState) -> (r: Vec<u64>)
    ensures
        r@ == state@.frozen_users(),
{
    match &state.frozen {
        Some(f) => crate::store::Dup::dup(f),
        None => Vec::new(),
    }
}

/// Holds of every account but `user`.
pub open spec fn other_than(user: u64) -> spec_fn(u64) -> bool {
    |u: u64| u != user
}

/// The controls after freezing `user`: appended to the frozen list unless
/// already on it.
pub open spec fn with_frozen(v: EmergencyView, user: u64) -> EmergencyView {
    if v.is_frozen(user) {
        v
    } else {
        EmergencyView { frozen: Some(v.frozen_users().push(user)), ..v }
    }
}

/// The controls after unfreezing `user`: every listing of the user removed,
/// the others kept in order.
pub open spec fn with_unfrozen(v: EmergencyView, user: u64) -> EmergencyView {
    EmergencyView { frozen: Some(v.frozen_users().filter(other_than(user))), ..v }
}

/// A list without `user` is unchanged by removing `user`.
proof fn lemma_filter_absent(s: Seq<u64>, user: u64)
    requires
        !s.contains(user),
    ensures
        s.filter(other_than(user)) == s,
    decreases s.len(),
{
    reveal(Seq::filter);
    if s.len() > 0 {
        assert(!s.drop_last().contains(user)) by {
            if s.drop_last().contains(user) {
                let i = choose|i: int| 0 <= i < s.drop_last().len() && s.drop_last()[i] == user;
                assert(s[i] == user);
            }
        }
        lemma_filter_absent(s.drop_last(), user);
        assert(s.last() != user) by {
            assert(s[s.len() - 1] == s.last());
        }
        assert(s.drop_last().push(s.last()) =~= s);
    }
}

/// Freezing and unfreezing: freezing makes `user` frozen and unfreezing
/// makes them not frozen; neither changes whether any other account is
/// frozen, nor anything but the frozen list; the list never holds an
/// account twice if it did not before; and unfreezing a user that freezing
/// added gives back the list as it was.
pub proof fn lemma_freeze_unfreeze(v: EmergencyView, user: u64, other: u64)
    ensures
        with_frozen(v, user).is_frozen(user),
        !with_unfrozen(v, user).is_frozen(user),
        other != user ==> with_frozen(v, user).is_frozen(other) == v.is_frozen(other),
        other != user ==> with_unfrozen(v, user).is_frozen(other) == v.is_frozen(other),
        with_frozen(v, user).admin == v.admin && with_frozen(v, user).paused == v.paused,
        with_unfrozen(v, user).admin == v.admin && with_unfrozen(v, user).paused == v.paused,
        v.frozen_users().no_duplicates() ==> with_frozen(v, user).frozen_users().no_duplicates(),
        v.frozen_users().no_duplicates() ==> with_unfrozen(v, user).frozen_users().no_duplicates(),
        !v.is_frozen(user) ==> with_unfrozen(with_frozen(v, user), user).frozen_users() == v.frozen_users(),
{
    let f = v.frozen_users();
    let keep = other_than(user);
    let g = f.filter(keep);
    assert(with_unfrozen(v, user).frozen_users() == g);
    if g.contains(user) {
        let i = choose|i: int| 0 <= i < g.len() && g[i] == user;
        f.lemma_filter_pred(keep, i);
    }
    if other != user && f.contains(other) {
        let i = choose|i: int| 0 <= i < f.len() && f[i] == other;
        f.lemma_filter_contains(keep, i);
    }
    if g.contains(other) {
        f.lemma_filter_contains_rev(keep, other);
    }
    if f.no_duplicates() {
        lemma_filter_no_duplicates(f, user);
    }
    if !v.is_frozen(user) {
        let p = f.push(user);
        assert(with_frozen(v, user).frozen_users() == p);
        assert(p[f.len() as int] == user);
        if other != user && p.contains(other) {
            let i = choose|i: int| 0 <= i < p.len() && p[i] == other;
            assert(f[i] == other);
        }
        if f.contains(other) {
            let i = choose|i: int| 0 <= i < f.len() && f[i] == other;
            assert(p[i] == other);
        }
        if f.no_duplicates() {
            assert forall|i: int, j: int| 0 <= i < p.len() && 0 <= j < p.len() && i != j implies p[i] != p[j] by {
                if i < f.len() && j < f.len() {
                    assert(f[i] != f[j]);
                } else if i < f.len() {
                    assert(f[i] != user);
                } else if j < f.len() {
                    assert(f[j] != user);
                }
            }
        }
        reveal(Seq::filter);
        assert(p.drop_last() =~= f);
        lemma_filter_absent(f, user);
        assert(p.filter(keep) == f);
    }
}

/// Removing `user` from a list without repeats leaves a list without repeats.
proof fn lemma_filter_no_duplicates(s: Seq<u64>, user: u64)
    requires
        s.no_duplicates(),
    ensures
        s.filter(other_than(user)).no_duplicates(),
    decreases s.len(),
{
    reveal(Seq::filter);
    if s.len() > 0 {
        let d = s.drop_last();
        let keep = other_than(user);
        lemma_filter_no_duplicates(d, user);
        let sub = d.filter(keep);
        if sub.contains(s.last()) {
            d.lemma_filter_contains_rev(keep, s.last());
            let i = choose|i: int| 0 <= i < d.len() && d[i] == s.last();
            assert(s[i] == s[s.len() - 1]);
        }
        if keep(s.last()) {
            let q = sub.push(s.last());
            assert forall|i: int, j: int| 0 <= i < q.len() && 0 <= j < q.len() && i != j implies q[i] != q[j] by {
                if i < sub.len() && j < sub.len() {
                    assert(sub[i] != sub[j]);
                } else if i < sub.len() {
                    assert(sub.contains(sub[i]));
                } else if j < sub.len() {
                    assert(sub.contains(sub[j]));
                }
            }
        }
    }
}

/// Freeze `user`; only the admin may. A user is listed at most once.
pub fn freeze_user(state: &mut EmergencyState, admin: u64, user: u64) -> (r: Result<bool, SwapTradeError>)
    ensures
        !old(state)@.admin_is(admin) ==> r == Err::<bool, SwapTradeError>(SwapTradeError::NotEmergencyAdmin)
            && final(state)@ == old(state)@,
        old(state)@.admin_is(admin) ==> r == Ok::<bool, SwapTradeError>(true)
            && final(state)@ == with_frozen(old(state)@, user),
        final(state)@.frozen_users().no_duplicates(),
{
    proof {
        use_type_invariant(&*state);
        lemma_freeze_unfreeze(state@, user, user);
    }
    if !is_admin(state, admin) {
        return Err(SwapTradeError::NotEmergencyAdmin);
    }
    let mut frozen = frozen_list(state);
    if !contains_user(&frozen, user) {
        frozen.push(user);
        state.frozen = Some(frozen);
    }
    Ok(true)
}

/// Unfreeze `user`; only the admin may. Every listing of the user goes and
/// the others keep their order.
pub fn unfreeze_user(state: &mut EmergencyState, admin: u64, user: u64) -> (r: Result<bool, SwapTradeError>)
    ensures
        !old(state)@.admin_is(admin) ==> r == Err::<bool, SwapTradeError>(SwapTradeError::NotEmergencyAdmin)
            && final(state)@ == old(state)@,
        old(state)@.admin_is(admin) ==> r == Ok::<bool, SwapTradeError>(true)
            && final(state)@ == with_unfrozen(old(state)@, user),
        final(state)@.frozen_users().no_duplicates(),
{
    proof {
        use_type_invariant(&*state);
        lemma_freeze_unfreeze(state@, user, user);
    }
    if !is_admin(state, admin) {
        return Err(SwapTradeError::NotEmergencyAdmin);
    }
    let frozen = frozen_list(state);
    let ghost f = frozen@;
    let mut new_frozen: Vec<u64> = Vec::new();
    let mut i: usize = 0;
    while i < frozen.len()
        invariant
            0 <= i <= frozen.len(),
            frozen@ == f,
            new_frozen@ == f.subrange(0, i as int).filter(other_than(user)),
        decreases frozen.len() - i,
    {
        proof {
            reveal(Seq::filter);
            let g = f.subrange(0, i + 1);
            assert(g.drop_last() =~= f.subrange(0, i as int));
            assert(g.last() == f[i as int]);
        }
        if frozen[i] != user {
            new_frozen.push(frozen[i]);
        }
        i = i + 1;
    }
    proof {
        assert(f.subrange(0, f.len() as int) =~= f);
    }
    state.frozen = Some(new_frozen);
    Ok(true)
}

/// Whether `user` is frozen.
pub fn is_frozen(state: &EmergencyState, user: u64) -> (r: bool)
    ensures
        r == state@.is_frozen(user),
{
    let frozen = frozen_list(state);
    contains_user(&frozen, user)
}

/// Set the circuit-breaker threshold; only the admin may.
pub fn set_threshold_bps(state: &mut EmergencyState, admin: u64, bps: u32) -> (r: Result<(), SwapTradeError>)
    ensures
        !old(state)@.admin_is(admin) ==> r == Err::<(), SwapTradeError>(SwapTradeError::NotEmergencyAdmin)
            && final(state)@ == old(state)@,
        old(state)@.admin_is(admin) ==> r is Ok
            && final(state)@ == (EmergencyView { threshold_bps: Some(bps), ..old(state)@ }),
{
    proof {
        use_type_invariant(&*state);
    }
    if !is_admin(state, admin) {
        return Err(SwapTradeError::NotEmergencyAdmin);
    }
    state.threshold_bps = Some(bps);
    Ok(())
}

/// The circuit-breaker threshold in basis points (100% by default).
pub fn get_threshold_bps(state: &EmergencyState) -> (r: u32)
    ensures
        r == state@.threshold(),
{
    match state.threshold_bps {
        Some(t) => t,
        None => DEFAULT_THRESHOLD_BPS,
    }
}

/// Position of `height` in the sorted volumes, or where it would go.
fn volume_slot(v: &Vec<(u64, i128)>, height: u64) -> (r: (usize, bool))
    requires
        strictly_sorted(v@),
    ensures
        r.0 <= v@.len(),
        r.1 ==> r.0 < v@.len() && v@[r.0 as int].0 == height,
        !r.1 ==> forall|j: int| 0 <= j < r.0 ==> #[trigger] v@[j].0 < height,
        !r.1 ==> forall|j: int| r.0 <= j < v@.len() ==> #[trigger] v@[j].0 > height,
{
    let mut i: usize = 0;
    while i < v.len()
        invariant
            0 <= i <= v.len(),
            strictly_sorted(v@),
            forall|j: int| 0 <= j < i ==> #[trigger] v@[j].0 < height,
        decreases v.len() - i,
    {
        if v[i].0 == height {
            return (i, true);
        }
        if v[i].0 > height {
            proof {
                assert forall|j: int| i <= j < v@.len() implies #[trigger] v@[j].0 > height by {
                    if j > i {
                        assert(v@[i as int].0 < v@[j].0);
                    }
                }
            }
            return (i, false);
        }
        i = i + 1;
    }
    (i, false)
}

/// Add `amount` (saturating) to the volume of ledger `height`.
pub fn record_volume(state: &mut EmergencyState, amount: i128, height: u32)
    ensures
        volume_map(final(state)@.block_volume) == volume_added(old(state)@.block_volume, height as u64, amount),
        final(state)@ == (EmergencyView { block_volume: final(state)@.block_volume, volume_stored: true, ..old(state)@ }),
{
    proof {
        use_type_invariant(&*state);
    }
    let h = height as u64;
    let ghost s = state.block_volume@;
    let (pos, found) = volume_slot(&state.block_volume, h);
    let mut v = Vec::new();
    std::mem::swap(&mut v, &mut state.block_volume);
    if found {
        let cur = v[pos].1;
        v.set(pos, (h, crate::math::sat_add_i128(cur, amount)));
        proof {
            assert(volume_map(s).contains_key(h));
            assert(v@.len() == s.len());
            assert(forall|i: int| 0 <= i < s.len() ==> #[trigger] v@[i].0 == s[i].0);
            assert(volume_map(v@) =~= volume_added(s, h, amount)) by {
                assert forall|k: u64| volume_map(v@).contains_key(k) <==> volume_added(s, h, amount).contains_key(k) by {
                    if k == h {
                        assert(v@[pos as int].0 == h);
                    }
                    if volume_added(s, h, amount).contains_key(k) && k != h {
                        let i = choose|i: int| 0 <= i < s.len() && s[i].0 == k;
                        assert(v@[i].0 == k);
                    }
                    if volume_map(v@).contains_key(k) {
                        let i = choose|i: int| 0 <= i < v@.len() && v@[i].0 == k;
                        assert(s[i].0 == k);
                    }
                }
                assert forall|k: u64| #[trigger] volume_map(v@).contains_key(k) implies volume_map(v@)[k] == volume_added(s, h, amount)[k] by {
                    let i = choose|i: int| 0 <= i < v@.len() && v@[i].0 == k;
                    let j = choose|j: int| 0 <= j < s.len() && s[j].0 == k;
                    assert(i == j);
                    if k == h {
                        assert(i == pos);
                        let j2 = choose|j: int| 0 <= j < s.len() && s[j].0 == h;
                        assert(j2 == pos);
                    }
                }
            }
        }
    } else {
        v.insert(pos, (h, amount));
        proof {
            assert(!volume_map(s).contains_key(h));
            assert(crate::math::clamp_i128(0 + amount) == amount);
            assert(strictly_sorted(v@)) by {
                assert forall|i: int, j: int| 0 <= i < j < v@.len() implies #[trigger] v@[i].0 < #[trigger] v@[j].0 by {
                    if j < pos {
                    } else if j == pos {
                    } else if i < pos {
                        assert(v@[j] == s[j - 1]);
                    } else if i == pos {
                        assert(v@[j] == s[j - 1]);
                    } else {
                        assert(v@[i] == s[i - 1] && v@[j] == s[j - 1]);
                    }
                }
            }
            assert(volume_map(v@) =~= volume_added(s, h, amount)) by {
                assert forall|k: u64| volume_map(v@).contains_key(k) <==> volume_added(s, h, amount).contains_key(k) by {
                    if volume_map(v@).contains_key(k) && k != h {
                        let i = choose|i: int| 0 <= i < v@.len() && v@[i].0 == k;
                        if i < pos {
                            assert(s[i].0 == k);
                        } else {
                            assert(s[i - 1].0 == k);
                        }
                    }
                    if volume_added(s, h, amount).contains_key(k) {
                        if k == h {
                            assert(v@[pos as int].0 == h);
                        } else {
                            let i = choose|i: int| 0 <= i < s.len() && s[i].0 == k;
                            if i < pos {
                                assert(v@[i].0 == k);
                            } else {
                                assert(v@[i + 1].0 == k);
                            }
                        }
                    }
                }
                assert forall|k: u64| #[trigger] volume_map(v@).contains_key(k) implies volume_map(v@)[k] == volume_added(s, h, amount)[k] by {
                    let i = choose|i: int| 0 <= i < v@.len() && v@[i].0 == k;
                    if k == h {
                        assert(v@[pos as int].0 == h);
                        assert(i == pos);
                    } else {
                        let j = choose|j: int| 0 <= j < s.len() && s[j].0 == k;
                        if j < pos {
                            assert(v@[j].0 == k);
                            assert(i == j);
                        } else {
                            assert(v@[j + 1].0 == k);
                            assert(i == j + 1);
                        }
                    }
                }
            }
        }
    }
    state.block_volume = v;
    state.volume_stored = true;
}

/// Volume recorded at ledger `height` (0 when none).
pub fn get_block_volume(state: &EmergencyState, height: u64) -> (r: i128)
    ensures
        r == state@.volume_at(height),
{
    proof {
        use_type_invariant(state);
    }
    let (pos, found) = volume_slot(&state.block_volume, height);
    if found {
        proof {
            let s = state.block_volume@;
            assert(volume_map(s).contains_key(height));
            let j = choose|j: int| 0 <= j < s.len() && s[j].0 == height;
            assert(j == pos);
        }
        state.block_volume[pos].1
    } else {
        proof {
            let s = state.block_volume@;
            if volume_map(s).contains_key(height) {
                let j = choose|j: int| 0 <= j < s.len() && s[j].0 == height;
                assert(s[j].0 != height);
            }
        }
        0
    }
}

/// Whether the circuit breaker trips at `height` for a further `amount`
/// against `normal_volume`: the projected volume, in basis points of a
/// positive normal volume (rounded toward zero), exceeds the threshold.
pub open spec fn spec_breaker_trips(e: EmergencyView, amount: i128, normal_volume: i128, height: u64) -> bool {
    let projected = crate::math::clamp_i128(e.volume_at(height) + amount);
    normal_volume > 0 && crate::portfolio::trunc_div(projected * 10000, normal_volume as int) > e.threshold()
}

/// Check the circuit breaker for a further `amount` at ledger `height`:
/// when it trips, trading is paused. The projected volume times 10000 must
/// fit in an `i128`.
pub fn circuit_breaker_check(state: &mut EmergencyState, amount: i128, normal_volume: i128, height: u32)
    requires
        normal_volume > 0 ==> i128::MIN <= crate::math::clamp_i128(old(state)@.volume_at(height as u64) + amount) * 10000 <= i128::MAX,
    ensures
        spec_breaker_trips(old(state)@, amount, normal_volume, height as u64) ==> final(state)@
            == (EmergencyView { paused: Some(true), ..old(state)@ }),
        !spec_breaker_trips(old(state)@, amount, normal_volume, height as u64) ==> final(state)@ == old(state)@,
{
    proof {
        use_type_invariant(&*state);
    }
    let threshold = get_threshold_bps(state);
    let current = get_block_volume(state, height as u64);
    let projected = crate::math::sat_add_i128(current, amount);
    if normal_volume > 0 {
        let ratio_bps = (projected * 10000) / normal_volume;
        if ratio_bps > threshold as i128 {
            state.paused = Some(true);
        }
    }
}

/// A snapshot of the pool, the pause flag, the frozen users (each listed
/// once) and the per-ledger volumes in strictly increasing ledger order. Balances, badges and tiers are not
/// enumerable and come out empty.
pub fn snapshot(state: &EmergencyState, portfolio: &Portfolio) -> (r: StateSnapshot)
    ensures
        r.balances@.len() == 0,
        r.badges@.len() == 0,
        r.tiers@.len() == 0,
        r.pool_xlm == portfolio@.xlm_in_pool,
        r.pool_usdc == portfolio@.usdc_in_pool,
        r.total_fees == portfolio@.total_fees_collected,
        r.paused == state@.is_paused(),
        r.frozen_users@ == state@.frozen_users(),
        r.frozen_users@.no_duplicates(),
        r.block_volume@ == state@.block_volume,
        strictly_sorted(r.block_volume@),
{
    proof {
        use_type_invariant(state);
    }
    let (xlm, usdc, fees) = portfolio.get_pool_stats();
    let mut block_volume: Vec<(u64, i128)> = Vec::new();
    let mut i: usize = 0;
    while i < state.block_volume.len()
        invariant
            0 <= i <= state.block_volume@.len(),
            block_volume@ == state.block_volume@.subrange(0, i as int),
        decreases state.block_volume@.len() - i,
    {
        block_volume.push(state.block_volume[i]);
        i = i + 1;
        proof {
            assert(block_volume@ =~= state.block_volume@.subrange(0, i as int));
        }
    }
    proof {
        assert(block_volume@ =~= state.block_volume@);
    }
    StateSnapshot {
        balances: Vec::new(),
        pool_xlm: xlm,
        pool_usdc: usdc,
        total_fees: fees,
        badges: Vec::new(),
        tiers: Vec::new(),
        paused: is_paused(state),
        frozen_users: frozen_list(state),
        block_volume,
    }
}

/// Whether a further `amount` at ledger `height` would trip the circuit
/// breaker against `normal_volume`, without recording or pausing anything.
pub fn would_trip_circuit_breaker(state: &EmergencyState, amount: i128, normal_volume: i128, height: u32) -> (r: bool)
    requires
        normal_volume > 0 ==> i128::MIN <= crate::math::clamp_i128(state@.volume_at(height as u64) + amount) * 10000 <= i128::MAX,
    ensures
        r == spec_breaker_trips(state@, amount, normal_volume, height as u64),
{
    let threshold = get_threshold_bps(state);
    let current = get_block_volume(state, height as u64);
    let projected = crate::math::sat_add_i128(current, amount);
    if normal_volume > 0 {
        let ratio_bps = (projected * 10000) / normal_volume;
        ratio_bps > threshold as i128
    } else {
        false
    }
}

} // verus!
