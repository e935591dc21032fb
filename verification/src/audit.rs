//! Forensic checks over an exported audit trail: each event's SHA-256 over
//! its fields, the hash chain that links every event to the one before, the
//! Merkle root over the event hashes, and event queries.

use vstd::prelude::*;
use sha2::{Digest, Sha256};

verus! {

/// A recorded audit event.
pub struct AuditEvent {
    pub id: u64,
    pub timestamp: u128,
    pub actor: String,
    pub action: String,
    pub target: String,
    pub result: String,
    pub gas_used: u64,
    pub state_hash: [u8; 32],
    pub category: String,
    pub severity: String,
    pub prev_hash: [u8; 32],
    pub event_hash: [u8; 32],
}

/// The SHA-256 digest of `data`.
pub uninterp spec fn sha256_digest(data: Seq<u8>) -> Seq<u8>;

/// SHA-256 of `data`, computed by the `sha2` crate. Its contract names the
/// digest as a function of the bytes alone and claims nothing else of it.
#[verifier::external_body]
fn sha256(data: &[u8]) -> (digest: [u8; 32])
    ensures
        digest@ == sha256_digest(data@),
{
    Sha256::digest(data).into()
}

/// The lowest `k` bytes of `n`, least significant first.
pub open spec fn le_bytes(n: nat, k: nat) -> Seq<u8>
    decreases k,
{
    if k == 0 {
        Seq::empty()
    } else {
        seq![(n % 256) as u8] + le_bytes(n / 256, (k - 1) as nat)
    }
}

/// UTF-8 bytes of a string.
pub open spec fn utf8(s: Seq<char>) -> Seq<u8> {
    vstd::utf8::encode_utf8(s)
}

/// The bytes an event's hash covers: id (8 bytes, little-endian), timestamp
/// (16), actor, action, target and result as UTF-8, gas used (8), the state
/// hash and the previous event's hash.
pub open spec fn event_preimage(e: AuditEvent) -> Seq<u8> {
    le_bytes(e.id as nat, 8) + le_bytes(e.timestamp as nat, 16) + utf8(e.actor@) + utf8(e.action@) + utf8(e.target@)
        + utf8(e.result@) + le_bytes(e.gas_used as nat, 8) + e.state_hash@ + e.prev_hash@
}

/// Append the `k` lowest bytes of `n`, least significant first.
fn push_le_bytes(out: &mut Vec<u8>, n: u128, k: usize)
    requires
        k <= 16,
    ensures
        final(out)@ == old(out)@ + le_bytes(n as nat, k as nat),
{
    let mut x: u128 = n;
    let mut i: usize = 0;
    while i < k
        invariant
            0 <= i <= k,
            out@ + le_bytes(x as nat, (k - i) as nat) == old(out)@ + le_bytes(n as nat, k as nat),
        decreases k - i,
    {
        proof {
            let rest = le_bytes(x as nat, (k - i) as nat);
            assert(rest == seq![(x % 256) as u8] + le_bytes((x / 256) as nat, (k - i - 1) as nat));
            assert(out@.push((x % 256) as u8) + le_bytes((x / 256) as nat, (k - i - 1) as nat) =~= out@ + rest);
        }
        out.push((x % 256) as u8);
        x = x / 256;
        i = i + 1;
    }
    proof {
        assert(out@ + le_bytes(x as nat, 0) =~= out@);
    }
}

/// Append every byte of `bytes`.
fn push_all(out: &mut Vec<u8>, bytes: &[u8])
    ensures
        final(out)@ == old(out)@ + bytes@,
{
    let mut i: usize = 0;
    while i < bytes.len()
        invariant
            0 <= i <= bytes@.len(),
            out@ == old(out)@ + bytes@.subrange(0, i as int),
        decreases bytes@.len() - i,
    {
        out.push(bytes[i]);
        i = i + 1;
        proof {
            assert(out@ =~= old(out)@ + bytes@.subrange(0, i as int));
        }
    }
    proof {
        assert(bytes@.subrange(0, bytes@.len() as int) =~= bytes@);
    }
}

/// The bytes an event's hash covers.
pub fn event_preimage_bytes(e: &AuditEvent) -> (b: Vec<u8>)
    ensures
        b@ == event_preimage(*e),
{
    let mut out: Vec<u8> = Vec::new();
    push_le_bytes(&mut out, e.id as u128, 8);
    push_le_bytes(&mut out, e.timestamp, 16);
    push_all(&mut out, e.actor.as_str().as_bytes());
    push_all(&mut out, e.action.as_str().as_bytes());
    push_all(&mut out, e.target.as_str().as_bytes());
    push_all(&mut out, e.result.as_str().as_bytes());
    push_le_bytes(&mut out, e.gas_used as u128, 8);
    push_all(&mut out, e.state_hash.as_slice());
    push_all(&mut out, e.prev_hash.as_slice());
    proof {
        assert(out@ =~= event_preimage(*e));
    }
    out
}

/// The hash an event should carry: SHA-256 of its preimage.
pub fn recompute_hash(e: &AuditEvent) -> (h: [u8; 32])
    ensures
        h@ == sha256_digest(event_preimage(*e)),
{
    let bytes = event_preimage_bytes(e);
    sha256(bytes.as_slice())
}

/// A break in the integrity of an audit trail.
#[derive(Clone, Copy, Debug, PartialEq, Eq, Structural)]
pub enum ChainIssue {
    /// The event at `index` does not carry the hash of its own fields.
    SelfHashMismatch { index: usize, id: u64 },
    /// The event at `index` does not point at the previous event's hash.
    PrevHashMismatch { index: usize, id: u64 },
    /// The first event's previous hash is not all zeros.
    GenesisPrevHashNonZero,
}

/// Thirty-two zero bytes: the previous hash of the first event.
pub open spec fn zero_hash() -> Seq<u8> {
    Seq::new(32, |i: int| 0u8)
}

/// The issues of event `i` of `events`, given the hash `expected` it should
/// carry: a self-hash mismatch, then a link mismatch (or, for the first
/// event, a non-zero previous hash).
pub open spec fn event_issues(events: Seq<AuditEvent>, expected: Seq<u8>, i: int) -> Seq<ChainIssue> {
    let e = events[i];
    let own = if expected != e.event_hash@ {
        seq![ChainIssue::SelfHashMismatch { index: i as usize, id: e.id }]
    } else {
        Seq::empty()
    };
    let link = if i > 0 {
        if e.prev_hash@ != events[i - 1].event_hash@ {
            seq![ChainIssue::PrevHashMismatch { index: i as usize, id: e.id }]
        } else {
            Seq::empty()
        }
    } else if e.prev_hash@ != zero_hash() {
        seq![ChainIssue::GenesisPrevHashNonZero]
    } else {
        Seq::empty()
    };
    own + link
}

/// The issues of the first `n` events, in event order, given the hashes
/// `expected` they should carry.
pub open spec fn chain_issues_upto(events: Seq<AuditEvent>, expected: Seq<Seq<u8>>, n: int) -> Seq<ChainIssue>
    decreases n,
{
    if n <= 0 {
        Seq::empty()
    } else {
        chain_issues_upto(events, expected, n - 1) + event_issues(events, expected[n - 1], n - 1)
    }
}

/// The hash each event should carry.
pub open spec fn expected_hashes(events: Seq<AuditEvent>) -> Seq<Seq<u8>> {
    Seq::new(events.len(), |i: int| sha256_digest(event_preimage(events[i])))
}

/// Whether two hashes are equal.
fn same_hash(a: &[u8; 32], b: &[u8; 32]) -> (r: bool)
    ensures
        r == (a@ == b@),
{
    let mut i: usize = 0;
    while i < 32
        invariant
            0 <= i <= 32,
            a@.len() == 32,
            b@.len() == 32,
            forall|j: int| 0 <= j < i ==> a@[j] == b@[j],
        decreases 32 - i,
    {
        if a[i] != b[i] {
            return false;
        }
        i = i + 1;
    }
    proof {
        assert(a@ =~= b@);
    }
    true
}

/// Whether a hash is all zeros.
fn is_zero_hash(a: &[u8; 32]) -> (r: bool)
    ensures
        r == (a@ == zero_hash()),
{
    let mut i: usize = 0;
    while i < 32
        invariant
            0 <= i <= 32,
            a@.len() == 32,
            forall|j: int| 0 <= j < i ==> a@[j] == 0u8,
        decreases 32 - i,
    {
        if a[i] != 0 {
            return false;
        }
        i = i + 1;
    }
    proof {
        assert(a@ =~= zero_hash());
    }
    true
}

/// The integrity issues of `events`, given for each event the hash it
/// should carry (`expected[i]` for event `i`), in event order.
pub fn chain_issues(events: &Vec<AuditEvent>, expected: &Vec<[u8; 32]>) -> (r: Vec<ChainIssue>)
    requires
        expected@.len() == events@.len(),
    ensures
        r@ == chain_issues_upto(events@, expected@.map_values(|h: [u8; 32]| h@), events@.len() as int),
{
    let ghost ex = expected@.map_values(|h: [u8; 32]| h@);
    let mut out: Vec<ChainIssue> = Vec::new();
    let mut i: usize = 0;
    while i < events.len()
        invariant
            0 <= i <= events@.len(),
            expected@.len() == events@.len(),
            ex == expected@.map_values(|h: [u8; 32]| h@),
            out@ == chain_issues_upto(events@, ex, i as int),
        decreases events@.len() - i,
    {
        let ghost before = out@;
        let e = &events[i];
        if !same_hash(&expected[i], &e.event_hash) {
            out.push(ChainIssue::SelfHashMismatch { index: i, id: e.id });
        }
        if i > 0 {
            if !same_hash(&e.prev_hash, &events[i - 1].event_hash) {
                out.push(ChainIssue::PrevHashMismatch { index: i, id: e.id });
            }
        } else if !is_zero_hash(&e.prev_hash) {
            out.push(ChainIssue::GenesisPrevHashNonZero);
        }
        proof {
            assert(ex[i as int] == expected@[i as int]@);
            assert(out@ =~= before + event_issues(events@, ex[i as int], i as int));
        }
        i = i + 1;
    }
    out
}

/// Verify an audit trail: every event must carry the SHA-256 of its own
/// fields, the first must point at the zero hash and each later one at the
/// hash of the one before. Returns the issues found, in event order.
pub fn verify_chain(events: &Vec<AuditEvent>) -> (r: Vec<ChainIssue>)
    ensures
        r@ == chain_issues_upto(events@, expected_hashes(events@), events@.len() as int),
{
    let mut expected: Vec<[u8; 32]> = Vec::new();
    let mut i: usize = 0;
    while i < events.len()
        invariant
            0 <= i <= events@.len(),
            expected@.len() == i,
            forall|j: int| 0 <= j < i ==> #[trigger] expected@[j]@ == sha256_digest(event_preimage(events@[j])),
        decreases events@.len() - i,
    {
        let h = recompute_hash(&events[i]);
        expected.push(h);
        i = i + 1;
    }
    let r = chain_issues(events, &expected);
    proof {
        assert(expected@.map_values(|h: [u8; 32]| h@) =~= expected_hashes(events@));
    }
    r
}

/// Whether event `i` is sealed: it carries the SHA-256 of its own fields,
/// and points at the zero hash (the first event) or at the hash of the
/// event before it.
pub open spec fn sealed_at(events: Seq<AuditEvent>, i: int) -> bool {
    &&& events[i].event_hash@ == sha256_digest(event_preimage(events[i]))
    &&& (i == 0 ==> events[i].prev_hash@ == zero_hash())
    &&& (i > 0 ==> events[i].prev_hash@ == events[i - 1].event_hash@)
}

/// Whether the first `n` events are sealed.
pub open spec fn sealed_upto(events: Seq<AuditEvent>, n: int) -> bool {
    forall|i: int| 0 <= i < n ==> #[trigger] sealed_at(events, i)
}

/// An event shows no issue exactly when it is sealed.
proof fn lemma_event_clean_iff_sealed(events: Seq<AuditEvent>, i: int)
    requires
        0 <= i < events.len(),
    ensures
        event_issues(events, sha256_digest(event_preimage(events[i])), i).len() == 0 <==> sealed_at(events, i),
{
}

/// The issues found in the first `n` events are none exactly when those
/// events are sealed.
proof fn lemma_clean_iff_sealed(events: Seq<AuditEvent>, n: int)
    requires
        0 <= n <= events.len(),
    ensures
        chain_issues_upto(events, expected_hashes(events), n).len() == 0 <==> sealed_upto(events, n),
    decreases n,
{
    if n > 0 {
        lemma_clean_iff_sealed(events, n - 1);
        lemma_event_clean_iff_sealed(events, n - 1);
        let ex = expected_hashes(events);
        assert(ex[n - 1] == sha256_digest(event_preimage(events[n - 1])));
        assert(sealed_upto(events, n) <==> (sealed_upto(events, n - 1) && sealed_at(events, n - 1)));
    }
}

/// `verify_chain` reports no issue exactly when the trail is sealed.
pub proof fn lemma_verify_clean_iff_sealed(events: Seq<AuditEvent>)
    ensures
        chain_issues_upto(events, expected_hashes(events), events.len() as int).len() == 0
            <==> sealed_upto(events, events.len() as int),
{
    lemma_clean_iff_sealed(events, events.len() as int);
}

/// One level up a Merkle tree: each pair of hashes is hashed together, and
/// an odd last hash is paired with itself.
pub open spec fn merkle_parent_level(level: Seq<Seq<u8>>) -> Seq<Seq<u8>> {
    Seq::new(
        ((level.len() + 1) / 2) as nat,
        |i: int| sha256_digest(level[2 * i] + (if 2 * i + 1 < level.len() { level[2 * i + 1] } else { level[2 * i] })),
    )
}

/// The root reached by folding `level` up to a single hash.
pub open spec fn merkle_fold(level: Seq<Seq<u8>>) -> Seq<u8>
    decreases level.len(),
{
    if level.len() <= 1 {
        level[0]
    } else {
        merkle_fold(merkle_parent_level(level))
    }
}

/// The hashes of a Merkle level, as byte sequences.
pub open spec fn hash_views(hs: Seq<[u8; 32]>) -> Seq<Seq<u8>> {
    hs.map_values(|h: [u8; 32]| h@)
}

/// Concatenate two hashes.
fn concat_hashes(a: &[u8; 32], b: &[u8; 32]) -> (r: Vec<u8>)
    ensures
        r@ == a@ + b@,
{
    let mut out: Vec<u8> = Vec::new();
    push_all(&mut out, a.as_slice());
    push_all(&mut out, b.as_slice());
    out
}

/// The Merkle root of `hashes` (pairs hashed together level by level, an
/// odd hash paired with itself); `None` when there are none.
pub fn merkle_root(hashes: &Vec<[u8; 32]>) -> (r: Option<[u8; 32]>)
    ensures
        hashes@.len() == 0 ==> r is None,
        hashes@.len() > 0 ==> r is Some && r.unwrap()@ == merkle_fold(hash_views(hashes@)),
{
    if hashes.len() == 0 {
        return None;
    }
    let mut current: Vec<[u8; 32]> = Vec::new();
    push_hashes(&mut current, hashes);
    while current.len() > 1
        invariant
            current@.len() >= 1,
            merkle_fold(hash_views(current@)) == merkle_fold(hash_views(hashes@)),
        decreases current@.len(),
    {
        let ghost level = hash_views(current@);
        let mut next: Vec<[u8; 32]> = Vec::new();
        let mut i: usize = 0;
        while i < current.len()
            invariant
                current@.len() > 1,
                level == hash_views(current@),
                0 <= i <= current@.len(),
                i % 2 == 0 || i == current@.len(),
                next@.len() == (i + 1) / 2,
                forall|j: int| 0 <= j < next@.len() ==> #[trigger] next@[j]@ == merkle_parent_level(level)[j],
            decreases current@.len() - i,
        {
            let a = current[i];
            let b = if i + 1 < current.len() { current[i + 1] } else { current[i] };
            let buf = concat_hashes(&a, &b);
            let h = sha256(buf.as_slice());
            proof {
                assert(level[i as int] == a@);
                assert(i + 1 < current@.len() ==> level[i + 1] == b@);
                assert(merkle_parent_level(level)[(i / 2) as int] == sha256_digest(a@ + b@));
            }
            next.push(h);
            if i + 1 < current.len() {
                i = i + 2;
            } else {
                i = i + 1;
            }
        }
        proof {
            assert(hash_views(next@) =~= merkle_parent_level(level));
        }
        current = next;
    }
    Some(current[0])
}

/// Copy hashes into `out`.
fn push_hashes(out: &mut Vec<[u8; 32]>, hashes: &Vec<[u8; 32]>)
    requires
        old(out)@.len() == 0,
    ensures
        final(out)@ == hashes@,
{
    let mut i: usize = 0;
    while i < hashes.len()
        invariant
            0 <= i <= hashes@.len(),
            out@ == hashes@.subrange(0, i as int),
        decreases hashes@.len() - i,
    {
        out.push(hashes[i]);
        i = i + 1;
        proof {
            assert(out@ =~= hashes@.subrange(0, i as int));
        }
    }
    proof {
        assert(hashes@.subrange(0, hashes@.len() as int) =~= hashes@);
    }
}

/// The lower-case hex digit of `d` (0..16).
pub open spec fn hex_digit(d: int) -> char {
    if d < 10 { (48 + d) as char } else { (87 + d) as char }
}

/// Lower-case hex of `bytes`, two digits per byte, high nibble first.
pub open spec fn hex_lower(bytes: Seq<u8>) -> Seq<char>
    decreases bytes.len(),
{
    if bytes.len() == 0 {
        Seq::empty()
    } else {
        seq![hex_digit((bytes[0] / 16) as int), hex_digit((bytes[0] % 16) as int)] + hex_lower(bytes.drop_first())
    }
}

/// Lower-case hex of `data`, computed by `hex::encode`, which writes each
/// byte as two lower-case hex digits, high nibble first.
#[verifier::external_body]
fn hex_encode(data: &[u8]) -> (s: String)
    ensures
        s@ == hex_lower(data@),
{
    hex::encode(data)
}

/// The Merkle root of `hashes` in lower-case hex; `None` when there are
/// none.
pub fn merkle_root_hex(hashes: &Vec<[u8; 32]>) -> (r: Option<String>)
    ensures
        hashes@.len() == 0 ==> r is None,
        hashes@.len() > 0 ==> r is Some && r.unwrap()@ == hex_lower(merkle_fold(hash_views(hashes@))),
{
    match merkle_root(hashes) {
        None => None,
        Some(root) => Some(hex_encode(root.as_slice())),
    }
}

/// Whether a claimed hex root matches the root derived from `hashes`: both
/// absent, or both present and equal.
pub fn merkle_check(claimed: &Option<String>, hashes: &Vec<[u8; 32]>) -> (ok: bool)
    ensures
        hashes@.len() == 0 ==> ok == (claimed is None),
        hashes@.len() > 0 ==> ok == (claimed is Some && claimed.unwrap()@ == hex_lower(merkle_fold(hash_views(hashes@)))),
{
    let derived = merkle_root_hex(hashes);
    match (claimed, &derived) {
        (None, None) => true,
        (Some(c), Some(d)) => *c == *d,
        _ => false,
    }
}

/// Filters of an event query; an absent filter accepts every event.
pub struct EventFilter {
    pub actor: Option<String>,
    pub action: Option<String>,
    /// Compared without regard to ASCII case.
    pub category: Option<String>,
    /// Earliest timestamp, in seconds.
    pub from: Option<u64>,
    /// Latest timestamp, in seconds.
    pub to: Option<u64>,
}

/// ASCII lower case of a byte.
pub open spec fn ascii_lower(b: u8) -> u8 {
    if 65 <= b <= 90 { (b + 32) as u8 } else { b }
}

/// Whether two byte strings are equal up to ASCII case.
pub open spec fn eq_ignore_ascii_case(a: Seq<u8>, b: Seq<u8>) -> bool {
    a.len() == b.len() && forall|i: int| 0 <= i < a.len() ==> ascii_lower(#[trigger] a[i]) == ascii_lower(b[i])
}

/// Whether `e` passes every filter of `f`; timestamps are in nanoseconds.
pub open spec fn event_matches(e: AuditEvent, f: EventFilter) -> bool {
    &&& (f.actor matches Some(a) ==> e.actor@ == a@)
    &&& (f.action matches Some(a) ==> e.action@ == a@)
    &&& (f.category matches Some(c) ==> eq_ignore_ascii_case(utf8(e.category@), utf8(c@)))
    &&& (f.from matches Some(t) ==> e.timestamp >= t * 1_000_000_000)
    &&& (f.to matches Some(t) ==> e.timestamp <= t * 1_000_000_000)
}

/// Indices, in order, of the first `n` events that pass `f`.
pub open spec fn matching_indices(events: Seq<AuditEvent>, f: EventFilter, n: int) -> Seq<usize>
    decreases n,
{
    if n <= 0 {
        Seq::empty()
    } else {
        let rest = matching_indices(events, f, n - 1);
        if event_matches(events[n - 1], f) { rest.push((n - 1) as usize) } else { rest }
    }
}

/// Whether two strings are equal up to ASCII case.
fn same_ignoring_ascii_case(a: &String, b: &String) -> (r: bool)
    ensures
        r == eq_ignore_ascii_case(utf8(a@), utf8(b@)),
{
    let x = a.as_str().as_bytes();
    let y = b.as_str().as_bytes();
    if x.len() != y.len() {
        return false;
    }
    let mut i: usize = 0;
    while i < x.len()
        invariant
            0 <= i <= x@.len(),
            x@.len() == y@.len(),
            x@ == utf8(a@),
            y@ == utf8(b@),
            forall|j: int| 0 <= j < i ==> ascii_lower(#[trigger] x@[j]) == ascii_lower(y@[j]),
        decreases x@.len() - i,
    {
        let p = x[i];
        let q = y[i];
        let lp: u8 = if 65 <= p && p <= 90 { p + 32 } else { p };
        let lq: u8 = if 65 <= q && q <= 90 { q + 32 } else { q };
        if lp != lq {
            return false;
        }
        i = i + 1;
    }
    true
}

/// Whether `e` passes every filter of `f`.
pub fn event_passes(e: &AuditEvent, f: &EventFilter) -> (r: bool)
    ensures
        r == event_matches(*e, *f),
{
    match &f.actor {
        Some(a) => {
            if e.actor != *a {
                return false;
            }
        },
        None => {},
    }
    match &f.action {
        Some(a) => {
            if e.action != *a {
                return false;
            }
        },
        None => {},
    }
    match &f.category {
        Some(c) => {
            if !same_ignoring_ascii_case(&e.category, c) {
                return false;
            }
        },
        None => {},
    }
    match f.from {
        Some(t) => {
            if e.timestamp < t as u128 * 1_000_000_000 {
                return false;
            }
        },
        None => {},
    }
    match f.to {
        Some(t) => {
            if e.timestamp > t as u128 * 1_000_000_000 {
                return false;
            }
        },
        None => {},
    }
    true
}

/// Indices, in order, of the events that pass `f`.
pub fn query_events(events: &Vec<AuditEvent>, f: &EventFilter) -> (r: Vec<usize>)
    ensures
        r@ == matching_indices(events@, *f, events@.len() as int),
{
    let mut out: Vec<usize> = Vec::new();
    let mut i: usize = 0;
    while i < events.len()
        invariant
            0 <= i <= events@.len(),
            out@ == matching_indices(events@, *f, i as int),
        decreases events@.len() - i,
    {
        if event_passes(&events[i], f) {
            out.push(i);
        }
        i = i + 1;
    }
    out
}

} // verus!
