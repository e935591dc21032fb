//! Cross-chain bridge requests: a positive amount is locked under a fresh
//! id, and the bridge oracle later releases it or marks it failed. Only a
//! locked request can move, and only once.

use vstd::prelude::*;
use crate::store::{KeyedList, Dup};

verus! {

/// Where a bridge request stands.
#[derive(Clone, Copy, Debug, PartialEq, Eq, Structural)]
pub enum BridgeStatus {
    Pending,
    Locked,
    Released,
    Failed,
}

/// A request to move funds to another chain.
pub struct BridgeRequest {
    pub id: u64,
    pub sender: u64,
    pub recipient: u64,
    pub amount: i128,
    pub source_chain: String,
    pub dest_chain: String,
    pub status: BridgeStatus,
}

/// Abstract value of a bridge request.
pub struct BridgeRequestView {
    pub id: u64,
    pub sender: u64,
    pub recipient: u64,
    pub amount: i128,
    pub source_chain: Seq<char>,
    pub dest_chain: Seq<char>,
    pub status: BridgeStatus,
}

impl View for BridgeRequest {
    type V = BridgeRequestView;

    open spec fn view(&self) -> BridgeRequestView {
        BridgeRequestView {
            id: self.id,
            sender: self.sender,
            recipient: self.recipient,
            amount: self.amount,
            source_chain: self.source_chain@,
            dest_chain: self.dest_chain@,
            status: self.status,
        }
    }
}

impl Dup for BridgeRequest {
    fn dup(&self) -> (r: Self) {
        BridgeRequest {
            id: self.id,
            sender: self.sender,
            recipient: self.recipient,
            amount: self.amount,
            source_chain: self.source_chain.clone(),
            dest_chain: self.dest_chain.clone(),
            status: self.status,
        }
    }
}

/// Why a bridge call was refused.
#[derive(Clone, Copy, Debug, PartialEq, Eq, Structural)]
pub enum BridgeError {
    /// "Amount must be positive".
    NonPositiveAmount,
    /// The request counter is exhausted.
    CounterOverflow,
    /// "Bridge request not found".
    NotFound,
    /// "Request is not in Locked state".
    NotLocked,
}

/// Abstract state of the bridge: the last id issued and the requests by id.
pub struct BridgeView {
    pub counter: u64,
    pub requests: Map<u64, BridgeRequestView>,
}

impl BridgeView {
    /// Every request is stored under its own id, which was issued.
    pub open spec fn wf(self) -> bool {
        forall|k: u64| #[trigger] self.requests.contains_key(k) ==> self.requests[k].id == k && 1 <= k <= self.counter
    }
}

/// The bridge's stored state.
pub struct BridgeLedger {
    counter: u64,
    requests: KeyedList<u64, BridgeRequest>,
}

impl View for BridgeLedger {
    type V = BridgeView;

    closed spec fn view(&self) -> BridgeView {
        BridgeView { counter: self.counter, requests: self.requests@ }
    }
}

/// `request` with a new status.
pub open spec fn with_status(request: BridgeRequestView, status: BridgeStatus) -> BridgeRequestView {
    BridgeRequestView { status, ..request }
}

impl BridgeLedger {
    #[verifier::type_invariant]
    spec fn inv(self) -> bool {
        self@.wf()
    }

    /// A bridge with no requests.
    pub fn new() -> (b: BridgeLedger)
        ensures
            b@.counter == 0,
            b@.requests.is_empty(),
    {
        BridgeLedger { counter: 0, requests: KeyedList::new() }
    }
}

/// Lock `amount` from `sender` for `recipient` on `dest_chain` under the
/// next id, which is returned.
pub fn initiate_bridge(
    bridge: &mut BridgeLedger,
    sender: u64,
    recipient: u64,
    amount: i128,
    source_chain: String,
    dest_chain: String,
) -> (r: Result<u64, BridgeError>)
    ensures
        amount <= 0 ==> r == Err::<u64, BridgeError>(BridgeError::NonPositiveAmount) && final(bridge)@ == old(bridge)@,
        amount > 0 && old(bridge)@.counter == u64::MAX ==> r == Err::<u64, BridgeError>(BridgeError::CounterOverflow)
            && final(bridge)@ == old(bridge)@,
        amount > 0 && old(bridge)@.counter < u64::MAX ==> {
            let id = (old(bridge)@.counter + 1) as u64;
            &&& r == Ok::<u64, BridgeError>(id)
            &&& !old(bridge)@.requests.contains_key(id)
            &&& final(bridge)@ == (BridgeView {
                counter: id,
                requests: old(bridge)@.requests.insert(id, BridgeRequestView {
                    id,
                    sender,
                    recipient,
                    amount,
                    source_chain: source_chain@,
                    dest_chain: dest_chain@,
                    status: BridgeStatus::Locked,
                }),
            })
        },
{
    proof {
        use_type_invariant(&*bridge);
    }
    if amount <= 0 {
        return Err(BridgeError::NonPositiveAmount);
    }
    if bridge.counter == u64::MAX {
        return Err(BridgeError::CounterOverflow);
    }
    let id = bridge.counter + 1;
    let request = BridgeRequest {
        id,
        sender,
        recipient,
        amount,
        source_chain,
        dest_chain,
        status: BridgeStatus::Locked,
    };
    let mut requests = KeyedList::new();
    std::mem::swap(&mut requests, &mut bridge.requests);
    requests.set(id, request);
    bridge.counter = id;
    bridge.requests = requests;
    Ok(id)
}

/// Move the locked request `request_id` to `status`.
fn settle(bridge: &mut BridgeLedger, request_id: u64, status: BridgeStatus) -> (r: Result<(), BridgeError>)
    ensures
        !old(bridge)@.requests.contains_key(request_id) ==> r == Err::<(), BridgeError>(BridgeError::NotFound)
            && final(bridge)@ == old(bridge)@,
        old(bridge)@.requests.contains_key(request_id) && old(bridge)@.requests[request_id].status != BridgeStatus::Locked
            ==> r == Err::<(), BridgeError>(BridgeError::NotLocked) && final(bridge)@ == old(bridge)@,
        old(bridge)@.requests.contains_key(request_id) && old(bridge)@.requests[request_id].status == BridgeStatus::Locked
            ==> r is Ok && final(bridge)@ == (BridgeView {
                requests: old(bridge)@.requests.insert(request_id, with_status(old(bridge)@.requests[request_id], status)),
                ..old(bridge)@
            }),
{
    proof {
        use_type_invariant(&*bridge);
    }
    let mut request = match bridge.requests.get(&request_id) {
        Some(req) => req.dup(),
        None => {
            return Err(BridgeError::NotFound);
        },
    };
    if request.status != BridgeStatus::Locked {
        return Err(BridgeError::NotLocked);
    }
    request.status = status;
    let mut requests = KeyedList::new();
    std::mem::swap(&mut requests, &mut bridge.requests);
    requests.set(request_id, request);
    bridge.requests = requests;
    Ok(())
}

/// The bridge oracle confirms request `request_id`: a locked request is
/// released.
pub fn confirm_bridge(bridge: &mut BridgeLedger, request_id: u64) -> (r: Result<(), BridgeError>)
    ensures
        !old(bridge)@.requests.contains_key(request_id) ==> r == Err::<(), BridgeError>(BridgeError::NotFound)
            && final(bridge)@ == old(bridge)@,
        old(bridge)@.requests.contains_key(request_id) && old(bridge)@.requests[request_id].status != BridgeStatus::Locked
            ==> r == Err::<(), BridgeError>(BridgeError::NotLocked) && final(bridge)@ == old(bridge)@,
        old(bridge)@.requests.contains_key(request_id) && old(bridge)@.requests[request_id].status == BridgeStatus::Locked
            ==> r is Ok && final(bridge)@ == (BridgeView {
                requests: old(bridge)@.requests.insert(request_id, with_status(old(bridge)@.requests[request_id], BridgeStatus::Released)),
                ..old(bridge)@
            }),
{
    settle(bridge, request_id, BridgeStatus::Released)
}

/// The bridge oracle reports request `request_id` failed: a locked request
/// is marked failed.
pub fn fail_bridge(bridge: &mut BridgeLedger, request_id: u64) -> (r: Result<(), BridgeError>)
    ensures
        !old(bridge)@.requests.contains_key(request_id) ==> r == Err::<(), BridgeError>(BridgeError::NotFound)
            && final(bridge)@ == old(bridge)@,
        old(bridge)@.requests.contains_key(request_id) && old(bridge)@.requests[request_id].status != BridgeStatus::Locked
            ==> r == Err::<(), BridgeError>(BridgeError::NotLocked) && final(bridge)@ == old(bridge)@,
        old(bridge)@.requests.contains_key(request_id) && old(bridge)@.requests[request_id].status == BridgeStatus::Locked
            ==> r is Ok && final(bridge)@ == (BridgeView {
                requests: old(bridge)@.requests.insert(request_id, with_status(old(bridge)@.requests[request_id], BridgeStatus::Failed)),
                ..old(bridge)@
            }),
{
    settle(bridge, request_id, BridgeStatus::Failed)
}

/// The request `request_id`, or `NotFound`.
pub fn get_bridge_request(bridge: &BridgeLedger, request_id: u64) -> (r: Result<BridgeRequest, BridgeError>)
    ensures
        bridge@.requests.contains_key(request_id) ==> r is Ok && r.unwrap()@ == bridge@.requests[request_id],
        !bridge@.requests.contains_key(request_id) ==> r == Err::<BridgeRequest, BridgeError>(BridgeError::NotFound),
{
    match bridge.requests.get(&request_id) {
        Some(req) => Ok(req.dup()),
        None => Err(BridgeError::NotFound),
    }
}

/// A settled request never moves again: once released or failed, both
/// confirming and failing it are refused.
pub proof fn lemma_settled_is_final(b: BridgeView, request_id: u64, status: BridgeStatus)
    requires
        b.requests.contains_key(request_id),
        b.requests[request_id].status == BridgeStatus::Locked,
        status == BridgeStatus::Released || status == BridgeStatus::Failed,
    ensures
        ({
            let after = BridgeView {
                requests: b.requests.insert(request_id, with_status(b.requests[request_id], status)),
                ..b
            };
            after.requests.contains_key(request_id) && after.requests[request_id].status != BridgeStatus::Locked
        }),
{
}

} // verus!
