//! Oracle price store: the last accepted price of each token pair with its
//! timestamp, and a per-pair tolerance below which a new price is not
//! recorded.

use vstd::prelude::*;
use crate::store::{KeyedList, Dup};
use crate::math::{clamp_u128, sat_mul_u128};

verus! {

/// Tolerance used for a pair that has none configured, in basis points.
pub const DEFAULT_PRICE_UPDATE_TOLERANCE_BPS: u32 = 10;

/// Errors of oracle pricing.
#[derive(Clone, Copy, Debug, PartialEq, Eq, Structural)]
pub enum ContractError {
    InvalidPrice,
    StalePrice,
    SlippageExceeded,
    PriceNotSet,
}

/// A recorded price and when it was recorded.
#[derive(Clone, Copy, Debug, PartialEq, Eq, Structural)]
pub struct PriceData {
    pub price: u128,
    pub timestamp: u64,
}

impl View for PriceData {
    type V = PriceData;

    open spec fn view(&self) -> PriceData {
        *self
    }
}

impl Dup for PriceData {
    fn dup(&self) -> (r: Self) {
        *self
    }
}

/// A token pair `(from, to)`.
pub type TokenPair = (String, String);

/// Whether moving from `last_price` to `new_price` is a change larger than
/// `tolerance_bps` basis points of the last price (always, when there was no
/// price).
pub open spec fn spec_price_delta_exceeds(last_price: u128, new_price: u128, tolerance_bps: u32) -> bool {
    if last_price == 0 {
        true
    } else {
        let delta = if new_price >= last_price { new_price - last_price } else { last_price - new_price };
        delta > clamp_u128(last_price * tolerance_bps) / 10_000
    }
}

/// Whether a new price differs from the last one by more than the tolerance;
/// the threshold is `last_price * tolerance_bps / 10000` with a saturating
/// product.
pub fn price_delta_exceeds_tolerance(last_price: u128, new_price: u128, tolerance_bps: u32) -> (r: bool)
    ensures
        r == spec_price_delta_exceeds(last_price, new_price, tolerance_bps),
{
    if last_price == 0 {
        return true;
    }
    let delta = if new_price >= last_price {
        new_price - last_price
    } else {
        last_price - new_price
    };
    let threshold = sat_mul_u128(last_price, tolerance_bps as u128) / 10_000;
    delta > threshold
}

/// The oracle's stored prices and tolerances.
pub struct PriceOracle {
    prices: KeyedList<TokenPair, PriceData>,
    tolerances: KeyedList<TokenPair, u32>,
}

/// Abstract state of the oracle: prices and tolerances by pair of symbols.
pub struct OracleView {
    pub prices: Map<(Seq<char>, Seq<char>), PriceData>,
    pub tolerances: Map<(Seq<char>, Seq<char>), u32>,
}

impl View for PriceOracle {
    type V = OracleView;

    closed spec fn view(&self) -> OracleView {
        OracleView { prices: self.prices@, tolerances: self.tolerances@ }
    }
}

/// Tolerance of a pair in an oracle state.
pub open spec fn spec_tolerance(o: OracleView, pair: (Seq<char>, Seq<char>)) -> u32 {
    if o.tolerances.contains_key(pair) { o.tolerances[pair] } else { DEFAULT_PRICE_UPDATE_TOLERANCE_BPS }
}

/// Whether a price update for `pair` is recorded: always when the pair has
/// no price, else when it moves by more than the pair's tolerance.
pub open spec fn spec_should_persist(o: OracleView, pair: (Seq<char>, Seq<char>), price: u128) -> bool {
    !o.prices.contains_key(pair)
        || spec_price_delta_exceeds(o.prices[pair].price, price, spec_tolerance(o, pair))
}

impl PriceOracle {
    /// An oracle with no prices and no tolerances.
    pub fn new() -> (r: Self)
        ensures
            r@.prices == Map::<(Seq<char>, Seq<char>), PriceData>::empty(),
            r@.tolerances == Map::<(Seq<char>, Seq<char>), u32>::empty(),
    {
        PriceOracle { prices: KeyedList::new(), tolerances: KeyedList::new() }
    }

    /// An exact copy.
    pub fn dup(&self) -> (r: Self)
        ensures
            r@ == self@,
    {
        PriceOracle { prices: self.prices.dup(), tolerances: self.tolerances.dup() }
    }

    /// Tolerance for `pair` in basis points; the default when unset.
    pub fn get_price_update_tolerance_bps(&self, pair: &TokenPair) -> (bps: u32)
        ensures
            bps == spec_tolerance(self@, pair@),
    {
        match self.tolerances.get(pair) {
            Some(b) => *b,
            None => DEFAULT_PRICE_UPDATE_TOLERANCE_BPS,
        }
    }

    /// Set the tolerance for `pair`.
    pub fn set_price_update_tolerance_bps(&mut self, pair: TokenPair, bps: u32)
        ensures
            final(self)@.tolerances == old(self)@.tolerances.insert(pair@, bps),
            final(self)@.prices == old(self)@.prices,
    {
        self.tolerances.set(pair, bps);
    }

    /// The stored price of `pair`, if any.
    pub fn get_stored_price(&self, pair: &TokenPair) -> (r: Option<PriceData>)
        ensures
            match r {
                Some(d) => self@.prices.contains_key(pair@) && d == self@.prices[pair@],
                None => !self@.prices.contains_key(pair@),
            },
    {
        match self.prices.get(pair) {
            Some(d) => Some(*d),
            None => None,
        }
    }

    /// Record `price` for `pair` at time `now` unless it is within the
    /// pair's tolerance of the stored price.
    pub fn set_stored_price(&mut self, pair: TokenPair, price: u128, now: u64)
        ensures
            final(self)@.tolerances == old(self)@.tolerances,
            spec_should_persist(old(self)@, pair@, price) ==> final(self)@.prices == old(self)@.prices.insert(
                pair@,
                PriceData { price, timestamp: now },
            ),
            !spec_should_persist(old(self)@, pair@, price) ==> final(self)@.prices == old(self)@.prices,
    {
        let should_persist = match self.prices.get(&pair) {
            None => true,
            Some(data) => {
                let last = data.price;
                let tol = self.get_price_update_tolerance_bps(&pair);
                price_delta_exceeds_tolerance(last, price, tol)
            },
        };
        if should_persist {
            self.prices.set(pair, PriceData { price, timestamp: now });
        }
    }

    /// The stored price of `pair`, or `PriceNotSet`.
    pub fn get_price_safe(&self, pair: &TokenPair) -> (r: Result<u128, ContractError>)
        ensures
            self@.prices.contains_key(pair@) ==> r == Ok::<u128, ContractError>(self@.prices[pair@].price),
            !self@.prices.contains_key(pair@) ==> r == Err::<u128, ContractError>(ContractError::PriceNotSet),
    {
        match self.prices.get(pair) {
            Some(d) => Ok(d.price),
            None => Err(ContractError::PriceNotSet),
        }
    }

    /// Every stored price was recorded no later than `now`.
    pub open spec fn stamped_by(self, now: u64) -> bool {
        forall|p: (Seq<char>, Seq<char>)| #[trigger] self@.prices.contains_key(p) ==> self@.prices[p].timestamp <= now
    }
}

} // verus!
