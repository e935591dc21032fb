//! Referral codes: each user may own one eight-character code; a new user
//! may register once under someone else's code; trades of a referee earn
//! the referrer 5% of the fee and give the referee a 10% discount on their
//! first 50 trades.

use vstd::prelude::*;
use crate::store::KeyedList;
use crate::portfolio::{get_or, trunc_div};

verus! {

/// Number of characters in a referral code.
pub const CODE_LENGTH: usize = 8;
/// Attempts after the first before code generation gives up.
pub const MAX_CODE_ATTEMPTS: u32 = 1000;
/// Trades of a referee that earn the discount.
pub const DISCOUNTED_TRADES: u32 = 50;
/// Discount of a referee's early trades, in percent.
pub const REFEREE_DISCOUNT_PERCENT: i128 = 10;
/// Share of a referee's fee credited to the referrer, in percent.
pub const REFERRER_REWARD_PERCENT: i128 = 5;

/// Why a referral request was refused.
#[derive(Clone, Copy, Debug, PartialEq, Eq, Structural)]
pub enum ReferralError {
    /// The user already registered under a code.
    AlreadyRegistered,
    /// No user owns the code.
    InvalidCode,
    /// The code is the user's own.
    SelfReferral,
    /// The user already has a referrer.
    AlreadyReferred,
    /// Every candidate code for this ledger is taken.
    CodeSpaceExhausted,
}

impl ReferralError {
    /// The message the platform reports for this refusal.
    pub fn message(&self) -> (m: &'static str)
        ensures
            *self == ReferralError::AlreadyRegistered ==> m@ == "User already registered"@,
            *self == ReferralError::InvalidCode ==> m@ == "Invalid referral code"@,
            *self == ReferralError::SelfReferral ==> m@ == "Cannot refer yourself"@,
            *self == ReferralError::AlreadyReferred ==> m@ == "User already has a referrer"@,
            *self == ReferralError::CodeSpaceExhausted ==> m@ == "Could not generate unique referral code after 1000 attempts"@,
    {
        match self {
            ReferralError::AlreadyRegistered => "User already registered",
            ReferralError::InvalidCode => "Invalid referral code",
            ReferralError::SelfReferral => "Cannot refer yourself",
            ReferralError::AlreadyReferred => "User already has a referrer",
            ReferralError::CodeSpaceExhausted => "Could not generate unique referral code after 1000 attempts",
        }
    }
}

/// The characters codes are written with: `A`-`Z` then `0`-`9`.
pub open spec fn code_alphabet() -> Seq<char> {
    seq![
        'A', 'B', 'C', 'D', 'E', 'F', 'G', 'H', 'I', 'J', 'K', 'L', 'M',
        'N', 'O', 'P', 'Q', 'R', 'S', 'T', 'U', 'V', 'W', 'X', 'Y', 'Z',
        '0', '1', '2', '3', '4', '5', '6', '7', '8', '9',
    ]
}

/// The lowest `n` base-36 digits of `seed`, least significant first.
pub open spec fn base36_digits(seed: nat, n: nat) -> Seq<char>
    decreases n,
{
    if n == 0 {
        Seq::empty()
    } else {
        seq![code_alphabet()[(seed % 36) as int]] + base36_digits(seed / 36, (n - 1) as nat)
    }
}

/// The candidate code of ledger `sequence` at attempt `attempt`.
pub open spec fn candidate_code(sequence: u32, attempt: nat) -> Seq<char> {
    base36_digits((sequence + attempt) as nat, CODE_LENGTH as nat)
}

/// Abstract state of the referral system.
pub struct ReferralView {
    /// Each user's own code.
    pub codes: Map<u64, Seq<char>>,
    /// The owner of each code.
    pub code_owner: Map<Seq<char>, u64>,
    /// The referees of each referrer, in registration order.
    pub referrals: Map<u64, Seq<u64>>,
    /// The referrer of each referee.
    pub referrer_of: Map<u64, u64>,
    /// Unclaimed rewards of each referrer.
    pub rewards: Map<u64, i128>,
    /// Trades counted for each referee.
    pub trade_counts: Map<u64, u32>,
    /// Users who registered under a code.
    pub registered: Map<u64, bool>,
}

impl ReferralView {
    /// Whether the candidate code of `sequence` at `attempt` is owned.
    pub open spec fn candidate_taken(self, sequence: u32, attempt: nat) -> bool {
        self.code_owner.contains_key(candidate_code(sequence, attempt))
    }

    /// Unclaimed rewards of `user`.
    pub open spec fn reward_of(self, user: u64) -> i128 {
        get_or(self.rewards, user, 0i128)
    }

    /// Trades counted for `referee`.
    pub open spec fn trades_of(self, referee: u64) -> u32 {
        get_or(self.trade_counts, referee, 0u32)
    }

    /// Nobody is their own referrer.
    pub open spec fn no_self_referral(self) -> bool {
        forall|u: u64| #[trigger] self.referrer_of.contains_key(u) ==> self.referrer_of[u] != u
    }
}

/// Why `new_user` may not register under `code`, if they may not.
pub open spec fn spec_register_refusal(v: ReferralView, code: Seq<char>, new_user: u64) -> Option<ReferralError> {
    if !v.code_owner.contains_key(code) {
        Some(ReferralError::InvalidCode)
    } else if v.code_owner[code] == new_user {
        Some(ReferralError::SelfReferral)
    } else if v.referrer_of.contains_key(new_user) {
        Some(ReferralError::AlreadyReferred)
    } else if v.registered.contains_key(new_user) {
        Some(ReferralError::AlreadyRegistered)
    } else {
        None
    }
}

/// State after `new_user` registers under the owner of `code`.
pub open spec fn spec_register(v: ReferralView, code: Seq<char>, new_user: u64) -> ReferralView {
    let referrer = v.code_owner[code];
    ReferralView {
        referrer_of: v.referrer_of.insert(new_user, referrer),
        referrals: v.referrals.insert(referrer, get_or(v.referrals, referrer, Seq::empty()).push(new_user)),
        registered: v.registered.insert(new_user, true),
        ..v
    }
}

/// Reward of the referrer for a trade that paid `trade_fee`: 5% of it,
/// rounded toward zero.
pub open spec fn referral_reward(trade_fee: i128) -> int {
    trunc_div(trade_fee * REFERRER_REWARD_PERCENT, 100)
}

/// The referral ledger.
pub struct ReferralSystem {
    referral_codes: KeyedList<u64, String>,
    code_to_user: KeyedList<String, u64>,
    referrals: KeyedList<u64, Vec<u64>>,
    referee_to_referrer: KeyedList<u64, u64>,
    referral_rewards: KeyedList<u64, i128>,
    referee_trade_counts: KeyedList<u64, u32>,
    registered_with_referral: KeyedList<u64, bool>,
}

impl View for ReferralSystem {
    type V = ReferralView;

    closed spec fn view(&self) -> ReferralView {
        ReferralView {
            codes: self.referral_codes@,
            code_owner: self.code_to_user@,
            referrals: self.referrals@,
            referrer_of: self.referee_to_referrer@,
            rewards: self.referral_rewards@,
            trade_counts: self.referee_trade_counts@,
            registered: self.registered_with_referral@,
        }
    }
}

/// Builds the candidate code of ledger `sequence` at `attempt`: the eight
/// lowest base-36 digits of `sequence + attempt`.
pub fn create_random_code(sequence: u32, attempt: u32) -> (code: String)
    ensures
        code@ == candidate_code(sequence, attempt as nat),
{
    let alphabet: &str = "ABCDEFGHIJKLMNOPQRSTUVWXYZ0123456789";
    proof {
        reveal_strlit("ABCDEFGHIJKLMNOPQRSTUVWXYZ0123456789");
        assert(alphabet@ =~= code_alphabet());
    }
    let seed: u64 = sequence as u64 + attempt as u64;
    let mut result = String::new();
    let mut temp: u64 = seed;
    let mut i: usize = 0;
    while i < CODE_LENGTH
        invariant
            0 <= i <= CODE_LENGTH,
            alphabet@ == code_alphabet(),
            result@ + base36_digits(temp as nat, (CODE_LENGTH - i) as nat) == base36_digits(seed as nat, CODE_LENGTH as nat),
        decreases CODE_LENGTH - i,
    {
        let idx = (temp % 36) as usize;
        let digit = alphabet.substring_char(idx, idx + 1);
        proof {
            let rest = base36_digits(temp as nat, (CODE_LENGTH - i) as nat);
            assert(rest == seq![code_alphabet()[(temp % 36) as int]] + base36_digits((temp / 36) as nat, (CODE_LENGTH - i - 1) as nat));
            assert(digit@ =~= seq![code_alphabet()[(temp % 36) as int]]);
            assert(result@ + digit@ + base36_digits((temp / 36) as nat, (CODE_LENGTH - i - 1) as nat) =~= result@ + rest);
        }
        result.append(digit);
        temp = temp / 36;
        i = i + 1;
    }
    proof {
        assert(base36_digits(temp as nat, 0) =~= Seq::<char>::empty());
        assert(result@ + Seq::<char>::empty() =~= result@);
    }
    result
}

impl ReferralSystem {
    /// An empty referral system.
    pub fn new() -> (r: ReferralSystem)
        ensures
            r@.codes.is_empty(),
            r@.code_owner.is_empty(),
            r@.referrals.is_empty(),
            r@.referrer_of.is_empty(),
            r@.rewards.is_empty(),
            r@.trade_counts.is_empty(),
            r@.registered.is_empty(),
    {
        ReferralSystem {
            referral_codes: KeyedList::new(),
            code_to_user: KeyedList::new(),
            referrals: KeyedList::new(),
            referee_to_referrer: KeyedList::new(),
            referral_rewards: KeyedList::new(),
            referee_trade_counts: KeyedList::new(),
            registered_with_referral: KeyedList::new(),
        }
    }

    /// The first free candidate code of ledger `sequence`, trying attempts
    /// 0 to 1000 in turn; refused when all are taken.
    fn generate_unique_code(&self, sequence: u32) -> (r: Result<String, ReferralError>)
        ensures
            match r {
                Ok(code) => exists|a: nat| {
                    &&& a <= MAX_CODE_ATTEMPTS
                    &&& code@ == candidate_code(sequence, a)
                    &&& !self@.candidate_taken(sequence, a)
                    &&& forall|b: nat| b < a ==> #[trigger] self@.candidate_taken(sequence, b)
                },
                Err(e) => e == ReferralError::CodeSpaceExhausted
                    && forall|b: nat| b <= MAX_CODE_ATTEMPTS ==> #[trigger] self@.candidate_taken(sequence, b),
            },
    {
        let mut attempts: u32 = 0;
        loop
            invariant
                attempts <= MAX_CODE_ATTEMPTS,
                forall|b: nat| b < attempts ==> #[trigger] self@.candidate_taken(sequence, b),
            decreases MAX_CODE_ATTEMPTS - attempts,
        {
            let code = create_random_code(sequence, attempts);
            if !self.code_to_user.contains_key(&code) {
                return Ok(code);
            }
            if attempts == MAX_CODE_ATTEMPTS {
                return Err(ReferralError::CodeSpaceExhausted);
            }
            attempts = attempts + 1;
        }
    }

    /// The referral code of `user`, creating a fresh one from the ledger
    /// `sequence` when the user has none.
    pub fn generate_referral_code(&mut self, user: u64, sequence: u32) -> (r: Result<String, ReferralError>)
        ensures
            old(self)@.codes.contains_key(user) ==> r is Ok && r.unwrap()@ == old(self)@.codes[user]
                && final(self)@ == old(self)@,
            !old(self)@.codes.contains_key(user) ==> match r {
                Ok(code) => {
                    &&& exists|a: nat| {
                        &&& a <= MAX_CODE_ATTEMPTS
                        &&& code@ == candidate_code(sequence, a)
                        &&& !old(self)@.candidate_taken(sequence, a)
                        &&& forall|b: nat| b < a ==> #[trigger] old(self)@.candidate_taken(sequence, b)
                    }
                    &&& final(self)@ == (ReferralView {
                        codes: old(self)@.codes.insert(user, code@),
                        code_owner: old(self)@.code_owner.insert(code@, user),
                        ..old(self)@
                    })
                },
                Err(e) => e == ReferralError::CodeSpaceExhausted && final(self)@ == old(self)@
                    && forall|b: nat| b <= MAX_CODE_ATTEMPTS ==> #[trigger] old(self)@.candidate_taken(sequence, b),
            },
    {
        match self.referral_codes.get(&user) {
            Some(code) => {
                return Ok(code.clone());
            },
            None => {},
        }
        let code = match self.generate_unique_code(sequence) {
            Ok(c) => c,
            Err(e) => {
                return Err(e);
            },
        };
        self.referral_codes.set(user, code.clone());
        self.code_to_user.set(code.clone(), user);
        Ok(code)
    }

    /// Register `new_user` under the owner of `referral_code`.
    pub fn register_with_referral(&mut self, referral_code: &String, new_user: u64) -> (r: Result<(), ReferralError>)
        ensures
            match spec_register_refusal(old(self)@, referral_code@, new_user) {
                Some(e) => r == Err::<(), ReferralError>(e) && final(self)@ == old(self)@,
                None => r is Ok && final(self)@ == spec_register(old(self)@, referral_code@, new_user),
            },
    {
        let referrer: u64 = match self.code_to_user.get(referral_code) {
            Some(u) => *u,
            None => {
                return Err(ReferralError::InvalidCode);
            },
        };
        if referrer == new_user {
            return Err(ReferralError::SelfReferral);
        }
        if self.referee_to_referrer.contains_key(&new_user) {
            return Err(ReferralError::AlreadyReferred);
        }
        if self.registered_with_referral.contains_key(&new_user) {
            return Err(ReferralError::AlreadyRegistered);
        }
        self.referee_to_referrer.set(new_user, referrer);
        let mut ref_list: Vec<u64> = match self.referrals.get(&referrer) {
            Some(v) => crate::store::Dup::dup(v),
            None => Vec::new(),
        };
        ref_list.push(new_user);
        self.referrals.set(referrer, ref_list);
        self.registered_with_referral.set(new_user, true);
        Ok(())
    }

    /// The code `user` owns, or the empty string.
    pub fn get_referral_code(&self, user: u64) -> (code: String)
        ensures
            code@ == get_or(self@.codes, user, Seq::<char>::empty()),
    {
        match self.referral_codes.get(&user) {
            Some(c) => c.clone(),
            None => String::new(),
        }
    }

    /// The referees of `user`, in registration order.
    pub fn get_referrals(&self, user: u64) -> (r: Vec<u64>)
        ensures
            r@ == get_or(self@.referrals, user, Seq::<u64>::empty()),
    {
        match self.referrals.get(&user) {
            Some(v) => crate::store::Dup::dup(v),
            None => Vec::new(),
        }
    }

    /// Unclaimed rewards of `user`.
    pub fn get_referral_rewards(&self, user: u64) -> (r: i128)
        ensures
            r == self@.reward_of(user),
    {
        match self.referral_rewards.get(&user) {
            Some(v) => *v,
            None => 0,
        }
    }

    /// Account a trade of `referee` that paid `trade_fee`: a referee with a
    /// referrer gets a 10% discount on their first 50 trades (the result, in
    /// percent), their trade is counted, and the referrer earns 5% of the
    /// fee. Anyone else gets no discount and nothing changes.
    pub fn process_trade_for_referral(&mut self, referee: u64, trade_fee: i128) -> (discount: i128)
        requires
            old(self)@.referrer_of.contains_key(referee) ==> old(self)@.trades_of(referee) < u32::MAX
                && i128::MIN <= trade_fee * REFERRER_REWARD_PERCENT <= i128::MAX
                && i128::MIN <= old(self)@.reward_of(old(self)@.referrer_of[referee]) + referral_reward(trade_fee) <= i128::MAX,
        ensures
            !old(self)@.referrer_of.contains_key(referee) ==> discount == 0 && final(self)@ == old(self)@,
            old(self)@.referrer_of.contains_key(referee) ==> {
                let referrer = old(self)@.referrer_of[referee];
                &&& discount == (if old(self)@.trades_of(referee) < DISCOUNTED_TRADES { REFEREE_DISCOUNT_PERCENT } else { 0 })
                &&& final(self)@ == (ReferralView {
                    trade_counts: old(self)@.trade_counts.insert(referee, (old(self)@.trades_of(referee) + 1) as u32),
                    rewards: old(self)@.rewards.insert(referrer, (old(self)@.reward_of(referrer) + referral_reward(trade_fee)) as i128),
                    ..old(self)@
                })
            },
    {
        let referrer: u64 = match self.referee_to_referrer.get(&referee) {
            Some(r) => *r,
            None => {
                return 0;
            },
        };
        let current_trade_count: u32 = match self.referee_trade_counts.get(&referee) {
            Some(c) => *c,
            None => 0,
        };
        let discount_percentage: i128 = if current_trade_count < DISCOUNTED_TRADES { REFEREE_DISCOUNT_PERCENT } else { 0 };
        self.referee_trade_counts.set(referee, current_trade_count + 1);
        let referral_reward: i128 = (trade_fee * REFERRER_REWARD_PERCENT) / 100;
        let current_rewards = self.get_referral_rewards(referrer);
        self.referral_rewards.set(referrer, current_rewards + referral_reward);
        discount_percentage
    }

    /// Pay out `user`'s rewards: returns them, and a positive balance is
    /// reset to zero.
    pub fn claim_referral_rewards(&mut self, user: u64) -> (claimed: i128)
        ensures
            claimed == old(self)@.reward_of(user),
            claimed > 0 ==> final(self)@ == (ReferralView { rewards: old(self)@.rewards.insert(user, 0), ..old(self)@ }),
            claimed <= 0 ==> final(self)@ == old(self)@,
    {
        let rewards = self.get_referral_rewards(user);
        if rewards > 0 {
            self.referral_rewards.set(user, 0);
        }
        rewards
    }
}

/// Registration never makes anyone their own referrer.
pub proof fn lemma_register_keeps_no_self_referral(v: ReferralView, code: Seq<char>, new_user: u64)
    requires
        v.no_self_referral(),
        spec_register_refusal(v, code, new_user) is None,
    ensures
        spec_register(v, code, new_user).no_self_referral(),
        spec_register(v, code, new_user).referrer_of[new_user] != new_user,
{
    let w = spec_register(v, code, new_user);
    assert forall|u: u64| #[trigger] w.referrer_of.contains_key(u) implies w.referrer_of[u] != u by {
        if u != new_user {
            assert(v.referrer_of.contains_key(u));
        }
    }
}

/// A user registers at most once: after a registration, the same user is
/// refused under any code, and under another user's valid code the answer
/// is that they already have a referrer.
pub proof fn lemma_register_once(v: ReferralView, code: Seq<char>, new_user: u64, other_code: Seq<char>)
    requires
        spec_register_refusal(v, code, new_user) is None,
    ensures
        spec_register_refusal(spec_register(v, code, new_user), other_code, new_user) is Some,
        v.code_owner.contains_key(other_code) && v.code_owner[other_code] != new_user
            ==> spec_register_refusal(spec_register(v, code, new_user), other_code, new_user)
                == Some(ReferralError::AlreadyReferred),
{
}

/// Claiming positive rewards twice pays them once: the second claim finds
/// nothing.
pub proof fn lemma_claim_twice_pays_once(v: ReferralView, user: u64)
    requires
        v.reward_of(user) > 0,
    ensures
        (ReferralView { rewards: v.rewards.insert(user, 0), ..v }).reward_of(user) == 0,
{
}

} // verus!
