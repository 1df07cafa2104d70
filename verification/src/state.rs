use crate::error::ContractError;
use crate::msg::{status_code, ContractStatus, QueryResponse, SerializedWithdrawals};
use vstd::prelude::*;

verus! {

/// The largest number of deposit thresholds whose tiers a `u8` numbers: tiers
/// go from 1 up to one past the number of thresholds.
pub const MAX_THRESHOLDS: usize = 254;

/// The tier contract's configuration.
#[derive(Clone, Debug, PartialEq, Eq)]
pub struct Config {
    pub status: u8,
    pub admin: String,
    pub validator: String,
    /// The USD deposit that each tier asks, best tier first.
    pub usd_deposits: Vec<u128>,
}

/// A user's standing: the tier reached, when, and what was deposited for it.
#[derive(Clone, Debug, PartialEq, Eq)]
pub struct UserInfo {
    pub tier: u8,
    pub timestamp: u64,
    pub usd_deposit: u128,
    pub sei_deposit: u128,
}

/// Usei that a user withdrew and can claim from `claim_time` on.
#[derive(Clone, Debug, PartialEq, Eq)]
pub struct UserWithdrawal {
    pub amount: u128,
    pub timestamp: u64,
    pub claim_time: u64,
}

/// The thresholds fall strictly from the first tier to the last.
pub open spec fn strictly_decreasing(ds: Seq<u128>) -> bool {
    forall|i: int, j: int| 0 <= i < j < ds.len() ==> ds[i] > ds[j]
}

/// The tier that a USD deposit reaches: one more than the position of the
/// first threshold that the deposit meets, or one past the last threshold.
pub open spec fn tier_for(ds: Seq<u128>, usd: int) -> int
    decreases ds.len(),
{
    if ds.len() == 0 {
        1
    } else if ds[0] <= usd {
        1
    } else {
        1 + tier_for(ds.drop_first(), usd)
    }
}

/// The threshold that a tier asks, for `1 <= tier <= ds.len()`.
pub open spec fn threshold(ds: Seq<u128>, tier: int) -> u128 {
    ds[tier - 1]
}

/// Each threshold is above the next one.
pub open spec fn adjacent_decreasing(ds: Seq<u128>) -> bool {
    forall|i: int| 0 <= i < ds.len() - 1 ==> #[trigger] ds[i] > ds[i + 1]
}

/// Falling at each step is falling throughout.
pub proof fn lemma_adjacent_decreasing_strict(ds: Seq<u128>)
    ensures
        adjacent_decreasing(ds) <==> strictly_decreasing(ds),
{
    if adjacent_decreasing(ds) {
        assert forall|i: int, j: int| 0 <= i < j < ds.len() implies ds[i] > ds[j] by {
            lemma_adjacent_chain(ds, i, j);
        }
    }
    if strictly_decreasing(ds) {
        assert forall|i: int| 0 <= i < ds.len() - 1 implies #[trigger] ds[i] > ds[i + 1] by {
            assert(0 <= i < i + 1 < ds.len());
        }
    }
}

proof fn lemma_adjacent_chain(ds: Seq<u128>, i: int, j: int)
    requires
        adjacent_decreasing(ds),
        0 <= i < j < ds.len(),
    ensures
        ds[i] > ds[j],
    decreases j - i,
{
    assert(ds[j - 1] > ds[j]);
    if i < j - 1 {
        lemma_adjacent_chain(ds, i, j - 1);
    }
}

/// Whether each threshold is above every later one.
pub fn is_strictly_decreasing(ds: &Vec<u128>) -> (ok: bool)
    ensures
        ok == strictly_decreasing(ds@),
{
    let n = ds.len();
    if n == 0 {
        return true;
    }
    let mut i: usize = 0;
    while i + 1 < n
        invariant
            n == ds@.len(),
            n >= 1,
            i < n,
            forall|j: int| 0 <= j < i ==> #[trigger] ds@[j] > ds@[j + 1],
        decreases n - i,
    {
        if !(ds[i] > ds[i + 1]) {
            proof {
                assert(!(ds@[i as int] > ds@[i + 1]));
                assert(!adjacent_decreasing(ds@));
                lemma_adjacent_decreasing_strict(ds@);
            }
            return false;
        }
        i = i + 1;
    }
    proof {
        lemma_adjacent_decreasing_strict(ds@);
    }
    true
}

impl Config {
    pub open spec fn deposits(&self) -> Seq<u128> {
        self.usd_deposits@
    }

    /// The worst tier, where a user without deposit stands.
    pub open spec fn spec_min_tier(&self) -> int {
        self.usd_deposits@.len() + 1int
    }

    /// A configuration as the contract keeps it: thresholds given and falling,
    /// and a status that names one.
    pub open spec fn wf(&self) -> bool {
        &&& 1 <= self.usd_deposits@.len()
        &&& strictly_decreasing(self.usd_deposits@)
        &&& self.status <= 1
    }

    /// The thresholds are few enough for their tiers to be numbered by a `u8`.
    pub open spec fn tiers_fit(&self) -> bool {
        self.usd_deposits@.len() <= MAX_THRESHOLDS
    }

    /// Whether the tiers can be numbered by a `u8`.
    pub fn fits_tier_numbers(&self) -> (ok: bool)
        ensures
            ok == self.tiers_fit(),
    {
        self.usd_deposits.len() <= MAX_THRESHOLDS
    }

    /// Whether the configuration is well formed.
    pub fn is_wf(&self) -> (ok: bool)
        ensures
            ok == self.wf(),
    {
        let n = self.usd_deposits.len();
        if n == 0 || self.status > 1 {
            return false;
        }
        is_strictly_decreasing(&self.usd_deposits)
    }

    /// The worst tier: one past the number of thresholds.
    pub fn min_tier(&self) -> (tier: u8)
        requires
            self.usd_deposits@.len() <= MAX_THRESHOLDS,
        ensures
            tier == self.spec_min_tier(),
    {
        (self.usd_deposits.len() + 1) as u8
    }

    /// The best tier.
    pub fn max_tier(&self) -> (tier: u8)
        ensures
            tier == 1,
    {
        1
    }

    /// The USD deposit that a tier asks.
    pub fn deposit_by_tier(&self, tier: u8) -> (usd: u128)
        requires
            1 <= tier <= self.usd_deposits@.len(),
        ensures
            usd == threshold(self.usd_deposits@, tier as int),
    {
        self.usd_deposits[(tier - 1) as usize]
    }

    /// The tier that a USD deposit reaches.
    pub fn tier_by_deposit(&self, usd_deposit: u128) -> (tier: u8)
        requires
            self.usd_deposits@.len() <= MAX_THRESHOLDS,
        ensures
            tier == tier_for(self.usd_deposits@, usd_deposit as int),
    {
        let n = self.usd_deposits.len();
        for i in 0..n
            invariant
                n == self.usd_deposits@.len(),
                n <= MAX_THRESHOLDS,
                forall|j: int| 0 <= j < i ==> self.usd_deposits@[j] > usd_deposit,
        {
            if self.usd_deposits[i] <= usd_deposit {
                proof {
                    lemma_tier_for_from_position(self.usd_deposits@, usd_deposit as int, i + 1);
                }
                return (i + 1) as u8;
            }
        }
        proof {
            lemma_tier_for_from_position(self.usd_deposits@, usd_deposit as int, n + 1);
        }
        (n + 1) as u8
    }

    /// `Ok` exactly when the contract is active.
    pub fn assert_contract_active(&self) -> (res: Result<(), ContractError>)
        ensures
            res is Ok <==> self.status == status_code(ContractStatus::Active),
            res is Err ==> res == Err::<(), ContractError>(ContractError::ContractNotActive),
    {
        if self.status != ContractStatus::Active.to_u8() {
            return Err(ContractError::ContractNotActive);
        }
        Ok(())
    }

    /// The answer to a configuration query.
    pub fn to_answer(&self) -> (answer: QueryResponse)
        requires
            self.wf(),
            self.tiers_fit(),
        ensures
            answer matches QueryResponse::Config { admin, validator, status, usd_deposits, min_tier }
                && admin == self.admin && validator == self.validator
                && status_code(status) == self.status
                && usd_deposits@ == self.usd_deposits@
                && min_tier == self.spec_min_tier(),
    {
        QueryResponse::Config {
            admin: self.admin.clone(),
            validator: self.validator.clone(),
            status: ContractStatus::from_u8(self.status),
            usd_deposits: self.usd_deposits.clone(),
            min_tier: self.min_tier(),
        }
    }
}

impl UserInfo {
    /// The answer to a user query.
    pub fn to_answer(&self) -> (answer: QueryResponse)
        ensures
            answer == (QueryResponse::UserInfo {
                tier: self.tier,
                timestamp: self.timestamp,
                usd_deposit: self.usd_deposit,
                scrt_deposit: self.sei_deposit,
            }),
    {
        QueryResponse::UserInfo {
            tier: self.tier,
            timestamp: self.timestamp,
            usd_deposit: self.usd_deposit,
            scrt_deposit: self.sei_deposit,
        }
    }
}

impl Default for UserInfo {
    fn default() -> (user: UserInfo)
        ensures
            user.tier == 0 && user.timestamp == 0 && user.usd_deposit == 0 && user.sei_deposit == 0,
    {
        UserInfo { tier: 0, timestamp: 0, usd_deposit: 0, sei_deposit: 0 }
    }
}

impl UserWithdrawal {
    /// The withdrawal as a query reports it.
    pub fn to_serialized(&self) -> (out: SerializedWithdrawals)
        ensures
            out == (SerializedWithdrawals {
                amount: self.amount,
                claim_time: self.claim_time,
                timestamp: self.timestamp,
            }),
    {
        SerializedWithdrawals {
            amount: self.amount,
            claim_time: self.claim_time,
            timestamp: self.timestamp,
        }
    }
}

/// `tier_for` is the tier `t` such that every threshold before position `t - 1`
/// is above the deposit and the one at `t - 1`, if there is one, is met.
pub proof fn lemma_tier_for_from_position(ds: Seq<u128>, usd: int, t: int)
    requires
        1 <= t <= ds.len() + 1,
        forall|j: int| 0 <= j < t - 1 ==> ds[j] > usd,
        t <= ds.len() ==> ds[t - 1] <= usd,
    ensures
        tier_for(ds, usd) == t,
    decreases ds.len(),
{
    if ds.len() > 0 && t > 1 {
        assert forall|j: int| 0 <= j < t - 2 implies ds.drop_first()[j] > usd by {
            assert(ds.drop_first()[j] == ds[j + 1]);
        }
        if t - 1 <= ds.drop_first().len() {
            assert(ds.drop_first()[t - 2] == ds[t - 1]);
        }
        lemma_tier_for_from_position(ds.drop_first(), usd, t - 1);
    }
}

/// What `tier_for` says of the thresholds around the tier it gives.
pub proof fn lemma_tier_for_position(ds: Seq<u128>, usd: int)
    ensures
        1 <= tier_for(ds, usd) <= ds.len() + 1,
        forall|j: int| 0 <= j < tier_for(ds, usd) - 1 ==> ds[j] > usd,
        tier_for(ds, usd) <= ds.len() ==> ds[tier_for(ds, usd) - 1] <= usd,
    decreases ds.len(),
{
    if ds.len() > 0 && ds[0] > usd {
        let rest = ds.drop_first();
        lemma_tier_for_position(rest, usd);
        assert forall|j: int| 0 <= j < tier_for(ds, usd) - 1 implies ds[j] > usd by {
            if j > 0 {
                assert(ds[j] == rest[j - 1]);
            }
        }
        if tier_for(ds, usd) <= ds.len() {
            assert(ds[tier_for(ds, usd) - 1] == rest[tier_for(rest, usd) - 1]);
        }
    }
}

/// A larger deposit never reaches a worse (numerically larger) tier.
pub proof fn lemma_tier_for_monotone(ds: Seq<u128>, a: int, b: int)
    requires
        a <= b,
    ensures
        tier_for(ds, b) <= tier_for(ds, a),
    decreases ds.len(),
{
    lemma_tier_for_bounds(ds, a);
    if ds.len() > 0 && ds[0] > b {
        lemma_tier_for_monotone(ds.drop_first(), a, b);
    }
}

/// Every deposit reaches a tier between the best, 1, and the worst, one past
/// the number of thresholds.
pub proof fn lemma_tier_for_bounds(ds: Seq<u128>, usd: int)
    ensures
        1 <= tier_for(ds, usd) <= ds.len() + 1,
{
    lemma_tier_for_position(ds, usd);
}

/// Depositing exactly the threshold of a tier reaches that tier.
pub proof fn lemma_threshold_reaches_its_tier(ds: Seq<u128>, tier: int)
    requires
        strictly_decreasing(ds),
        1 <= tier <= ds.len(),
    ensures
        tier_for(ds, threshold(ds, tier) as int) == tier,
{
    lemma_tier_for_from_position(ds, ds[tier - 1] as int, tier);
}

} // verus!
