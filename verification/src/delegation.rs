use crate::band::usei_denom;
use crate::msg::Coin;
use vstd::prelude::*;

verus! {

/// A delegation as the staking module reports it.
#[derive(Clone, Debug, PartialEq, Eq)]
pub struct FullDelegation {
    pub delegator: String,
    pub validator: String,
    pub amount: Coin,
    pub can_redelegate: Coin,
    pub accumulated_rewards: Vec<Coin>,
}

/// A delegation in the shape some chains answer, with rewards in any number of
/// denominations.
#[derive(Clone, Debug, PartialEq, Eq)]
pub struct FixedFullDelegation {
    pub delegator: String,
    pub validator: String,
    pub amount: Coin,
    pub can_redelegate: Coin,
    pub accumulated_rewards: Vec<Coin>,
}

/// What the delegation query gave: a failure, no delegation, or one.
#[derive(Clone, Debug, PartialEq, Eq)]
pub enum DelegationQuery {
    Failed,
    Missing,
    Found(FullDelegation),
}

/// The position of the first coin in usei.
pub open spec fn first_usei_position(coins: Seq<Coin>) -> Option<int>
    decreases coins.len(),
{
    if coins.len() == 0 {
        None
    } else if coins[0].denom@ == usei_denom() {
        Some(0)
    } else {
        match first_usei_position(coins.drop_first()) {
            Some(i) => Some(i + 1),
            None => None,
        }
    }
}

proof fn lemma_first_usei_position(coins: Seq<Coin>, i: int)
    requires
        0 <= i <= coins.len(),
        forall|j: int| 0 <= j < i ==> (#[trigger] coins[j]).denom@ != usei_denom(),
    ensures
        i < coins.len() && coins[i].denom@ == usei_denom() ==> first_usei_position(coins) == Some(i),
        i == coins.len() ==> first_usei_position(coins) is None,
    decreases i,
{
    if i > 0 {
        let rest = coins.drop_first();
        assert forall|j: int| 0 <= j < i - 1 implies (#[trigger] rest[j]).denom@ != usei_denom() by {
            assert(rest[j] == coins[j + 1]);
        }
        if i < coins.len() {
            assert(rest[i - 1] == coins[i]);
        }
        lemma_first_usei_position(rest, i - 1);
        assert(coins[0].denom@ != usei_denom());
    }
}

/// `first_usei_position` finds the first coin in usei, and finds none only
/// where no coin is in usei.
pub proof fn lemma_first_usei_position_is_first(coins: Seq<Coin>)
    ensures
        first_usei_position(coins) matches Some(i) ==> {
            &&& 0 <= i < coins.len()
            &&& coins[i].denom@ == usei_denom()
            &&& forall|j: int| 0 <= j < i ==> (#[trigger] coins[j]).denom@ != usei_denom()
        },
        first_usei_position(coins) is None ==> forall|j: int|
            0 <= j < coins.len() ==> (#[trigger] coins[j]).denom@ != usei_denom(),
    decreases coins.len(),
{
    if coins.len() > 0 {
        let rest = coins.drop_first();
        lemma_first_usei_position_is_first(rest);
        if coins[0].denom@ != usei_denom() {
            assert forall|j: int| 0 < j < coins.len() implies coins[j] == rest[j - 1] by {}
            if let Some(i) = first_usei_position(coins) {
                assert forall|j: int| 0 <= j < i implies (#[trigger] coins[j]).denom@ != usei_denom() by {
                    if j > 0 {
                        assert(coins[j] == rest[j - 1]);
                    }
                }
            } else {
                assert forall|j: int| 0 <= j < coins.len() implies (#[trigger] coins[j]).denom@
                    != usei_denom() by {
                    if j > 0 {
                        assert(coins[j] == rest[j - 1]);
                    }
                }
            }
        }
    }
}

fn copy_coin(coin: &Coin) -> (out: Coin)
    ensures
        out == *coin,
{
    Coin { denom: coin.denom.clone(), amount: coin.amount }
}

/// The position of the first coin in usei, as `first_usei_position` gives it.
fn find_first_usei(coins: &Vec<Coin>, usei: &String) -> (pos: Option<usize>)
    requires
        usei@ == usei_denom(),
    ensures
        pos matches Some(i) ==> first_usei_position(coins@) == Some(i as int) && i < coins@.len(),
        pos is None ==> first_usei_position(coins@) is None,
{
    let n = coins.len();
    for i in 0..n
        invariant
            n == coins@.len(),
            usei@ == usei_denom(),
            forall|j: int| 0 <= j < i ==> (#[trigger] coins@[j]).denom@ != usei_denom(),
    {
        if coins[i].denom == *usei {
            proof {
                lemma_first_usei_position(coins@, i as int);
            }
            return Some(i);
        }
    }
    proof {
        lemma_first_usei_position(coins@, n as int);
    }
    None
}

impl FixedFullDelegation {
    /// The delegation with its rewards reduced to the first usei reward, or to
    /// zero usei where there is none.
    pub fn into_full_delegation(self) -> (full: FullDelegation)
        ensures
            full.delegator == self.delegator,
            full.validator == self.validator,
            full.amount == self.amount,
            full.can_redelegate == self.can_redelegate,
            full.accumulated_rewards@.len() == 1,
            first_usei_position(self.accumulated_rewards@) matches Some(i)
                ==> full.accumulated_rewards@[0] == self.accumulated_rewards@[i],
            first_usei_position(self.accumulated_rewards@) is None ==> {
                &&& full.accumulated_rewards@[0].denom@ == usei_denom()
                &&& full.accumulated_rewards@[0].amount == 0
            },
    {
        let usei = String::from_str("usei");
        proof {
            reveal_strlit("usei");
            assert(usei@ =~= usei_denom());
        }
        let reward = match find_first_usei(&self.accumulated_rewards, &usei) {
            Some(i) => copy_coin(&self.accumulated_rewards[i]),
            None => Coin { denom: usei, amount: 0 },
        };
        let mut accumulated_rewards: Vec<Coin> = Vec::new();
        accumulated_rewards.push(reward);
        FullDelegation {
            delegator: self.delegator,
            validator: self.validator,
            amount: self.amount,
            can_redelegate: self.can_redelegate,
            accumulated_rewards,
        }
    }
}

} // verus!
