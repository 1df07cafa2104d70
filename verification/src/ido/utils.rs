use crate::band::usei_denom;
use crate::msg::{status_code, Coin, ContractStatus};
use vstd::prelude::*;

verus! {

/// Why the IDO contract refused a request.
#[derive(Clone, Debug, PartialEq, Eq)]
pub enum IdoError {
    /// "Contract is not active"
    ContractNotActive,
    /// "Unauthorized"
    Unauthorized,
    /// "Unsopported token"
    UnsupportedToken,
    /// "Cannot get tier"
    CannotGetTier,
    /// "Cannot get min tier"
    CannotGetMinTier,
}

/// `Ok` exactly when the stored status is the active one.
pub fn assert_contract_active(status: u8) -> (res: Result<(), IdoError>)
    ensures
        res is Ok <==> status == status_code(ContractStatus::Active),
        res is Err ==> res == Err::<(), IdoError>(IdoError::ContractNotActive),
{
    if status != ContractStatus::Active.to_u8() {
        return Err(IdoError::ContractNotActive);
    }
    Ok(())
}

/// `Ok` exactly when the address is the contract's admin.
pub fn assert_admin(admin: &String, address: &String) -> (res: Result<(), IdoError>)
    ensures
        res is Ok <==> admin@ == address@,
        res is Err ==> res == Err::<(), IdoError>(IdoError::Unauthorized),
{
    if *admin != *address {
        return Err(IdoError::Unauthorized);
    }
    Ok(())
}

/// `Ok` exactly when the address is the admin of the IDO.
pub fn assert_ido_admin(ido_admin: &String, address: &String) -> (res: Result<(), IdoError>)
    ensures
        res is Ok <==> ido_admin@ == address@,
        res is Err ==> res == Err::<(), IdoError>(IdoError::Unauthorized),
{
    if *ido_admin != *address {
        return Err(IdoError::Unauthorized);
    }
    Ok(())
}

/// What the whitelist entry of an address decides.
#[derive(Clone, Copy, Debug, PartialEq, Eq, Structural)]
pub enum WhitelistStatus {
    /// The entry says whether the address is listed.
    Known(bool),
    /// There is no entry: the IDO's shared whitelist flag decides.
    SharedWhitelist,
}

/// An address's own whitelist entry decides; without one, the IDO's shared flag does.
pub fn in_whitelist(entry: Option<bool>) -> (res: WhitelistStatus)
    ensures
        entry matches Some(v) ==> res == WhitelistStatus::Known(v),
        entry is None ==> res == WhitelistStatus::SharedWhitelist,
{
    match entry {
        Some(v) => WhitelistStatus::Known(v),
        None => WhitelistStatus::SharedWhitelist,
    }
}

/// The number of leading coins in usei.
pub open spec fn usei_prefix(coins: Seq<Coin>) -> int
    decreases coins.len(),
{
    if coins.len() == 0 {
        0
    } else if coins[0].denom@ == usei_denom() {
        1 + usei_prefix(coins.drop_first())
    } else {
        0
    }
}

/// Sum of the amounts of some coins.
pub open spec fn coins_total(coins: Seq<Coin>) -> int
    decreases coins.len(),
{
    if coins.len() == 0 {
        0
    } else {
        coins_total(coins.drop_last()) + coins.last().amount
    }
}

/// `usei_prefix` counts the leading usei coins: all coins before it are usei,
/// and the coin at it, if any, is not.
pub proof fn lemma_usei_prefix_counts_leading_usei(coins: Seq<Coin>)
    ensures
        0 <= usei_prefix(coins) <= coins.len(),
        forall|j: int| 0 <= j < usei_prefix(coins) ==> (#[trigger] coins[j]).denom@ == usei_denom(),
        usei_prefix(coins) < coins.len() ==> coins[usei_prefix(coins)].denom@ != usei_denom(),
    decreases coins.len(),
{
    lemma_usei_prefix_bounds(coins);
    if coins.len() > 0 && coins[0].denom@ == usei_denom() {
        let rest = coins.drop_first();
        lemma_usei_prefix_counts_leading_usei(rest);
        assert forall|j: int| 0 <= j < usei_prefix(coins) implies (#[trigger] coins[j]).denom@
            == usei_denom() by {
            if j > 0 {
                assert(coins[j] == rest[j - 1]);
            }
        }
        if usei_prefix(coins) < coins.len() {
            assert(coins[usei_prefix(coins)] == rest[usei_prefix(rest)]);
        }
    }
}

proof fn lemma_usei_prefix(coins: Seq<Coin>, i: int)
    requires
        0 <= i <= coins.len(),
        forall|j: int| 0 <= j < i ==> (#[trigger] coins[j]).denom@ == usei_denom(),
    ensures
        i < coins.len() && coins[i].denom@ != usei_denom() ==> usei_prefix(coins) == i,
        i == coins.len() ==> usei_prefix(coins) == i,
        usei_prefix(coins) >= i,
        usei_prefix(coins) <= coins.len(),
    decreases i,
{
    lemma_usei_prefix_bounds(coins);
    if i > 0 {
        let rest = coins.drop_first();
        assert forall|j: int| 0 <= j < i - 1 implies (#[trigger] rest[j]).denom@ == usei_denom() by {
            assert(rest[j] == coins[j + 1]);
        }
        if i < coins.len() {
            assert(rest[i - 1] == coins[i]);
        }
        lemma_usei_prefix(rest, i - 1);
    }
}

proof fn lemma_usei_prefix_bounds(coins: Seq<Coin>)
    ensures
        0 <= usei_prefix(coins) <= coins.len(),
    decreases coins.len(),
{
    if coins.len() > 0 {
        lemma_usei_prefix_bounds(coins.drop_first());
    }
}

proof fn lemma_coins_total_prefix(coins: Seq<Coin>, i: int, k: int)
    requires
        0 <= i <= k <= coins.len(),
    ensures
        0 <= coins_total(coins.take(i)) <= coins_total(coins.take(k)),
    decreases k,
{
    if i < k {
        lemma_coins_total_prefix(coins, i, k - 1);
        assert(coins.take(k).drop_last() =~= coins.take(k - 1));
    } else if k > 0 {
        lemma_coins_total_prefix(coins, i - 1, k - 1);
        assert(coins.take(k).drop_last() =~= coins.take(k - 1));
    } else {
        assert(coins.take(0).len() == 0);
    }
}

/// The usei sent: the sum of the coins, all of which must be usei.
pub fn sent_funds(coins: &Vec<Coin>) -> (res: Result<u128, IdoError>)
    requires
        coins_total(coins@.take(usei_prefix(coins@))) <= u128::MAX,
    ensures
        usei_prefix(coins@) < coins@.len() ==> res == Err::<u128, IdoError>(
            IdoError::UnsupportedToken,
        ),
        usei_prefix(coins@) == coins@.len() ==> res == Ok::<u128, IdoError>(
            coins_total(coins@) as u128,
        ),
{
    let usei = String::from_str("usei");
    proof {
        reveal_strlit("usei");
        assert(usei@ =~= usei_denom());
        lemma_usei_prefix_bounds(coins@);
    }
    let n = coins.len();
    let mut amount: u128 = 0;
    for i in 0..n
        invariant
            n == coins@.len(),
            usei@ == usei_denom(),
            coins_total(coins@.take(usei_prefix(coins@))) <= u128::MAX,
            forall|j: int| 0 <= j < i ==> (#[trigger] coins@[j]).denom@ == usei_denom(),
            amount == coins_total(coins@.take(i as int)),
    {
        if coins[i].denom != usei {
            proof {
                lemma_usei_prefix(coins@, i as int);
            }
            return Err(IdoError::UnsupportedToken);
        }
        proof {
            assert forall|j: int| 0 <= j < i + 1 implies (#[trigger] coins@[j]).denom@
                == usei_denom() by {}
            lemma_usei_prefix(coins@, i + 1);
            lemma_coins_total_prefix(coins@, i + 1, usei_prefix(coins@));
            assert(coins@.take(i + 1).drop_last() =~= coins@.take(i as int));
        }
        amount = amount + coins[i].amount;
    }
    proof {
        lemma_usei_prefix(coins@, n as int);
        assert(coins@.take(n as int) =~= coins@);
    }
    Ok(amount)
}

} // verus!
