use tier::delegation::{FixedFullDelegation, FullDelegation};
use tier::msg::Coin;

fn coin(amount: u128, denom: &str) -> Coin {
    Coin { denom: denom.to_string(), amount }
}

fn fixed(rewards: Vec<Coin>) -> FixedFullDelegation {
    FixedFullDelegation {
        delegator: "d".to_string(),
        validator: "v".to_string(),
        amount: coin(10, "usei"),
        can_redelegate: coin(8, "usei"),
        accumulated_rewards: rewards,
    }
}

#[test]
fn keeps_first_usei_reward() {
    let full: FullDelegation =
        fixed(vec![coin(1, "uatom"), coin(2, "usei"), coin(3, "usei")]).into_full_delegation();
    assert_eq!(full.accumulated_rewards, vec![coin(2, "usei")]);
    assert_eq!(full.delegator, "d");
    assert_eq!(full.validator, "v");
    assert_eq!(full.amount, coin(10, "usei"));
    assert_eq!(full.can_redelegate, coin(8, "usei"));
}

#[test]
fn zero_reward_without_usei() {
    let full = fixed(vec![coin(1, "uatom")]).into_full_delegation();
    assert_eq!(full.accumulated_rewards, vec![coin(0, "usei")]);
    let full = fixed(vec![]).into_full_delegation();
    assert_eq!(full.accumulated_rewards, vec![coin(0, "usei")]);
}
