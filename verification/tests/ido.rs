use tier::ido::tier::{
    find_tier_in_metadata, get_min_tier, get_tier, get_tier_from_nft_contract,
    get_tier_from_tier_contract, tier_from_attributes, Metadata, NftInfo, TierResponse, Trait,
};
use tier::ido::utils::{
    assert_admin, assert_contract_active, assert_ido_admin, in_whitelist, sent_funds, IdoError,
    WhitelistStatus,
};
use tier::msg::{Coin, ContractStatus};

fn attr(trait_type: &str, value: &str) -> Trait {
    Trait { trait_type: trait_type.to_string(), value: value.to_string() }
}

fn meta(attrs: Vec<Trait>) -> Metadata {
    Metadata { attributes: Some(attrs) }
}

#[test]
fn manual_tier() {
    let address = "address".to_string();
    for i in 1..=4u8 {
        assert_eq!(get_tier(&TierResponse::UserInfo { tier: i }, None), Ok(i));
    }
    assert_eq!(address, "address");
}

#[test]
fn tier_from_metadata() {
    assert_eq!(find_tier_in_metadata(&meta(vec![attr("id", "XYZA")])), Some(1));
    assert_eq!(find_tier_in_metadata(&meta(vec![attr("ID", "XYZB")])), Some(2));
    assert_eq!(find_tier_in_metadata(&meta(vec![attr("color", "XYZA"), attr("Id", "XYZC")])), Some(3));
    assert_eq!(find_tier_in_metadata(&meta(vec![attr("iD", "XYZD")])), Some(4));
    assert_eq!(find_tier_in_metadata(&meta(vec![attr("id", "other"), attr("id", "XYZA")])), Some(5));
    assert_eq!(find_tier_in_metadata(&meta(vec![attr("color", "XYZA")])), Some(4));
    assert_eq!(find_tier_in_metadata(&Metadata { attributes: None }), Some(4));
    // Already lowercased types.
    let attrs = vec![attr("ID", "XYZA"), attr("id", "XYZB")];
    assert_eq!(tier_from_attributes(&attrs, &vec!["x".to_string(), "id".to_string()]), 2);
}

#[test]
fn nft_tier_is_the_best_owned() {
    let owner = "me".to_string();
    let nft = |who: &str, value: &str| NftInfo { owner: who.to_string(), extension: meta(vec![attr("id", value)]) };
    assert_eq!(get_tier_from_nft_contract(&owner, &vec![]), Some(5));
    assert_eq!(
        get_tier_from_nft_contract(&owner, &vec![nft("me", "XYZC"), nft("other", "XYZA"), nft("me", "XYZB")]),
        Some(2)
    );
    assert_eq!(get_tier_from_nft_contract(&owner, &vec![nft("other", "XYZA")]), Some(5));
}

#[test]
fn tier_contract_answers() {
    let config = TierResponse::Config {
        admin: "a".to_string(),
        validator: "v".to_string(),
        status: ContractStatus::Active,
        usd_deposits: vec![3, 2, 1],
        min_tier: 4,
    };
    assert_eq!(get_min_tier(&config), Ok(4));
    assert_eq!(get_tier_from_tier_contract(&config), Err(IdoError::CannotGetTier));
    assert_eq!(get_tier(&config, Some(1)), Err(IdoError::CannotGetTier));
    let user = TierResponse::UserInfo { tier: 3 };
    assert_eq!(get_min_tier(&user), Err(IdoError::CannotGetMinTier));
    assert_eq!(get_tier_from_tier_contract(&user), Ok(3));
    assert_eq!(get_tier(&user, Some(2)), Ok(2));
    assert_eq!(get_tier(&user, Some(5)), Ok(3));
}

#[test]
fn ido_utils() {
    assert_eq!(assert_contract_active(0), Ok(()));
    assert_eq!(assert_contract_active(1), Err(IdoError::ContractNotActive));
    let a = "a".to_string();
    let b = "b".to_string();
    assert_eq!(assert_admin(&a, &a), Ok(()));
    assert_eq!(assert_admin(&a, &b), Err(IdoError::Unauthorized));
    assert_eq!(assert_ido_admin(&a, &a), Ok(()));
    assert_eq!(assert_ido_admin(&a, &b), Err(IdoError::Unauthorized));
    assert_eq!(in_whitelist(Some(true)), WhitelistStatus::Known(true));
    assert_eq!(in_whitelist(Some(false)), WhitelistStatus::Known(false));
    assert_eq!(in_whitelist(None), WhitelistStatus::SharedWhitelist);
}

#[test]
fn funds_sent() {
    let c = |amount: u128, denom: &str| Coin { denom: denom.to_string(), amount };
    assert_eq!(sent_funds(&vec![]), Ok(0));
    assert_eq!(sent_funds(&vec![c(3, "usei"), c(4, "usei")]), Ok(7));
    assert_eq!(sent_funds(&vec![c(3, "usei"), c(4, "uatom")]), Err(IdoError::UnsupportedToken));
    assert_eq!(sent_funds(&vec![c(u128::MAX, "usei"), c(4, "uatom")]), Err(IdoError::UnsupportedToken));
}
