use tier::band::{BandProtocol, ExchangeRatePair};
use tier::contract::{
    claim_fits, deposit_fits, get_received_funds, instantiate, query_config, query_user_info,
    query_withdrawals, try_change_admin, try_change_status, try_claim, try_deposit,
    try_redelegate, try_withdraw, try_withdraw_rewards, user_is_wf, UNBOUND_LATENCY,
};
use tier::delegation::{DelegationQuery, FullDelegation};
use tier::error::ContractError;
use tier::msg::{
    Coin, ContractStatus, CosmosAction, ExecuteResponse, InstantiateMsg, QueryResponse,
    ResponseStatus, SerializedWithdrawals,
};
use tier::state::{Config, UserInfo, UserWithdrawal};

const VALIDATOR: &str = "sei183xtf2wmcah9fh5kpdr47wlspv3w47c0lgvwvf";
const ADMIN: &str = "sei1zwlmtugzr5wk5rxcmrchj2aeu8s8unktlqzmat";
const NOW: u64 = 1_571_797_419;

fn coins(amount: u128, denom: &str) -> Vec<Coin> {
    vec![Coin { denom: denom.to_string(), amount }]
}

fn instantiate_msg() -> InstantiateMsg {
    InstantiateMsg {
        validator: VALIDATOR.to_string(),
        admin: Some(ADMIN.to_string()),
        deposits: [300u128, 100, 20, 10, 1].to_vec(),
    }
}

fn default_band() -> BandProtocol {
    BandProtocol::new(&Vec::new())
}

fn deposit(
    config: &Config,
    user: Option<UserInfo>,
    sender: &str,
    funds: &Vec<Coin>,
) -> Result<(UserInfo, tier::msg::HandleResponse), ContractError> {
    let band = default_band();
    assert!(deposit_fits(config, &user, funds, &band));
    try_deposit(config, user, &sender.to_string(), funds, &band, NOW)
}

#[test]
fn deposite() {
    let config = instantiate(instantiate_msg()).unwrap();
    let _res = deposit(&config, None, "anyone", &coins(200000, "usei")).unwrap();
}

#[test]
fn change_admin() {
    let config = instantiate(instantiate_msg()).unwrap();
    let _res = try_change_admin(config, &ADMIN.to_string(), ADMIN.to_string()).unwrap();
}

#[test]
fn withdraw() {
    let config = instantiate(instantiate_msg()).unwrap();
    let (user, _) = deposit(&config, None, ADMIN, &coins(20000000, "usei")).unwrap();
    let (record, list, resp) = try_withdraw(&config, Some(user), None, NOW).unwrap();
    assert_eq!(record, None);
    assert_eq!(
        list,
        vec![UserWithdrawal { amount: 600, timestamp: NOW, claim_time: NOW + UNBOUND_LATENCY }]
    );
    assert_eq!(
        resp.messages,
        vec![CosmosAction::Undelegate { validator: VALIDATOR.to_string(), amount: 596 }]
    );
}

#[test]
fn instantiate_sets_up_active_config() {
    let config = instantiate(instantiate_msg()).unwrap();
    assert_eq!(config.status, 0);
    assert_eq!(config.admin, ADMIN);
    assert_eq!(config.validator, VALIDATOR);
    assert_eq!(config.usd_deposits, vec![300, 100, 20, 10, 1]);
    assert!(config.is_wf());
    assert_eq!(config.min_tier(), 6);
    assert_eq!(config.max_tier(), 1);
}

#[test]
fn instantiate_refusals() {
    let mut msg = instantiate_msg();
    msg.deposits = vec![];
    assert_eq!(instantiate(msg).unwrap_err(), ContractError::EmptyDeposits);
    let mut msg = instantiate_msg();
    msg.deposits = vec![10, 20];
    assert_eq!(instantiate(msg).unwrap_err(), ContractError::UnsortedDeposits);
    let mut msg = instantiate_msg();
    msg.deposits = vec![10, 10];
    assert_eq!(instantiate(msg).unwrap_err(), ContractError::UnsortedDeposits);
    // Any number of falling thresholds is accepted; only 254 of them can be numbered.
    let mut msg = instantiate_msg();
    msg.deposits = (0..300u128).rev().collect();
    let config = instantiate(msg).unwrap();
    assert_eq!(config.usd_deposits.len(), 300);
    assert!(config.is_wf());
    assert!(!config.fits_tier_numbers());
    let mut msg = instantiate_msg();
    msg.deposits = (1..255u128).rev().collect();
    assert!(instantiate(msg).unwrap().fits_tier_numbers());
    let mut msg = instantiate_msg();
    msg.admin = None;
    assert_eq!(instantiate(msg).unwrap().admin, "");
}

#[test]
fn tiers_follow_thresholds() {
    let config = instantiate(instantiate_msg()).unwrap();
    assert_eq!(config.tier_by_deposit(0), 6);
    assert_eq!(config.tier_by_deposit(1), 5);
    assert_eq!(config.tier_by_deposit(9), 5);
    assert_eq!(config.tier_by_deposit(10), 4);
    assert_eq!(config.tier_by_deposit(99), 3);
    assert_eq!(config.tier_by_deposit(100), 2);
    assert_eq!(config.tier_by_deposit(300), 1);
    assert_eq!(config.tier_by_deposit(u128::MAX), 1);
    for tier in 1..=5u8 {
        assert_eq!(config.tier_by_deposit(config.deposit_by_tier(tier)), tier);
    }
    let mut last = 6;
    for usd in 0..400u128 {
        let tier = config.tier_by_deposit(usd);
        assert!(tier <= last);
        last = tier;
    }
}

#[test]
fn deposit_reaches_best_tier_and_refunds_the_rest() {
    let config = instantiate(instantiate_msg()).unwrap();
    let (user, resp) = deposit(&config, None, "anyone", &coins(200000, "usei")).unwrap();
    // 200000 usei at half a USD each are 100000 USD; tier 1 asks 300 USD.
    assert_eq!(user.tier, 1);
    assert_eq!(user.usd_deposit, 300);
    assert_eq!(user.sei_deposit, 600);
    assert_eq!(user.timestamp, NOW);
    assert_eq!(
        resp.messages,
        vec![
            CosmosAction::BankSend { to_address: "anyone".to_string(), amount: 199400 },
            CosmosAction::Delegate { validator: VALIDATOR.to_string(), amount: 600 },
        ]
    );
    assert_eq!(
        resp.data,
        Some(ExecuteResponse::Deposit {
            usd_deposit: 300,
            sei_deposit: 600,
            tier: 1,
            status: ResponseStatus::Success
        })
    );
    assert!(user_is_wf(&config, &user));
}

#[test]
fn deposit_exact_threshold_has_no_refund() {
    let config = instantiate(instantiate_msg()).unwrap();
    let (user, resp) = deposit(&config, None, "u", &coins(40, "usei")).unwrap();
    assert_eq!(user.tier, 3);
    assert_eq!(user.usd_deposit, 20);
    assert_eq!(user.sei_deposit, 40);
    assert_eq!(
        resp.messages,
        vec![CosmosAction::Delegate { validator: VALIDATOR.to_string(), amount: 40 }]
    );
    // A second deposit adds up: 20 + 80 = 100 USD reaches tier 2.
    let (user, resp) = deposit(&config, Some(user), "u", &coins(160, "usei")).unwrap();
    assert_eq!(user.tier, 2);
    assert_eq!(user.usd_deposit, 100);
    assert_eq!(user.sei_deposit, 200);
    assert_eq!(
        resp.messages,
        vec![CosmosAction::Delegate { validator: VALIDATOR.to_string(), amount: 160 }]
    );
}

#[test]
fn deposit_too_low_asks_for_the_next_tier() {
    let config = instantiate(instantiate_msg()).unwrap();
    let (user, _) = deposit(&config, None, "u", &coins(40, "usei")).unwrap();
    // 10 more USD leave the user at 30 USD, still tier 3; tier 2 asks 100.
    let err = deposit(&config, Some(user.clone()), "u", &coins(20, "usei")).unwrap_err();
    assert_eq!(err, ContractError::DepositTooLow { usd: 80, usei: 160 });
    // Depositing what was asked reaches the next tier, with nothing to give back.
    let (user, resp) = deposit(&config, Some(user), "u", &coins(160, "usei")).unwrap();
    assert_eq!(user.tier, 2);
    assert_eq!(user.usd_deposit, 100);
    assert_eq!(resp.messages.len(), 1);
}

#[test]
fn deposit_at_max_tier_is_refused() {
    let config = instantiate(instantiate_msg()).unwrap();
    let (user, _) = deposit(&config, None, "u", &coins(1000, "usei")).unwrap();
    assert_eq!(user.tier, 1);
    let err = deposit(&config, Some(user), "u", &coins(1000, "usei")).unwrap_err();
    assert_eq!(err, ContractError::ReachedMaxTier);
}

#[test]
fn deposit_needs_an_active_contract() {
    let config = instantiate(instantiate_msg()).unwrap();
    let (config, _) =
        try_change_status(config, &ADMIN.to_string(), ContractStatus::Stopped).unwrap();
    let err = deposit(&config, None, "u", &coins(1000, "usei")).unwrap_err();
    assert_eq!(err, ContractError::ContractNotActive);
    assert_eq!(try_withdraw(&config, None, None, NOW).unwrap_err(), ContractError::ContractNotActive);
    assert_eq!(
        try_claim(&config, None, &"u".to_string(), None, None, None, NOW).unwrap_err(),
        ContractError::ContractNotActive
    );
}

#[test]
fn received_funds_checks() {
    assert_eq!(get_received_funds(&vec![]).unwrap_err(), ContractError::NoFunds);
    assert_eq!(get_received_funds(&coins(0, "usei")).unwrap_err(), ContractError::ZeroAmount);
    assert_eq!(get_received_funds(&coins(5, "uatom")).unwrap_err(), ContractError::UnsupportedToken);
    let two = vec![
        Coin { denom: "usei".to_string(), amount: 5 },
        Coin { denom: "uatom".to_string(), amount: 5 },
    ];
    assert_eq!(get_received_funds(&two).unwrap_err(), ContractError::MultipleFunds);
    assert_eq!(get_received_funds(&coins(5, "usei")).unwrap(), Coin { denom: "usei".to_string(), amount: 5 });
}

#[test]
fn admin_only_changes() {
    let config = instantiate(instantiate_msg()).unwrap();
    let intruder = "intruder".to_string();
    assert_eq!(
        try_change_admin(instantiate(instantiate_msg()).unwrap(), &intruder, intruder.clone()).unwrap_err(),
        ContractError::Unauthorized
    );
    assert_eq!(
        try_change_status(instantiate(instantiate_msg()).unwrap(), &intruder, ContractStatus::Stopped)
            .unwrap_err(),
        ContractError::Unauthorized
    );
    assert_eq!(
        try_withdraw_rewards(&config, &intruder, None, DelegationQuery::Failed).unwrap_err(),
        ContractError::Unauthorized
    );
    assert_eq!(
        try_redelegate(instantiate(instantiate_msg()).unwrap(), &intruder, "v2".to_string(), None, DelegationQuery::Failed)
            .unwrap_err(),
        ContractError::Unauthorized
    );
    let (config, resp) = try_change_admin(config, &ADMIN.to_string(), "new".to_string()).unwrap();
    assert_eq!(config.admin, "new");
    assert_eq!(resp.attributes, vec![("action".to_string(), "changed admin".to_string())]);
    let (config, resp) = try_change_status(config, &"new".to_string(), ContractStatus::Stopped).unwrap();
    assert_eq!(config.status, 1);
    assert_eq!(resp.attributes, vec![("action".to_string(), "changed status".to_string())]);
    assert!(config.is_wf());
}

#[test]
fn withdraw_records_the_stake_and_undelegates() {
    let config = instantiate(instantiate_msg()).unwrap();
    let (user, _) = deposit(&config, None, ADMIN, &coins(20000000, "usei")).unwrap();
    let earlier = UserWithdrawal { amount: 7, timestamp: 1, claim_time: 2 };
    let (record, list, resp) = try_withdraw(&config, Some(user), Some(vec![earlier.clone()]), NOW).unwrap();
    // The user's record is gone: the user reads as fresh again.
    assert_eq!(record, None);
    assert_eq!(
        query_user_info(&config, record),
        QueryResponse::UserInfo { tier: 6, timestamp: 0, usd_deposit: 0, scrt_deposit: 0 }
    );
    assert_eq!(
        list,
        vec![
            earlier,
            UserWithdrawal { amount: 600, timestamp: NOW, claim_time: NOW + UNBOUND_LATENCY },
        ]
    );
    assert_eq!(
        resp.messages,
        vec![CosmosAction::Undelegate { validator: VALIDATOR.to_string(), amount: 596 }]
    );
    assert_eq!(resp.data, Some(ExecuteResponse::Withdraw { status: ResponseStatus::Success }));
}

fn withdrawal(amount: u128, claim_time: u64) -> UserWithdrawal {
    UserWithdrawal { amount, timestamp: 0, claim_time }
}

#[test]
fn claim_pays_due_withdrawals() {
    let config = instantiate(instantiate_msg()).unwrap();
    let list = vec![withdrawal(10, 5), withdrawal(20, 50), withdrawal(30, 6)];
    let sender = "u".to_string();
    assert!(claim_fits(&Some(list.clone()), None, None, 10));
    let (rest, resp) = try_claim(&config, Some(list.clone()), &sender, None, None, None, 10).unwrap();
    assert_eq!(rest, vec![withdrawal(20, 50)]);
    assert_eq!(resp.messages, vec![CosmosAction::BankSend { to_address: "u".to_string(), amount: 40 }]);
    assert_eq!(resp.data, Some(ExecuteResponse::Claim { amount: 40, status: ResponseStatus::Success }));
    // The usei paid out and the usei left add up to what was on the list.
    let left: u128 = rest.iter().map(|w| w.amount).sum();
    assert_eq!(left + 40, 60);
    // To a recipient of choice.
    let (_, resp) = try_claim(&config, Some(list.clone()), &sender, Some("r".to_string()), None, None, 10).unwrap();
    assert_eq!(resp.messages, vec![CosmosAction::BankSend { to_address: "r".to_string(), amount: 40 }]);
    // Only the page is looked at.
    let (rest, resp) = try_claim(&config, Some(list.clone()), &sender, None, None, Some(1), 10).unwrap();
    assert_eq!(rest, vec![withdrawal(20, 50), withdrawal(30, 6)]);
    assert_eq!(resp.data, Some(ExecuteResponse::Claim { amount: 10, status: ResponseStatus::Success }));
    // A page that starts later takes its entries out counting from the head.
    let (rest, resp) = try_claim(&config, Some(list.clone()), &sender, None, Some(2), None, 10).unwrap();
    assert_eq!(rest, vec![withdrawal(20, 50), withdrawal(30, 6)]);
    assert_eq!(resp.data, Some(ExecuteResponse::Claim { amount: 30, status: ResponseStatus::Success }));
}

#[test]
fn claim_with_nothing_due_is_refused() {
    let config = instantiate(instantiate_msg()).unwrap();
    let sender = "u".to_string();
    assert_eq!(
        try_claim(&config, None, &sender, None, None, None, 10).unwrap_err(),
        ContractError::NothingToClaim
    );
    assert_eq!(
        try_claim(&config, Some(vec![withdrawal(10, 50)]), &sender, None, None, None, 10).unwrap_err(),
        ContractError::NothingToClaim
    );
    assert_eq!(
        try_claim(&config, Some(vec![withdrawal(10, 5)]), &sender, None, Some(3), None, 10).unwrap_err(),
        ContractError::NothingToClaim
    );
    assert!(!claim_fits(&Some(vec![withdrawal(u128::MAX, 0), withdrawal(1, 0)]), None, None, 10));
}

fn delegation(amount: u128, can_redelegate: u128, reward: u128) -> FullDelegation {
    FullDelegation {
        delegator: "contract".to_string(),
        validator: VALIDATOR.to_string(),
        amount: Coin { denom: "usei".to_string(), amount },
        can_redelegate: Coin { denom: "usei".to_string(), amount: can_redelegate },
        accumulated_rewards: vec![Coin { denom: "usei".to_string(), amount: reward }],
    }
}

#[test]
fn withdraw_rewards_cases() {
    let config = instantiate(instantiate_msg()).unwrap();
    let admin = ADMIN.to_string();
    assert_eq!(
        try_withdraw_rewards(&config, &admin, None, DelegationQuery::Failed).unwrap_err(),
        ContractError::NothingToWithdraw
    );
    assert_eq!(
        try_withdraw_rewards(&config, &admin, None, DelegationQuery::Found(delegation(5, 5, 0))).unwrap_err(),
        ContractError::NothingToWithdraw
    );
    let resp = try_withdraw_rewards(&config, &admin, None, DelegationQuery::Found(delegation(5, 5, 9))).unwrap();
    assert_eq!(
        resp.messages,
        vec![CosmosAction::WithdrawDelegatorReward { validator: VALIDATOR.to_string() }]
    );
    assert_eq!(
        resp.data,
        Some(ExecuteResponse::WithdrawRewards { amount: 9, status: ResponseStatus::Success })
    );
}

#[test]
fn redelegate_cases() {
    let admin = ADMIN.to_string();
    let fresh = || instantiate(instantiate_msg()).unwrap();
    assert_eq!(
        try_redelegate(fresh(), &admin, VALIDATOR.to_string(), None, DelegationQuery::Failed).unwrap_err(),
        ContractError::SameValidator
    );
    let (config, resp) =
        try_redelegate(fresh(), &admin, "v2".to_string(), None, DelegationQuery::Failed).unwrap();
    assert_eq!(config.validator, "v2");
    assert!(resp.messages.is_empty());
    assert_eq!(resp.data, Some(ExecuteResponse::Redelegate { amount: 0, status: ResponseStatus::Success }));
    assert_eq!(
        try_redelegate(fresh(), &admin, "v2".to_string(), None, DelegationQuery::Found(delegation(10, 4, 0)))
            .unwrap_err(),
        ContractError::CannotRedelegateFull
    );
    let (config, resp) = try_redelegate(
        fresh(),
        &admin,
        "v2".to_string(),
        None,
        DelegationQuery::Found(delegation(10, 10, 3)),
    )
    .unwrap();
    assert_eq!(config.validator, "v2");
    assert_eq!(
        resp.messages,
        vec![
            CosmosAction::WithdrawDelegatorReward { validator: VALIDATOR.to_string() },
            CosmosAction::Redelegate {
                src_validator: VALIDATOR.to_string(),
                dst_validator: "v2".to_string(),
                amount: 10
            },
        ]
    );
    let (_, resp) = try_redelegate(
        fresh(),
        &admin,
        "v2".to_string(),
        None,
        DelegationQuery::Found(delegation(10, 10, 0)),
    )
    .unwrap();
    assert_eq!(
        resp.messages,
        vec![CosmosAction::Redelegate {
            src_validator: VALIDATOR.to_string(),
            dst_validator: "v2".to_string(),
            amount: 10
        }]
    );
}

#[test]
fn queries() {
    let config = instantiate(instantiate_msg()).unwrap();
    assert_eq!(
        query_config(&config),
        QueryResponse::Config {
            admin: ADMIN.to_string(),
            validator: VALIDATOR.to_string(),
            status: ContractStatus::Active,
            usd_deposits: vec![300, 100, 20, 10, 1],
            min_tier: 6,
        }
    );
    assert_eq!(
        query_user_info(&config, None),
        QueryResponse::UserInfo { tier: 6, timestamp: 0, usd_deposit: 0, scrt_deposit: 0 }
    );
    let list = vec![withdrawal(1, 1), withdrawal(2, 2), withdrawal(3, 3)];
    let ser = |w: &UserWithdrawal| SerializedWithdrawals { amount: w.amount, claim_time: w.claim_time, timestamp: w.timestamp };
    assert_eq!(
        query_withdrawals(Some(list.clone()), Some(1), Some(5)),
        QueryResponse::Withdrawals { amount: 3, withdrawals: vec![ser(&list[1]), ser(&list[2])] }
    );
    assert_eq!(
        query_withdrawals(Some(list.clone()), None, None),
        QueryResponse::Withdrawals { amount: 3, withdrawals: list.iter().map(ser).collect() }
    );
    assert_eq!(
        query_withdrawals(None, Some(4), Some(2)),
        QueryResponse::Withdrawals { amount: 0, withdrawals: vec![] }
    );
}

#[test]
fn status_codes_round_trip() {
    for status in [ContractStatus::Active, ContractStatus::Stopped] {
        assert_eq!(ContractStatus::from_u8(status.to_u8()), status);
    }
    assert_eq!(ContractStatus::Active.to_u8(), 0);
    assert_eq!(ContractStatus::Stopped.to_u8(), 1);
}

#[test]
fn band_conversions() {
    let band = default_band();
    assert_eq!(band.sei_per_usd(), BandProtocol::ONE_USD / 2);
    assert_eq!(band.usd_amount(200000), 100000);
    assert_eq!(band.usei_amount(100000), 200000);
    assert_eq!(band.usd_amount(3), 1);
    assert_eq!(band.usei_amount(band.usd_amount(3)), 2);
    // One atomic of rate: 10^-18 USD per usei.
    let pair = |denom: &str, rate: u128| ExchangeRatePair { denom: denom.to_string(), exchange_rate: rate };
    assert_eq!(BandProtocol::new(&vec![pair("usei", 1)]).sei_per_usd(), 1_000_000);
    assert_eq!(BandProtocol::new(&vec![pair("usei", 3)]).sei_per_usd(), 333_333);
    // The last usei pair counts, others are ignored.
    assert_eq!(
        BandProtocol::new(&vec![pair("usei", 3), pair("uatom", 1), pair("usei", 2)]).sei_per_usd(),
        500_000
    );
    assert_eq!(BandProtocol::new(&vec![pair("uatom", 1)]).sei_per_usd(), BandProtocol::ONE_USD / 2);
    // A realistic rate of 0.4 USD gives a price that rounds down to zero.
    assert_eq!(BandProtocol::new(&vec![pair("usei", 400_000_000_000_000_000)]).sei_per_usd(), 0);
}
