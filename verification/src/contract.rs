use crate::band::{lemma_conversions_round_down, lemma_usd_value_is_floor, lemma_usei_value_is_floor, usd_value, usei_denom, usei_value, BandProtocol};
use crate::delegation::DelegationQuery;
use crate::error::ContractError;
use crate::msg::{
    QueryResponse, SerializedWithdrawals, status_code, Coin, ContractStatus, CosmosAction, ExecuteResponse, HandleResponse,
    InstantiateMsg, ResponseStatus,
};
use crate::state::{
    lemma_threshold_reaches_its_tier, lemma_tier_for_bounds, lemma_tier_for_monotone,
    is_strictly_decreasing, lemma_tier_for_position, strictly_decreasing, threshold, tier_for, Config, UserInfo, UserWithdrawal,
    MAX_THRESHOLDS,
};
use vstd::prelude::*;

verus! {

/// Seconds between a withdrawal and the time it can be claimed: 21 days.
pub const UNBOUND_LATENCY: u64 = 1_814_400u64;

/// Size of the blocks that answers are padded to.
pub const BLOCK_SIZE: usize = 256;

/// Sets up the contract: the thresholds must be given, falling strictly; the
/// admin defaults to the empty address.
pub fn instantiate(msg: InstantiateMsg) -> (res: Result<Config, ContractError>)
    ensures
        msg.deposits@.len() == 0 ==> res == Err::<Config, ContractError>(
            ContractError::EmptyDeposits,
        ),
        msg.deposits@.len() > 0 && !strictly_decreasing(msg.deposits@) ==> res == Err::<
            Config,
            ContractError,
        >(ContractError::UnsortedDeposits),
        1 <= msg.deposits@.len() && strictly_decreasing(msg.deposits@) ==> {
            &&& res matches Ok(config)
            &&& config.status == status_code(ContractStatus::Active)
            &&& config.validator == msg.validator
            &&& config.usd_deposits == msg.deposits
            &&& config.admin@ == (match msg.admin {
                Some(a) => a@,
                None => Seq::<char>::empty(),
            })
            &&& config.wf()
        },
{
    let n = msg.deposits.len();
    if n == 0 {
        return Err(ContractError::EmptyDeposits);
    }
    if !is_strictly_decreasing(&msg.deposits) {
        return Err(ContractError::UnsortedDeposits);
    }
    let admin = match msg.admin {
        Some(a) => a,
        None => String::new(),
    };
    Ok(Config {
        status: ContractStatus::Active.to_u8(),
        admin,
        validator: msg.validator,
        usd_deposits: msg.deposits,
    })
}

/// Changing the admin, the status or the validator keeps a configuration well formed.
pub proof fn lemma_config_updates_keep_wf(
    config: Config,
    admin: String,
    status: ContractStatus,
    validator: String,
)
    requires
        config.wf(),
    ensures
        (Config { admin: admin, ..config }).wf(),
        (Config { status: status_code(status), ..config }).wf(),
        (Config { validator: validator, ..config }).wf(),
{
}

/// An answer that only logs `("action", text)`.
pub open spec fn action_response(resp: HandleResponse, text: Seq<char>) -> bool {
    &&& resp.messages@.len() == 0
    &&& resp.data is None
    &&& resp.attributes@.len() == 1
    &&& resp.attributes@[0].0@ == "action"@
    &&& resp.attributes@[0].1@ == text
}

fn action_response_for(text: &str) -> (resp: HandleResponse)
    ensures
        action_response(resp, text@),
{
    let mut attributes: Vec<(String, String)> = Vec::new();
    attributes.push((String::from_str("action"), String::from_str(text)));
    HandleResponse { messages: Vec::new(), attributes, data: None }
}

/// Hands the admin role to `new_admin`; only the admin may.
pub fn try_change_admin(config: Config, sender: &String, new_admin: String) -> (res: Result<
    (Config, HandleResponse),
    ContractError,
>)
    ensures
        sender@ != config.admin@ ==> res == Err::<(Config, HandleResponse), ContractError>(
            ContractError::Unauthorized,
        ),
        sender@ == config.admin@ ==> (res matches Ok((c, resp)) && c == (Config {
            admin: new_admin,
            ..config
        }) && action_response(resp, "changed admin"@)),
{
    if *sender != config.admin {
        return Err(ContractError::Unauthorized);
    }
    let resp = action_response_for("changed admin");
    Ok((Config { admin: new_admin, ..config }, resp))
}

/// Sets the contract's status; only the admin may.
pub fn try_change_status(config: Config, sender: &String, status: ContractStatus) -> (res: Result<
    (Config, HandleResponse),
    ContractError,
>)
    ensures
        sender@ != config.admin@ ==> res == Err::<(Config, HandleResponse), ContractError>(
            ContractError::Unauthorized,
        ),
        sender@ == config.admin@ ==> (res matches Ok((c, resp)) && c == (Config {
            status: status_code(status),
            ..config
        }) && action_response(resp, "changed status"@)),
{
    if *sender != config.admin {
        return Err(ContractError::Unauthorized);
    }
    let resp = action_response_for("changed status");
    Ok((Config { status: status.to_u8(), ..config }, resp))
}

/// The one coin that a deposit must carry, or why the funds are refused:
/// none sent, a zero amount, another token than usei, or more than one coin.
pub open spec fn received_funds(funds: Seq<Coin>) -> Result<Coin, ContractError> {
    if funds.len() == 0 {
        Err(ContractError::NoFunds)
    } else if funds[0].amount == 0 {
        Err(ContractError::ZeroAmount)
    } else if funds[0].denom@ != usei_denom() {
        Err(ContractError::UnsupportedToken)
    } else if funds.len() > 1 {
        Err(ContractError::MultipleFunds)
    } else {
        Ok(funds[0])
    }
}

/// The funds are accepted exactly when they are one coin of a nonzero amount
/// of usei, and then that coin is what is received.
pub proof fn lemma_received_funds_accepts_one_usei_coin(funds: Seq<Coin>)
    ensures
        received_funds(funds) is Ok <==> (funds.len() == 1 && funds[0].amount > 0 && funds[0].denom@
            == usei_denom()),
        received_funds(funds) matches Ok(c) ==> c == funds[0],
{
}

/// Checks the funds sent with a deposit.
pub fn get_received_funds(funds: &Vec<Coin>) -> (res: Result<Coin, ContractError>)
    ensures
        res == received_funds(funds@),
{
    if funds.len() == 0 {
        return Err(ContractError::NoFunds);
    }
    let received = &funds[0];
    if received.amount == 0 {
        return Err(ContractError::ZeroAmount);
    }
    let usei = String::from_str("usei");
    proof {
        reveal_strlit("usei");
        assert(usei@ =~= usei_denom());
    }
    if received.denom != usei {
        return Err(ContractError::UnsupportedToken);
    }
    if funds.len() > 1 {
        return Err(ContractError::MultipleFunds);
    }
    Ok(Coin { denom: received.denom.clone(), amount: received.amount })
}

/// The record of a user who never deposited: the worst tier, nothing deposited.
pub open spec fn fresh_user(config: Config) -> UserInfo {
    UserInfo {
        tier: config.spec_min_tier() as u8,
        timestamp: 0,
        usd_deposit: 0,
        sei_deposit: 0,
    }
}

/// The record that a request starts from: the stored one, or a fresh one.
pub open spec fn user_or_fresh(config: Config, user: Option<UserInfo>) -> UserInfo {
    match user {
        Some(u) => u,
        None => fresh_user(config),
    }
}

/// A user without a record stands at the worst tier, one past the number of
/// thresholds, with nothing deposited; that record is well formed.
pub proof fn lemma_fresh_user_is_worst_tier(config: Config)
    requires
        config.tiers_fit(),
    ensures
        fresh_user(config).tier == config.usd_deposits@.len() + 1,
        fresh_user(config).usd_deposit == 0,
        fresh_user(config).sei_deposit == 0,
        fresh_user(config).timestamp == 0,
        user_wf(config, fresh_user(config)),
{
}

/// A user record as deposits leave it: either at the worst tier with no USD
/// counted, or at a tier with exactly that tier's threshold counted.
pub open spec fn user_wf(config: Config, user: UserInfo) -> bool {
    ||| user.tier == config.spec_min_tier() && user.usd_deposit == 0
    ||| 1 <= user.tier <= config.usd_deposits@.len()
        && user.usd_deposit == threshold(config.usd_deposits@, user.tier as int)
}

/// USD counted for a user after adding a deposit of `usei`.
pub open spec fn deposit_total_usd(user: UserInfo, usei: int, price: int) -> int {
    user.usd_deposit + usd_value(usei, price)
}

/// The tier that a deposit of `usei` lifts a user to.
pub open spec fn deposit_tier(config: Config, user: UserInfo, usei: int, price: int) -> int {
    tier_for(config.usd_deposits@, deposit_total_usd(user, usei, price))
}

/// Usei given back because the deposit is more than the tier reached asks.
pub open spec fn deposit_refund(config: Config, user: UserInfo, usei: int, price: int) -> int {
    let tier = deposit_tier(config, user, usei, price);
    usei_value(
        deposit_total_usd(user, usei, price) - threshold(config.usd_deposits@, tier),
        price,
    )
}

/// USD still missing for the next tier when a deposit reaches no new tier.
pub open spec fn deposit_shortfall(config: Config, user: UserInfo, usei: int, price: int) -> int {
    threshold(config.usd_deposits@, user.tier - 1) - user.usd_deposit
}

/// The arithmetic of a deposit stays within `u128` and divides by a nonzero price.
pub open spec fn deposit_in_range(config: Config, user: UserInfo, funds: Seq<Coin>, price: int) -> bool {
    config.status == status_code(ContractStatus::Active) ==> (received_funds(funds) matches Ok(
        coin,
    ) ==> {
        let usei = coin.amount as int;
        &&& usei * price <= u128::MAX
        &&& deposit_total_usd(user, usei, price) <= u128::MAX
        &&& if deposit_tier(config, user, usei, price) == user.tier {
            user.tier != 1 ==> price > 0 && deposit_shortfall(config, user, usei, price) * (
            BandProtocol::ONE_USD as int) <= u128::MAX
        } else {
            &&& price > 0
            &&& (deposit_total_usd(user, usei, price) - threshold(
                config.usd_deposits@,
                deposit_tier(config, user, usei, price),
            )) * (BandProtocol::ONE_USD as int) <= u128::MAX
            &&& user.sei_deposit + usei - deposit_refund(config, user, usei, price) <= u128::MAX
        }
    })
}

/// The messages of an accepted deposit: the refund, if any, then the stake.
pub open spec fn deposit_messages(
    sender: String,
    validator: String,
    refund: int,
    staked: int,
) -> Seq<CosmosAction> {
    let stake = CosmosAction::Delegate { validator: validator, amount: staked as u128 };
    if refund != 0 {
        seq![CosmosAction::BankSend { to_address: sender, amount: refund as u128 }, stake]
    } else {
        seq![stake]
    }
}

/// An accepted deposit stakes with the validator and sends the refund, if any,
/// back to the sender: one delegation of the staked usei, last, preceded by one
/// transfer of the refund exactly when there is one; no usei go anywhere else.
pub proof fn lemma_deposit_messages(sender: String, validator: String, refund: int, staked: int)
    requires
        0 <= refund <= u128::MAX,
        0 <= staked <= u128::MAX,
    ensures
        ({
            let m = deposit_messages(sender, validator, refund, staked);
            &&& m.len() == if refund == 0 { 1int } else { 2int }
            &&& m.last() == (CosmosAction::Delegate { validator, amount: staked as u128 })
            &&& refund != 0 ==> m[0] == (CosmosAction::BankSend {
                to_address: sender,
                amount: refund as u128,
            })
        }),
{
}

proof fn lemma_div_monotone(a: int, b: int, d: int)
    requires
        0 <= a <= b,
        d > 0,
    ensures
        a / d <= b / d,
{
    assert(a / d <= b / d) by (nonlinear_arith)
        requires
            0 <= a <= b,
            d > 0,
    ;
}

/// Whether a stored user record is well formed for the configuration.
pub fn user_is_wf(config: &Config, user: &UserInfo) -> (ok: bool)
    requires
        config.wf(),
    ensures
        ok == user_wf(*config, *user),
{
    let n = config.usd_deposits.len();
    if user.tier >= 1 && (user.tier - 1) as usize == n && user.usd_deposit == 0 {
        return true;
    }
    1 <= user.tier && user.tier as usize <= n && user.usd_deposit == config.deposit_by_tier(user.tier)
}

/// Whether a deposit's arithmetic stays in range, as `try_deposit` asks.
pub fn deposit_fits(config: &Config, user: &Option<UserInfo>, funds: &Vec<Coin>, band: &BandProtocol) -> (ok: bool)
    requires
        config.wf(),
        config.tiers_fit(),
        *user matches Some(u) ==> user_wf(*config, u),
    ensures
        ok == deposit_in_range(*config, user_or_fresh(*config, *user), funds@, band.price()),
{
    if config.status != ContractStatus::Active.to_u8() {
        return true;
    }
    let received = match get_received_funds(funds) {
        Ok(c) => c,
        Err(_) => {
            return true;
        },
    };
    let ghost ds = config.usd_deposits@;
    let usei = received.amount;
    let price = band.sei_per_usd();
    let (tier, usd, sei) = match user {
        Some(u) => (u.tier, u.usd_deposit, u.sei_deposit),
        None => (config.min_tier(), 0u128, 0u128),
    };
    let ghost u = user_or_fresh(*config, *user);
    assert(tier == u.tier && usd == u.usd_deposit && sei == u.sei_deposit);
    let value = match usei.checked_mul(price) {
        Some(v) => v,
        None => {
            return false;
        },
    };
    let total = match usd.checked_add(value / BandProtocol::ONE_USD) {
        Some(t) => t,
        None => {
            return false;
        },
    };
    let new_tier = config.tier_by_deposit(total);
    proof {
        lemma_tier_for_position(ds, total as int);
        lemma_tier_for_bounds(ds, usd as int);
        lemma_tier_for_monotone(ds, usd as int, total as int);
        if 1 <= tier <= ds.len() {
            lemma_threshold_reaches_its_tier(ds, tier as int);
        }
    }
    if new_tier == tier {
        if tier == 1 {
            return true;
        }
        if price == 0 {
            return false;
        }
        let shortfall = config.deposit_by_tier(tier - 1) - usd;
        return shortfall.checked_mul(BandProtocol::ONE_USD).is_some();
    }
    if price == 0 {
        return false;
    }
    let refund_usd = total - config.deposit_by_tier(new_tier);
    let refund_value = match refund_usd.checked_mul(BandProtocol::ONE_USD) {
        Some(v) => v,
        None => {
            return false;
        },
    };
    let refund = refund_value / price;
    proof {
        lemma_deposit_lifts_tier(*config, u, usei as int, price as int, 0, 0);
    }
    let staked = usei - refund;
    sei.checked_add(staked).is_some()
}

/// A deposit that reaches a new tier lifts the user to a better tier, counts
/// exactly that tier's threshold (which reaches that very tier), leaves the
/// record well formed, and gives back no more usei than was sent.
pub proof fn lemma_deposit_lifts_tier(config: Config, user: UserInfo, usei: int, price: int, now: u64, sei: u128)
    requires
        config.wf(),
        user_wf(config, user),
        usei >= 0,
        price > 0,
        deposit_tier(config, user, usei, price) != user.tier,
    ensures
        ({
            let tier = deposit_tier(config, user, usei, price);
            let counted = threshold(config.usd_deposits@, tier);
            &&& 1 <= tier < user.tier
            &&& tier_for(config.usd_deposits@, counted as int) == tier
            &&& user_wf(
                config,
                UserInfo { tier: tier as u8, timestamp: now, usd_deposit: counted, sei_deposit: sei },
            )
            &&& 0 <= deposit_refund(config, user, usei, price) <= usei
        }),
{
    let ds = config.usd_deposits@;
    let old = user.usd_deposit as int;
    let total = deposit_total_usd(user, usei, price);
    let tier = deposit_tier(config, user, usei, price);
    lemma_conversions_round_down(usei, price);
    lemma_tier_for_position(ds, total);
    lemma_tier_for_bounds(ds, old);
    lemma_tier_for_monotone(ds, old, total);
    if 1 <= user.tier <= ds.len() {
        lemma_threshold_reaches_its_tier(ds, user.tier as int);
        assert(ds[tier - 1] >= ds[user.tier - 1]);
    }
    lemma_threshold_reaches_its_tier(ds, tier);
    let refund_usd = total - threshold(ds, tier);
    assert(0 <= refund_usd <= usd_value(usei, price));
    lemma_div_monotone(
        refund_usd * (BandProtocol::ONE_USD as int),
        usd_value(usei, price) * (BandProtocol::ONE_USD as int),
        price,
    );
    assert(refund_usd * (BandProtocol::ONE_USD as int) >= 0) by (nonlinear_arith)
        requires refund_usd >= 0;
    assert(usei_value(refund_usd, price) >= 0) by (nonlinear_arith)
        requires refund_usd * (BandProtocol::ONE_USD as int) >= 0, price > 0,
            usei_value(refund_usd, price) == refund_usd * (BandProtocol::ONE_USD as int) / price;
}

/// The tier a deposit reaches is the best one whose threshold the user's USD
/// total (previous USD plus the deposit's worth) meets: that threshold is met
/// and the next better one is not.
pub proof fn lemma_deposit_tier_is_best_reached(config: Config, user: UserInfo, usei: int, price: int)
    ensures
        ({
            let ds = config.usd_deposits@;
            let t = deposit_tier(config, user, usei, price);
            let total = user.usd_deposit + usd_value(usei, price);
            &&& 1 <= t <= ds.len() + 1
            &&& t <= ds.len() ==> threshold(ds, t) <= total
            &&& t >= 2 ==> threshold(ds, t - 1) > total
        }),
{
    let ds = config.usd_deposits@;
    lemma_tier_for_position(ds, user.usd_deposit + usd_value(usei, price));
}

/// A deposit that reaches a new tier stakes exactly what that tier asks beyond
/// the USD the user already had, up to rounding, and sends the rest back: the
/// staked usei are worth at least the missing USD and less than one USD atomic
/// (plus one usei's worth) more. This holds for every user, fresh or stored.
pub proof fn lemma_deposit_stakes_what_the_tier_asks(config: Config, user: UserInfo, usei: int, price: int)
    requires
        config.wf(),
        user_wf(config, user),
        usei >= 0,
        price > 0,
        deposit_tier(config, user, usei, price) != user.tier,
    ensures
        ({
            let d = BandProtocol::ONE_USD as int;
            let asked = threshold(config.usd_deposits@, deposit_tier(config, user, usei, price))
                - user.usd_deposit;
            let staked = usei - deposit_refund(config, user, usei, price);
            &&& 0 <= staked <= usei
            &&& asked * d <= staked * price
            &&& staked * price < (asked + 1) * d + price
        }),
{
    let d = BandProtocol::ONE_USD as int;
    let ds = config.usd_deposits@;
    let tier = deposit_tier(config, user, usei, price);
    let th = threshold(ds, tier) as int;
    let old = user.usd_deposit as int;
    let u = usd_value(usei, price);
    lemma_deposit_lifts_tier(config, user, usei, price, 0, 0);
    lemma_usd_value_is_floor(usei, price);
    lemma_tier_for_position(ds, old + u);
    let r_usd = old + u - th;
    assert(r_usd >= 0);
    lemma_usei_value_is_floor(r_usd, price);
    let refund = deposit_refund(config, user, usei, price);
    assert(refund == usei_value(r_usd, price));
    let staked = usei - refund;
    assert((th - old) * d <= staked * price) by (nonlinear_arith)
        requires
            u * d <= usei * price,
            refund * price <= r_usd * d,
            r_usd == old + u - th,
            staked == usei - refund,
    ;
    assert(staked * price < (th - old + 1) * d + price) by (nonlinear_arith)
        requires
            usei * price < (u + 1) * d,
            r_usd * d < (refund + 1) * price,
            r_usd == old + u - th,
            staked == usei - refund,
    ;
}

/// A deposit that reaches no new tier below the best one is answered with a
/// positive shortfall, and the user's USD plus that shortfall reaches the next
/// tier exactly.
pub proof fn lemma_shortfall_reaches_next_tier(config: Config, user: UserInfo, usei: int, price: int)
    requires
        config.wf(),
        user_wf(config, user),
        usei >= 0,
        price >= 0,
        deposit_tier(config, user, usei, price) == user.tier,
        user.tier != 1,
    ensures
        deposit_shortfall(config, user, usei, price) > 0,
        tier_for(
            config.usd_deposits@,
            user.usd_deposit + deposit_shortfall(config, user, usei, price),
        ) == user.tier - 1,
{
    let ds = config.usd_deposits@;
    let total = deposit_total_usd(user, usei, price);
    assert(usd_value(usei, price) >= 0) by (nonlinear_arith)
        requires usei >= 0, price >= 0, usd_value(usei, price) == usei * price / (BandProtocol::ONE_USD as int);
    lemma_tier_for_position(ds, total);
    lemma_threshold_reaches_its_tier(ds, user.tier - 1);
}

/// Adds the funds sent to the user's deposit, lifts the user to the best tier
/// the USD total reaches, counts exactly that tier's threshold, stakes the usei
/// that the threshold needs with the validator and sends back the rest.
/// A deposit that reaches no new tier is refused, with what the next tier still asks.
pub fn try_deposit(
    config: &Config,
    user: Option<UserInfo>,
    sender: &String,
    funds: &Vec<Coin>,
    band: &BandProtocol,
    now: u64,
) -> (res: Result<(UserInfo, HandleResponse), ContractError>)
    requires
        config.wf(),
        config.tiers_fit(),
        user matches Some(u) ==> user_wf(*config, u),
        deposit_in_range(*config, user_or_fresh(*config, user), funds@, band.price()),
    ensures
        config.status != status_code(ContractStatus::Active) ==> res == Err::<
            (UserInfo, HandleResponse),
            ContractError,
        >(ContractError::ContractNotActive),
        config.status == status_code(ContractStatus::Active) && received_funds(funds@) is Err
            ==> res == Err::<(UserInfo, HandleResponse), ContractError>(
            received_funds(funds@)->Err_0,
        ),
        config.status == status_code(ContractStatus::Active) && received_funds(funds@) is Ok
            ==> ({
            let u = user_or_fresh(*config, user);
            let usei = received_funds(funds@)->Ok_0.amount as int;
            let p = band.price();
            let tier = deposit_tier(*config, u, usei, p);
            if tier == u.tier {
                if u.tier == 1 {
                    res == Err::<(UserInfo, HandleResponse), ContractError>(
                        ContractError::ReachedMaxTier,
                    )
                } else {
                    res == Err::<(UserInfo, HandleResponse), ContractError>(
                        ContractError::DepositTooLow {
                            usd: deposit_shortfall(*config, u, usei, p) as u128,
                            usei: usei_value(deposit_shortfall(*config, u, usei, p), p) as u128,
                        },
                    )
                }
            } else {
                let refund = deposit_refund(*config, u, usei, p);
                let staked = usei - refund;
                let counted = threshold(config.usd_deposits@, tier);
                &&& res matches Ok((new_user, resp))
                &&& new_user == (UserInfo {
                    tier: tier as u8,
                    timestamp: now,
                    usd_deposit: counted,
                    sei_deposit: (u.sei_deposit + staked) as u128,
                })
                &&& resp.messages@ == deposit_messages(*sender, config.validator, refund, staked)
                &&& resp.attributes@.len() == 0
                &&& resp.data == Some(
                    ExecuteResponse::Deposit {
                        usd_deposit: counted,
                        sei_deposit: (u.sei_deposit + staked) as u128,
                        tier: tier as u8,
                        status: ResponseStatus::Success,
                    },
                )
            }
        }),
{
    match config.assert_contract_active() {
        Ok(()) => {},
        Err(e) => {
            return Err(e);
        },
    }
    let received = match get_received_funds(funds) {
        Ok(c) => c,
        Err(e) => {
            return Err(e);
        },
    };
    let ghost p = band.price();
    let ghost ds = config.usd_deposits@;
    let mut sei_deposit = received.amount;
    let usd_deposit = band.usd_amount(sei_deposit);
    let min_tier = config.min_tier();
    let user_info = match user {
        Some(u) => u,
        None => UserInfo { tier: min_tier, timestamp: 0, usd_deposit: 0, sei_deposit: 0 },
    };
    assert(user_info == user_or_fresh(*config, user));
    assert(user_wf(*config, user_info));
    let current_tier = user_info.tier;
    let old_usd_deposit = user_info.usd_deposit;
    let new_usd_deposit = old_usd_deposit + usd_deposit;
    let new_tier = config.tier_by_deposit(new_usd_deposit);
    proof {
        lemma_tier_for_position(ds, new_usd_deposit as int);
        lemma_tier_for_bounds(ds, old_usd_deposit as int);
        lemma_tier_for_monotone(ds, old_usd_deposit as int, new_usd_deposit as int);
        if 1 <= current_tier <= ds.len() {
            lemma_threshold_reaches_its_tier(ds, current_tier as int);
        }
    }
    assert(new_tier <= current_tier);
    if current_tier == new_tier {
        if current_tier == config.max_tier() {
            return Err(ContractError::ReachedMaxTier);
        }
        let next_tier = current_tier - 1;
        let next_tier_deposit = config.deposit_by_tier(next_tier);
        let expected_deposit_usd = next_tier_deposit - old_usd_deposit;
        let expected_deposit_usei = band.usei_amount(expected_deposit_usd);
        return Err(
            ContractError::DepositTooLow { usd: expected_deposit_usd, usei: expected_deposit_usei },
        );
    }
    let mut messages: Vec<CosmosAction> = Vec::new();
    let new_tier_deposit = config.deposit_by_tier(new_tier);
    let usd_refund = new_usd_deposit - new_tier_deposit;
    let sei_refund = band.usei_amount(usd_refund);
    proof {
        // The refund is worth at most what was deposited.
        if 1 <= current_tier <= ds.len() {
            assert(ds[new_tier - 1] >= ds[current_tier - 1]);
        }
        assert(usd_refund <= usd_deposit);
        lemma_div_monotone(
            usd_refund * (BandProtocol::ONE_USD as int),
            usd_deposit * (BandProtocol::ONE_USD as int),
            p,
        );
        lemma_conversions_round_down(sei_deposit as int, p);
    }
    if sei_refund != 0 {
        sei_deposit = sei_deposit - sei_refund;
        messages.push(CosmosAction::BankSend { to_address: sender.clone(), amount: sei_refund });
    }
    let old_sei_deposit = user_info.sei_deposit;
    let new_sei_deposit = user_info.sei_deposit + sei_deposit;
    let new_user = UserInfo {
        tier: new_tier,
        timestamp: now,
        usd_deposit: new_tier_deposit,
        sei_deposit: new_sei_deposit,
    };
    messages.push(
        CosmosAction::Delegate {
            validator: config.validator.clone(),
            amount: new_user.sei_deposit - old_sei_deposit,
        },
    );
    let answer = ExecuteResponse::Deposit {
        usd_deposit: new_user.usd_deposit,
        sei_deposit: new_user.sei_deposit,
        tier: new_tier,
        status: ResponseStatus::Success,
    };
    proof {
        assert(messages@ =~= deposit_messages(
            *sender,
            config.validator,
            sei_refund as int,
            received.amount - sei_refund,
        ));
    }
    Ok((new_user, HandleResponse { messages, attributes: Vec::new(), data: Some(answer) }))
}

/// Usei held back from every unbonding.
pub const UNBOND_FEE: u128 = 4u128;

/// The withdrawals on record, none where nothing is stored.
pub open spec fn stored_withdrawals(withdrawals: Option<Vec<UserWithdrawal>>) -> Seq<UserWithdrawal> {
    match withdrawals {
        Some(ws) => ws@,
        None => Seq::empty(),
    }
}

/// The usei that a user has staked, none where there is no record.
pub open spec fn staked_usei(user: Option<UserInfo>) -> u128 {
    match user {
        Some(u) => u.sei_deposit,
        None => 0,
    }
}

/// Withdraws the user's whole stake: the user's record is removed (the first
/// part of the result, `None`, is the record left), a withdrawal of the staked
/// usei that can be claimed after the unbonding latency is added to the user's
/// list, and the stake less the unbonding fee is undelegated.
pub fn try_withdraw(
    config: &Config,
    user: Option<UserInfo>,
    withdrawals: Option<Vec<UserWithdrawal>>,
    now: u64,
) -> (res: Result<(Option<UserInfo>, Vec<UserWithdrawal>, HandleResponse), ContractError>)
    requires
        config.status == status_code(ContractStatus::Active) ==> {
            &&& staked_usei(user) >= UNBOND_FEE
            &&& now + UNBOUND_LATENCY <= u64::MAX
        },
    ensures
        config.status != status_code(ContractStatus::Active) ==> res == Err::<
            (Option<UserInfo>, Vec<UserWithdrawal>, HandleResponse),
            ContractError,
        >(ContractError::ContractNotActive),
        config.status == status_code(ContractStatus::Active) ==> ({
            let amount = staked_usei(user);
            &&& res matches Ok((record, ws, resp))
            &&& record is None
            &&& ws@ == stored_withdrawals(withdrawals).push(
                UserWithdrawal {
                    amount,
                    timestamp: now,
                    claim_time: (now + UNBOUND_LATENCY) as u64,
                },
            )
            &&& resp.messages@ == seq![
                CosmosAction::Undelegate {
                    validator: config.validator,
                    amount: (amount - UNBOND_FEE) as u128,
                },
            ]
            &&& resp.attributes@.len() == 0
            &&& resp.data == Some(ExecuteResponse::Withdraw { status: ResponseStatus::Success })
        }),
{
    match config.assert_contract_active() {
        Ok(()) => {},
        Err(e) => {
            return Err(e);
        },
    }
    let amount = match user {
        Some(u) => u.sei_deposit,
        None => 0,
    };
    let current_time = now;
    let claim_time = current_time + UNBOUND_LATENCY;
    let withdrawal = UserWithdrawal { amount, timestamp: current_time, claim_time };
    let mut list = match withdrawals {
        Some(ws) => ws,
        None => Vec::new(),
    };
    list.push(withdrawal);
    let mut messages: Vec<CosmosAction> = Vec::new();
    messages.push(
        CosmosAction::Undelegate { validator: config.validator.clone(), amount: amount - UNBOND_FEE },
    );
    let answer = ExecuteResponse::Withdraw { status: ResponseStatus::Success };
    Ok((None, list, HandleResponse { messages, attributes: Vec::new(), data: Some(answer) }))
}

/// Claims look at most this many withdrawals unless told otherwise.
pub const DEFAULT_LIMIT: u32 = 50u32;

/// How many withdrawals a page from `start` of at most `limit` entries holds.
pub open spec fn page_width(len: int, start: int, limit: int) -> int {
    if start >= len {
        0
    } else if limit <= len - start {
        limit
    } else {
        len - start
    }
}

/// The `j`-th withdrawal of the page is due.
pub open spec fn due_in_page(ws: Seq<UserWithdrawal>, start: int, j: int, now: u64) -> bool {
    now >= ws[start + j].claim_time
}

/// Usei due among the first `k` withdrawals of the page.
pub open spec fn due_total(ws: Seq<UserWithdrawal>, start: int, k: int, now: u64) -> int
    decreases k,
{
    if k <= 0 {
        0
    } else {
        due_total(ws, start, k - 1, now) + if due_in_page(ws, start, k - 1, now) {
            ws[start + k - 1].amount as int
        } else {
            0
        }
    }
}

/// The position `j` of the whole list is taken out by a claim: the positions
/// taken out are the page offsets of the due withdrawals, counted from the
/// head of the list.
pub open spec fn claim_removes(ws: Seq<UserWithdrawal>, start: int, width: int, j: int, now: u64) -> bool {
    0 <= j < width && due_in_page(ws, start, j, now)
}

/// The first `n` withdrawals of the list, less those that a claim takes out.
pub open spec fn claim_remaining(
    ws: Seq<UserWithdrawal>,
    start: int,
    width: int,
    now: u64,
    n: int,
) -> Seq<UserWithdrawal>
    decreases n,
{
    if n <= 0 {
        Seq::empty()
    } else if claim_removes(ws, start, width, n - 1, now) {
        claim_remaining(ws, start, width, now, n - 1)
    } else {
        claim_remaining(ws, start, width, now, n - 1).push(ws[n - 1])
    }
}

/// Usei in a list of withdrawals.
pub open spec fn total_amount(ws: Seq<UserWithdrawal>) -> int
    decreases ws.len(),
{
    if ws.len() == 0 {
        0
    } else {
        total_amount(ws.drop_last()) + ws.last().amount
    }
}

proof fn lemma_due_total_monotone(ws: Seq<UserWithdrawal>, start: int, i: int, k: int, now: u64)
    requires
        0 <= i <= k,
    ensures
        0 <= due_total(ws, start, i, now) <= due_total(ws, start, k, now),
    decreases k,
{
    if i < k {
        lemma_due_total_monotone(ws, start, i, k - 1, now);
    } else if k > 0 {
        lemma_due_total_monotone(ws, start, i - 1, k - 1, now);
    }
}

/// A withdrawal is due exactly when its claim time has come, and once due it
/// stays due: the usei due in a page only grow with time.
pub proof fn lemma_due_when_claim_time_has_come(
    ws: Seq<UserWithdrawal>,
    start: int,
    k: int,
    now: u64,
    later: u64,
)
    requires
        now <= later,
    ensures
        forall|j: int| due_in_page(ws, start, j, now) <==> ws[start + j].claim_time <= now,
        forall|j: int| due_in_page(ws, start, j, now) ==> due_in_page(ws, start, j, later),
        due_total(ws, start, k, now) <= due_total(ws, start, k, later),
    decreases k,
{
    if k > 0 {
        lemma_due_when_claim_time_has_come(ws, start, k - 1, now, later);
    }
}

/// Each withdrawal of the page adds its amount to what is due exactly when its
/// claim time has come, and nothing otherwise.
pub proof fn lemma_due_total_step(ws: Seq<UserWithdrawal>, start: int, k: int, now: u64)
    requires
        k >= 0,
    ensures
        due_total(ws, start, k + 1, now) == due_total(ws, start, k, now) + if ws[start
            + k].claim_time <= now {
            ws[start + k].amount as int
        } else {
            0
        },
{
}

/// Going one entry further along the list, a claim keeps that entry unless its
/// offset is within the page and the page's entry at that offset is due.
pub proof fn lemma_claim_remaining_step(
    ws: Seq<UserWithdrawal>,
    start: int,
    width: int,
    now: u64,
    n: int,
)
    requires
        n >= 0,
    ensures
        claim_remaining(ws, start, width, now, n + 1) == if n < width && ws[start + n].claim_time
            <= now {
            claim_remaining(ws, start, width, now, n)
        } else {
            claim_remaining(ws, start, width, now, n).push(ws[n])
        },
{
}

/// A page from `start` of at most `limit` entries holds `min(limit, len - start)`
/// entries, none where it starts past the end: never more than `limit`, and
/// fewer only when it reaches the end of the list.
pub proof fn lemma_page_width(len: int, start: int, limit: int)
    requires
        0 <= len,
        0 <= start,
        0 <= limit,
    ensures
        0 <= page_width(len, start, limit) <= limit,
        start < len ==> start + page_width(len, start, limit) <= len,
        start >= len ==> page_width(len, start, limit) == 0,
        page_width(len, start, limit) < limit ==> start + page_width(len, start, limit) >= len,
{
}

/// Sends to the recipient (the sender by default) the usei of the due
/// withdrawals in the page of `limit` (50 by default) entries from `start`
/// (0 by default), and gives the list with those entries taken out, the
/// offsets of the due entries within the page counting from the list's head.
pub fn try_claim(
    config: &Config,
    withdrawals: Option<Vec<UserWithdrawal>>,
    sender: &String,
    recipient: Option<String>,
    start: Option<u32>,
    limit: Option<u32>,
    now: u64,
) -> (res: Result<(Vec<UserWithdrawal>, HandleResponse), ContractError>)
    requires
        ({
            let ws = stored_withdrawals(withdrawals);
            let s = match start { Some(v) => v as int, None => 0 };
            let l = match limit { Some(v) => v as int, None => DEFAULT_LIMIT as int };
            config.status == status_code(ContractStatus::Active) ==> due_total(
                ws,
                s,
                page_width(ws.len() as int, s, l),
                now,
            ) <= u128::MAX
        }),
    ensures
        ({
            let ws = stored_withdrawals(withdrawals);
            let s = match start { Some(v) => v as int, None => 0 };
            let l = match limit { Some(v) => v as int, None => DEFAULT_LIMIT as int };
            let width = page_width(ws.len() as int, s, l);
            let amount = due_total(ws, s, width, now);
            let to = match recipient { Some(r) => r, None => *sender };
            if config.status != status_code(ContractStatus::Active) {
                res == Err::<(Vec<UserWithdrawal>, HandleResponse), ContractError>(
                    ContractError::ContractNotActive,
                )
            } else if ws.len() == 0 || amount == 0 {
                res == Err::<(Vec<UserWithdrawal>, HandleResponse), ContractError>(
                    ContractError::NothingToClaim,
                )
            } else {
                &&& res matches Ok((remaining, resp))
                &&& remaining@ == claim_remaining(ws, s, width, now, ws.len() as int)
                &&& resp.messages@ == seq![
                    CosmosAction::BankSend { to_address: to, amount: amount as u128 },
                ]
                &&& resp.attributes@.len() == 0
                &&& resp.data == Some(
                    ExecuteResponse::Claim { amount: amount as u128, status: ResponseStatus::Success },
                )
            }
        }),
{
    match config.assert_contract_active() {
        Ok(()) => {},
        Err(e) => {
            return Err(e);
        },
    }
    let list = match withdrawals {
        Some(ws) => ws,
        None => Vec::new(),
    };
    let ghost ws = list@;
    let length = list.len();
    if length == 0 {
        return Err(ContractError::NothingToClaim);
    }
    let to = match recipient {
        Some(r) => r,
        None => sender.clone(),
    };
    let start: usize = match start {
        Some(v) => v as usize,
        None => 0,
    };
    let limit: usize = match limit {
        Some(v) => v as usize,
        None => DEFAULT_LIMIT as usize,
    };
    let width: usize = if start >= length {
        0
    } else if limit <= length - start {
        limit
    } else {
        length - start
    };
    assert(width == page_width(ws.len() as int, start as int, limit as int));
    let mut claim_amount: u128 = 0;
    for i in 0..width
        invariant
            list@ == ws,
            length == ws.len(),
            width == page_width(ws.len() as int, start as int, limit as int),
            due_total(ws, start as int, width as int, now) <= u128::MAX,
            claim_amount == due_total(ws, start as int, i as int, now),
    {
        proof {
            lemma_due_total_monotone(ws, start as int, i + 1, width as int, now);
        }
        let withdrawal = &list[start + i];
        if now >= withdrawal.claim_time {
            claim_amount = claim_amount + withdrawal.amount;
        }
    }
    if claim_amount == 0 {
        return Err(ContractError::NothingToClaim);
    }
    let mut remaining: Vec<UserWithdrawal> = Vec::new();
    for j in 0..length
        invariant
            list@ == ws,
            length == ws.len(),
            width == page_width(ws.len() as int, start as int, limit as int),
            remaining@ == claim_remaining(ws, start as int, width as int, now, j as int),
    {
        let removed = j < width && now >= list[start + j].claim_time;
        if !removed {
            let w = &list[j];
            remaining.push(UserWithdrawal { amount: w.amount, timestamp: w.timestamp, claim_time: w.claim_time });
        }
    }
    let mut messages: Vec<CosmosAction> = Vec::new();
    messages.push(CosmosAction::BankSend { to_address: to, amount: claim_amount });
    let answer = ExecuteResponse::Claim { amount: claim_amount, status: ResponseStatus::Success };
    Ok((remaining, HandleResponse { messages, attributes: Vec::new(), data: Some(answer) }))
}

/// Whether the usei due in a claim's page fits in a `u128`, as `try_claim` asks.
pub fn claim_fits(
    withdrawals: &Option<Vec<UserWithdrawal>>,
    start: Option<u32>,
    limit: Option<u32>,
    now: u64,
) -> (ok: bool)
    ensures
        ({
            let ws = stored_withdrawals(*withdrawals);
            let s = match start { Some(v) => v as int, None => 0 };
            let l = match limit { Some(v) => v as int, None => DEFAULT_LIMIT as int };
            ok == (due_total(ws, s, page_width(ws.len() as int, s, l), now) <= u128::MAX)
        }),
{
    let empty: Vec<UserWithdrawal> = Vec::new();
    let list: &Vec<UserWithdrawal> = match withdrawals {
        Some(ws) => ws,
        None => &empty,
    };
    let ghost ws = list@;
    assert(ws == stored_withdrawals(*withdrawals));
    let length = list.len();
    let ghost s = match start { Some(v) => v as int, None => 0 };
    let ghost l = match limit { Some(v) => v as int, None => DEFAULT_LIMIT as int };
    let first: usize = match start {
        Some(v) => v as usize,
        None => 0,
    };
    let most: usize = match limit {
        Some(v) => v as usize,
        None => DEFAULT_LIMIT as usize,
    };
    let width: usize = if first >= length {
        0
    } else if most <= length - first {
        most
    } else {
        length - first
    };
    let mut total: u128 = 0;
    for i in 0..width
        invariant
            list@ == ws,
            length == ws.len(),
            width == page_width(ws.len() as int, s, l),
            first == s,
            most == l,
            s == match start { Some(v) => v as int, None => 0 },
            l == match limit { Some(v) => v as int, None => DEFAULT_LIMIT as int },
            ws == stored_withdrawals(*withdrawals),
            total == due_total(ws, s, i as int, now),
    {
        if now >= list[first + i].claim_time {
            match total.checked_add(list[first + i].amount) {
                Some(t) => {
                    total = t;
                },
                None => {
                    proof {
                        assert(due_total(ws, s, i + 1, now) == total + list@[first + i].amount);
                        lemma_due_total_monotone(ws, s, i + 1, width as int, now);
                    }
                    return false;
                },
            }
        }
    }
    true
}

/// A claim from the head of the list keeps the usei: what it pays out plus
/// what stays on the list is what the list held.
pub proof fn lemma_claim_conserves(ws: Seq<UserWithdrawal>, width: int, now: u64)
    requires
        0 <= width <= ws.len(),
    ensures
        total_amount(claim_remaining(ws, 0, width, now, ws.len() as int)) + due_total(
            ws,
            0,
            width,
            now,
        ) == total_amount(ws),
{
    lemma_claim_conserves_prefix(ws, width, now, ws.len() as int);
    assert(ws.take(ws.len() as int) =~= ws);
}

proof fn lemma_claim_conserves_prefix(ws: Seq<UserWithdrawal>, width: int, now: u64, n: int)
    requires
        0 <= width <= ws.len(),
        0 <= n <= ws.len(),
    ensures
        total_amount(claim_remaining(ws, 0, width, now, n)) + due_total(
            ws,
            0,
            if n < width { n } else { width },
            now,
        ) == total_amount(ws.take(n)),
    decreases n,
{
    if n == 0 {
        assert(ws.take(0) =~= Seq::<UserWithdrawal>::empty());
    } else {
        lemma_claim_conserves_prefix(ws, width, now, n - 1);
        assert(ws.take(n).drop_last() =~= ws.take(n - 1));
        let r = claim_remaining(ws, 0, width, now, n - 1);
        if !claim_removes(ws, 0, width, n - 1, now) {
            assert(r.push(ws[n - 1]).drop_last() =~= r);
        }
    }
}

/// The withdrawals on record from `start`, at most `limit` of them.
pub open spec fn withdrawals_page(ws: Seq<UserWithdrawal>, start: int, limit: int) -> Seq<SerializedWithdrawals> {
    Seq::new(
        page_width(ws.len() as int, start, limit) as nat,
        |k: int| SerializedWithdrawals {
            amount: ws[start + k].amount,
            claim_time: ws[start + k].claim_time,
            timestamp: ws[start + k].timestamp,
        },
    )
}

/// A page of withdrawals never holds more than `limit` entries; it holds
/// `min(limit, len - start)` of them, and its `k`-th entry reports the
/// withdrawal at `start + k`.
pub proof fn lemma_withdrawals_page(ws: Seq<UserWithdrawal>, start: int, limit: int)
    requires
        0 <= start,
        0 <= limit,
    ensures
        withdrawals_page(ws, start, limit).len() <= limit,
        start >= ws.len() ==> withdrawals_page(ws, start, limit).len() == 0,
        start < ws.len() ==> withdrawals_page(ws, start, limit).len() == if limit <= ws.len() - start {
            limit
        } else {
            ws.len() - start
        },
        forall|k: int| 0 <= k < withdrawals_page(ws, start, limit).len() ==> {
            &&& start + k < ws.len()
            &&& (#[trigger] withdrawals_page(ws, start, limit)[k]).amount == ws[start + k].amount
            &&& withdrawals_page(ws, start, limit)[k].claim_time == ws[start + k].claim_time
            &&& withdrawals_page(ws, start, limit)[k].timestamp == ws[start + k].timestamp
        },
{
    lemma_page_width(ws.len() as int, start, limit);
}

/// Lists a page of a user's withdrawals, from `start` (0 by default), at most
/// `limit` (50 by default) of them, with the number of withdrawals on record.
pub fn query_withdrawals(
    withdrawals: Option<Vec<UserWithdrawal>>,
    start: Option<u32>,
    limit: Option<u32>,
) -> (answer: QueryResponse)
    requires
        stored_withdrawals(withdrawals).len() <= u32::MAX,
        ({
            let s = match start { Some(v) => v as int, None => 0 };
            let l = match limit { Some(v) => v as int, None => DEFAULT_LIMIT as int };
            s + l <= u32::MAX
        }),
    ensures
        ({
            let ws = stored_withdrawals(withdrawals);
            let s = match start { Some(v) => v as int, None => 0 };
            let l = match limit { Some(v) => v as int, None => DEFAULT_LIMIT as int };
            answer matches QueryResponse::Withdrawals { amount, withdrawals: page }
                && amount == ws.len() && page@ == withdrawals_page(ws, s, l)
        }),
{
    let list = match withdrawals {
        Some(ws) => ws,
        None => Vec::new(),
    };
    let ghost ws = list@;
    let amount = list.len();
    let start: u32 = match start {
        Some(v) => v,
        None => 0,
    };
    let limit: u32 = match limit {
        Some(v) => v,
        None => DEFAULT_LIMIT,
    };
    let end: u32 = start + limit;
    let mut page: Vec<SerializedWithdrawals> = Vec::new();
    let mut i: u32 = start;
    while i < end
        invariant
            list@ == ws,
            amount == ws.len(),
            start <= i <= end,
            end == start + limit,
            page@ =~= withdrawals_page(ws, start as int, limit as int).take(
                page_width(ws.len() as int, start as int, (i - start) as int),
            ),
        decreases end - i,
    {
        let index = i as usize;
        if index < amount {
            page.push(list[index].to_serialized());
        }
        i = i + 1;
    }
    proof {
        assert(withdrawals_page(ws, start as int, limit as int).take(
            page_width(ws.len() as int, start as int, limit as int),
        ) =~= withdrawals_page(ws, start as int, limit as int));
    }
    QueryResponse::Withdrawals { amount: amount as u32, withdrawals: page }
}

/// The configuration as a query reports it.
pub fn query_config(config: &Config) -> (answer: QueryResponse)
    requires
        config.wf(),
        config.tiers_fit(),
    ensures
        answer matches QueryResponse::Config { admin, validator, status, usd_deposits, min_tier }
            && admin == config.admin && validator == config.validator
            && status_code(status) == config.status && usd_deposits@ == config.usd_deposits@
            && min_tier == config.spec_min_tier(),
{
    config.to_answer()
}

/// A user's standing as a query reports it; a user without record stands at
/// the worst tier with nothing deposited.
pub fn query_user_info(config: &Config, user: Option<UserInfo>) -> (answer: QueryResponse)
    requires
        user is None ==> config.tiers_fit(),
    ensures
        ({
            let u = user_or_fresh(*config, user);
            answer == (QueryResponse::UserInfo {
                tier: u.tier,
                timestamp: u.timestamp,
                usd_deposit: u.usd_deposit,
                scrt_deposit: u.sei_deposit,
            })
        }),
{
    let user_info = match user {
        Some(u) => u,
        None => UserInfo { tier: config.min_tier(), timestamp: 0, usd_deposit: 0, sei_deposit: 0 },
    };
    user_info.to_answer()
}

/// The delegation query leaves nothing to panic on: it did not come back empty,
/// and a delegation found carries at least one reward.
pub open spec fn delegation_readable(delegation: DelegationQuery) -> bool {
    match delegation {
        DelegationQuery::Failed => true,
        DelegationQuery::Missing => false,
        DelegationQuery::Found(d) => d.accumulated_rewards@.len() > 0,
    }
}

/// The rewards that a delegation has earned: the first reward's amount, or
/// nothing where the query failed.
pub open spec fn delegation_rewards(delegation: DelegationQuery) -> u128 {
    match delegation {
        DelegationQuery::Found(d) => d.accumulated_rewards@[0].amount,
        _ => 0,
    }
}

/// The rewards read from a delegation query are the first reward of a found
/// delegation, and none when the query failed.
pub proof fn lemma_delegation_rewards(delegation: DelegationQuery)
    ensures
        delegation matches DelegationQuery::Found(d) ==> delegation_rewards(delegation)
            == d.accumulated_rewards@[0].amount,
        delegation is Failed ==> delegation_rewards(delegation) == 0,
{
}

/// Asks for the contract's staking rewards to be paid out; only the admin may,
/// and only when there are rewards.
pub fn try_withdraw_rewards(
    config: &Config,
    sender: &String,
    recipient: Option<String>,
    delegation: DelegationQuery,
) -> (res: Result<HandleResponse, ContractError>)
    requires
        sender@ == config.admin@ ==> delegation_readable(delegation),
    ensures
        sender@ != config.admin@ ==> res == Err::<HandleResponse, ContractError>(
            ContractError::Unauthorized,
        ),
        sender@ == config.admin@ && delegation_rewards(delegation) == 0 ==> res == Err::<
            HandleResponse,
            ContractError,
        >(ContractError::NothingToWithdraw),
        sender@ == config.admin@ && delegation_rewards(delegation) != 0 ==> {
            &&& res matches Ok(resp)
            &&& resp.messages@ == seq![
                CosmosAction::WithdrawDelegatorReward { validator: config.validator },
            ]
            &&& resp.attributes@.len() == 0
            &&& resp.data == Some(
                ExecuteResponse::WithdrawRewards {
                    amount: delegation_rewards(delegation),
                    status: ResponseStatus::Success,
                },
            )
        },
{
    if *sender != config.admin {
        return Err(ContractError::Unauthorized);
    }
    let can_withdraw: u128 = match &delegation {
        DelegationQuery::Found(d) => d.accumulated_rewards[0].amount,
        _ => 0,
    };
    if can_withdraw == 0 {
        return Err(ContractError::NothingToWithdraw);
    }
    let mut messages: Vec<CosmosAction> = Vec::new();
    messages.push(CosmosAction::WithdrawDelegatorReward { validator: config.validator.clone() });
    let answer = ExecuteResponse::WithdrawRewards {
        amount: can_withdraw,
        status: ResponseStatus::Success,
    };
    Ok(HandleResponse { messages, attributes: Vec::new(), data: Some(answer) })
}

/// The messages that move a full delegation: the rewards withdrawn first, if
/// any, then the redelegation.
pub open spec fn redelegate_messages(
    old_validator: String,
    new_validator: String,
    rewards: u128,
    amount: u128,
) -> Seq<CosmosAction> {
    let moving = CosmosAction::Redelegate {
        src_validator: old_validator,
        dst_validator: new_validator,
        amount,
    };
    if rewards != 0 {
        seq![CosmosAction::WithdrawDelegatorReward { validator: old_validator }, moving]
    } else {
        seq![moving]
    }
}

/// Moving a delegation withdraws the rewards from the old validator first,
/// exactly when there are rewards, and ends with one redelegation of the
/// amount from the old validator to the new one.
pub proof fn lemma_redelegate_messages(old_validator: String, new_validator: String, rewards: u128, amount: u128)
    ensures
        ({
            let m = redelegate_messages(old_validator, new_validator, rewards, amount);
            &&& m.len() == if rewards == 0 { 1int } else { 2int }
            &&& m.last() == (CosmosAction::Redelegate {
                src_validator: old_validator,
                dst_validator: new_validator,
                amount,
            })
            &&& rewards != 0 ==> m[0] == (CosmosAction::WithdrawDelegatorReward {
                validator: old_validator,
            })
        }),
{
}

/// Moves the contract's stake to another validator; only the admin may. With
/// no delegation to read the validator is just replaced; otherwise the whole
/// delegation must be redelegatable, and it is moved after its rewards are
/// withdrawn.
pub fn try_redelegate(
    config: Config,
    sender: &String,
    validator_address: String,
    recipient: Option<String>,
    delegation: DelegationQuery,
) -> (res: Result<(Config, HandleResponse), ContractError>)
    requires
        sender@ == config.admin@ && config.validator@ != validator_address@
            ==> delegation_readable(delegation),
    ensures
        sender@ != config.admin@ ==> res == Err::<(Config, HandleResponse), ContractError>(
            ContractError::Unauthorized,
        ),
        sender@ == config.admin@ && config.validator@ == validator_address@ ==> res == Err::<
            (Config, HandleResponse),
            ContractError,
        >(ContractError::SameValidator),
        sender@ == config.admin@ && config.validator@ != validator_address@ ==> match delegation {
            DelegationQuery::Found(d) => if d.can_redelegate.amount != d.amount.amount {
                res == Err::<(Config, HandleResponse), ContractError>(
                    ContractError::CannotRedelegateFull,
                )
            } else {
                &&& res matches Ok((c, resp))
                &&& c == (Config { validator: validator_address, ..config })
                &&& resp.messages@ == redelegate_messages(
                    config.validator,
                    validator_address,
                    d.accumulated_rewards@[0].amount,
                    d.can_redelegate.amount,
                )
                &&& resp.attributes@.len() == 0
                &&& resp.data == Some(
                    ExecuteResponse::Redelegate {
                        amount: d.can_redelegate.amount,
                        status: ResponseStatus::Success,
                    },
                )
            },
            _ => {
                &&& res matches Ok((c, resp))
                &&& c == (Config { validator: validator_address, ..config })
                &&& resp.messages@.len() == 0
                &&& resp.attributes@.len() == 0
                &&& resp.data == Some(
                    ExecuteResponse::Redelegate { amount: 0, status: ResponseStatus::Success },
                )
            },
        },
{
    if *sender != config.admin {
        return Err(ContractError::Unauthorized);
    }
    if config.validator == validator_address {
        return Err(ContractError::SameValidator);
    }
    let d = match delegation {
        DelegationQuery::Found(d) => d,
        _ => {
            let answer = ExecuteResponse::Redelegate { amount: 0, status: ResponseStatus::Success };
            let resp = HandleResponse { messages: Vec::new(), attributes: Vec::new(), data: Some(answer) };
            return Ok((Config { validator: validator_address, ..config }, resp));
        },
    };
    let can_withdraw = d.accumulated_rewards[0].amount;
    let can_redelegate = d.can_redelegate.amount;
    let delegated_amount = d.amount.amount;
    if can_redelegate != delegated_amount {
        return Err(ContractError::CannotRedelegateFull);
    }
    let old_validator = config.validator.clone();
    let mut messages: Vec<CosmosAction> = Vec::new();
    if can_withdraw != 0 {
        messages.push(CosmosAction::WithdrawDelegatorReward { validator: old_validator.clone() });
    }
    messages.push(
        CosmosAction::Redelegate {
            src_validator: old_validator,
            dst_validator: validator_address.clone(),
            amount: can_redelegate,
        },
    );
    let answer = ExecuteResponse::Redelegate { amount: can_redelegate, status: ResponseStatus::Success };
    proof {
        assert(messages@ =~= redelegate_messages(
            config.validator,
            validator_address,
            can_withdraw,
            can_redelegate,
        ));
    }
    Ok((
        Config { validator: validator_address, ..config },
        HandleResponse { messages, attributes: Vec::new(), data: Some(answer) },
    ))
}

} // verus!
