use vstd::prelude::*;

verus! {

/// Amount of a token: a denomination and a count of its smallest unit.
#[derive(Clone, Debug, PartialEq, Eq)]
pub struct Coin {
    pub denom: String,
    pub amount: u128,
}

#[derive(Clone, Copy, Debug, PartialEq, Eq, Structural)]
pub enum ResponseStatus {
    Success,
    Failure,
}

/// Whether the contract takes deposits, withdrawals and claims; stored as a `u8`,
/// `Active` as 0 and `Stopped` as 1.
#[derive(Clone, Copy, Debug, PartialEq, Eq, Structural)]
pub enum ContractStatus {
    Active,
    Stopped,
}

/// The `u8` under which a status is stored.
pub open spec fn status_code(status: ContractStatus) -> u8 {
    match status {
        ContractStatus::Active => 0,
        ContractStatus::Stopped => 1,
    }
}

impl ContractStatus {
    /// The stored code of this status.
    pub fn to_u8(self) -> (code: u8)
        ensures
            code == status_code(self),
    {
        match self {
            ContractStatus::Active => 0,
            ContractStatus::Stopped => 1,
        }
    }

    /// The status stored under a code; codes other than 0 and 1 name no status.
    pub fn from_u8(code: u8) -> (status: ContractStatus)
        requires
            code <= 1,
        ensures
            status_code(status) == code,
    {
        if code == 0 {
            ContractStatus::Active
        } else {
            ContractStatus::Stopped
        }
    }
}

/// Decoding a stored code gives back the status that was stored.
pub proof fn lemma_status_code_roundtrip(status: ContractStatus)
    ensures
        status_code(status) <= 1,
        forall|other: ContractStatus| status_code(other) == status_code(status) ==> other == status,
{
}

#[derive(Clone, Debug, PartialEq, Eq)]
pub struct InstantiateMsg {
    pub admin: Option<String>,
    pub validator: String,
    pub deposits: Vec<u128>,
}

#[derive(Clone, Debug, PartialEq, Eq)]
pub enum ExecuteMsg {
    ChangeAdmin { admin: String, padding: Option<String> },
    ChangeStatus { status: ContractStatus, padding: Option<String> },
    Deposit { padding: Option<String> },
    Withdraw { padding: Option<String> },
    Claim {
        recipient: Option<String>,
        start: Option<u32>,
        limit: Option<u32>,
        padding: Option<String>,
    },
    WithdrawRewards { recipient: Option<String>, padding: Option<String> },
    Redelegate { validator_address: String, recipient: Option<String>, padding: Option<String> },
}

#[derive(Clone, Debug, PartialEq, Eq)]
pub enum ExecuteResponse {
    ChangeAdmin { status: ResponseStatus },
    ChangeStatus { status: ResponseStatus },
    Deposit { usd_deposit: u128, sei_deposit: u128, tier: u8, status: ResponseStatus },
    Withdraw { status: ResponseStatus },
    Claim { amount: u128, status: ResponseStatus },
    WithdrawRewards { amount: u128, status: ResponseStatus },
    Redelegate { amount: u128, status: ResponseStatus },
}

#[derive(Clone, Debug, PartialEq, Eq)]
pub enum QueryMsg {
    Config {},
    UserInfo { address: String },
    Withdrawals { address: String, start: Option<u32>, limit: Option<u32> },
}

#[derive(Clone, Debug, PartialEq, Eq)]
pub struct SerializedWithdrawals {
    pub amount: u128,
    pub claim_time: u64,
    pub timestamp: u64,
}

#[derive(Clone, Debug, PartialEq, Eq)]
pub enum QueryResponse {
    Config {
        admin: String,
        validator: String,
        status: ContractStatus,
        usd_deposits: Vec<u128>,
        min_tier: u8,
    },
    UserInfo { tier: u8, timestamp: u64, usd_deposit: u128, scrt_deposit: u128 },
    Withdrawals { amount: u32, withdrawals: Vec<SerializedWithdrawals> },
}

/// A message that the contract asks the chain to carry out; every amount is in usei.
#[derive(Clone, Debug, PartialEq, Eq)]
pub enum CosmosAction {
    BankSend { to_address: String, amount: u128 },
    Delegate { validator: String, amount: u128 },
    Undelegate { validator: String, amount: u128 },
    WithdrawDelegatorReward { validator: String },
    Redelegate { src_validator: String, dst_validator: String, amount: u128 },
}

/// What a handler answers: the messages to send, the attributes to log and the
/// data to return.
#[derive(Clone, Debug, PartialEq, Eq)]
pub struct HandleResponse {
    pub messages: Vec<CosmosAction>,
    pub attributes: Vec<(String, String)>,
    pub data: Option<ExecuteResponse>,
}

} // verus!
