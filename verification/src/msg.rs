//! Request and response shapes of the contract, as plain values.
//!
//! Decoding inbound payloads and serializing responses for the host chain is
//! the caller's concern; the types here carry only what the accounting rules
//! read and produce.

use vstd::prelude::*;

use crate::state::Cw20Entry;
use crate::state::NativeEntry;

verus! {

/// An amount of a native asset denomination.
#[derive(Clone, Debug, PartialEq, Eq)]
pub struct Coin {
    pub denom: String,
    pub amount: u128,
}

/// The context of an inbound request: who sent it and what native funds were
/// attached.
#[derive(Clone, Debug, PartialEq, Eq)]
pub struct MessageInfo {
    pub sender: String,
    pub funds: Vec<Coin>,
}

/// The chain context of an inbound request.
#[derive(Clone, Copy, Debug, PartialEq, Eq, Structural)]
pub struct Env {
    pub block_height: u64,
}

/// The hook a cw20 receive notification may carry. Only a deposit hook is
/// recognized.
#[derive(Clone, Copy, Debug, PartialEq, Eq, Structural)]
pub enum Cw20HookMsg {
    Deposit,
}

/// A cw20 receive notification, with its hook payload already decoded;
/// `None` stands for a payload that did not decode to a recognized hook.
#[derive(Clone, Debug, PartialEq, Eq)]
pub struct Cw20ReceiveMsg {
    pub sender: String,
    pub amount: u128,
    pub hook: Option<Cw20HookMsg>,
}

/// The operations of the contract.
#[derive(Clone, Debug, PartialEq, Eq)]
pub enum ExecuteMsg {
    Deposit,
    Withdraw { amount: u128, denom: String },
    Receive(Cw20ReceiveMsg),
    WithdrawCw20 { address: String, amount: u128 },
}

/// The read-only queries of the contract.
#[derive(Clone, Debug, PartialEq, Eq)]
pub enum QueryMsg {
    Deposits { address: String },
    Cw20Deposits { address: String },
}

/// A native ledger entry as reported by queries.
#[derive(Clone, Debug, PartialEq, Eq)]
pub struct Deposits {
    pub count: u64,
    pub owner: String,
    pub coins: Coin,
}

/// A cw20 ledger entry as reported by queries.
#[derive(Clone, Debug, PartialEq, Eq)]
pub struct Cw20Deposits {
    pub count: u64,
    pub owner: String,
    pub contract: String,
    pub amount: u128,
    pub lockdown: u64,
}

/// The answer to `QueryMsg::Deposits`: (denomination, entry) pairs in
/// ascending denomination order.
#[derive(Clone, Debug, PartialEq, Eq)]
pub struct DepositResponse {
    pub deposits: Vec<(String, Deposits)>,
}

/// The answer to `QueryMsg::Cw20Deposits`: (token contract, entry) pairs in
/// ascending token-contract order.
#[derive(Clone, Debug, PartialEq, Eq)]
pub struct Cw20DepositResponse {
    pub deposits: Vec<(String, Cw20Deposits)>,
}

/// The answer to a query.
#[derive(Clone, Debug, PartialEq, Eq)]
pub enum QueryAnswer {
    Deposits(DepositResponse),
    Cw20Deposits(Cw20DepositResponse),
}

/// An accounting event recorded by a successful operation.
#[derive(Clone, Debug, PartialEq, Eq)]
pub enum LedgerEvent {
    NativeDeposit { denom: String, amount: u128 },
    NativeWithdraw { denom: String, amount: u128 },
    Cw20Deposit { token_contract: String, amount: u128 },
    Cw20Withdraw { token_contract: String, sender: String, amount: u128 },
}

/// An outbound transfer instruction: the caller performs the actual movement
/// of funds.
#[derive(Clone, Debug, PartialEq, Eq)]
pub enum TransferMsg {
    /// Send native coins from the contract's custody.
    BankSend { to_address: String, denom: String, amount: u128 },
    /// Ask a cw20 token contract to transfer from the contract's custody.
    Cw20Transfer { contract: String, recipient: String, amount: u128 },
}

/// What a successful operation hands back: the accounting event and, for
/// withdrawals, the transfer instruction to perform.
#[derive(Clone, Debug, PartialEq, Eq)]
pub struct Response {
    pub event: LedgerEvent,
    pub transfer: Option<TransferMsg>,
}

/// The view of a native ledger pair as a query response element.
pub open spec fn native_response_pair(owner: String, p: (String, NativeEntry)) -> (
    String,
    Deposits,
) {
    (p.0, Deposits { count: p.1.count, owner: owner, coins: Coin { denom: p.0, amount: p.1.amount } })
}

/// The view of a cw20 ledger pair as a query response element.
pub open spec fn cw20_response_pair(owner: String, p: (String, Cw20Entry)) -> (
    String,
    Cw20Deposits,
) {
    (
        p.0,
        Cw20Deposits {
            count: p.1.count,
            owner: owner,
            contract: p.0,
            amount: p.1.amount,
            lockdown: p.1.lockdown,
        },
    )
}

} // verus!
