//! The ledger engines: native deposits and withdrawals, cw20 deposits and
//! withdrawals gated by the lockdown timer, the message multiplexer, and the
//! read-only queries.
//!
//! Each operation's effect on one ledger key is a pure step function
//! (`native_deposit_step`, ...); the executable engines are proved to apply
//! exactly that step to the keyed entry, to touch no other entry, and to
//! leave the state unchanged when they return an error.

use vstd::prelude::*;

use crate::error::ContractError;
use crate::msg::Coin;
use crate::msg::Cw20DepositResponse;
use crate::msg::Cw20Deposits;
use crate::msg::Cw20HookMsg;
use crate::msg::Cw20ReceiveMsg;
use crate::msg::DepositResponse;
use crate::msg::Deposits;
use crate::msg::Env;
use crate::msg::ExecuteMsg;
use crate::msg::LedgerEvent;
use crate::msg::MessageInfo;
use crate::msg::QueryAnswer;
use crate::msg::QueryMsg;
use crate::msg::Response;
use crate::msg::TransferMsg;
use crate::msg::cw20_response_pair;
use crate::msg::native_response_pair;
use crate::state::ContractState;
use crate::state::Cw20Entry;
use crate::state::NativeEntry;
use crate::state::lemma_prefix_pairs_empty;
use crate::state::lemma_prefix_pairs_sorted;
use crate::state::prefix_pairs;

verus! {

/// The lockdown recurrence applied on every cw20 deposit, as a mathematical
/// value (before the overflow check).
pub open spec fn next_lockdown_spec(current: u64, previous: u64) -> int {
    if previous <= current {
        current + 20
    } else {
        previous - current + 20
    }
}

/// The lockdown timer: recomputes the lockdown height from the current chain
/// height and the previously recorded lockdown height. Pure: the result is a
/// function of the two arguments alone.
pub fn next_lockdown(current: u64, previous: u64) -> (r: Result<u64, ContractError>)
    ensures
        next_lockdown_spec(current, previous) <= u64::MAX ==> r == Ok::<u64, ContractError>(
            next_lockdown_spec(current, previous) as u64,
        ),
        next_lockdown_spec(current, previous) > u64::MAX ==> r == Err::<u64, ContractError>(
            ContractError::ArithmeticOverflow,
        ),
{
    if previous <= current {
        match current.checked_add(20) {
            Some(h) => Ok(h),
            None => Err(ContractError::ArithmeticOverflow),
        }
    } else {
        match (previous - current).checked_add(20) {
            Some(h) => Ok(h),
            None => Err(ContractError::ArithmeticOverflow),
        }
    }
}

/// What one native deposit of `amount` does to the entry recorded under the
/// depositor's (account, denomination) key.
pub open spec fn native_deposit_step(prev: Option<NativeEntry>, amount: u128) -> Result<
    NativeEntry,
    ContractError,
> {
    match prev {
        None => Ok(NativeEntry { amount: amount, count: 1 }),
        Some(e) => if e.amount + amount > u128::MAX {
            Err(ContractError::ArithmeticOverflow)
        } else if e.count + 1 > u64::MAX {
            Err(ContractError::ArithmeticOverflow)
        } else {
            Ok(NativeEntry { amount: (e.amount + amount) as u128, count: (e.count + 1) as u64 })
        },
    }
}

/// What one native withdrawal of `amount` does to the entry recorded under
/// the withdrawer's (account, denomination) key.
pub open spec fn native_withdraw_step(prev: Option<NativeEntry>, amount: u128) -> Result<
    NativeEntry,
    ContractError,
> {
    match prev {
        None => Err(ContractError::NoDepositFound),
        Some(e) => if e.amount < amount {
            Err(ContractError::InsufficientBalance)
        } else if e.count < 1 {
            Err(ContractError::ArithmeticUnderflow)
        } else {
            Ok(NativeEntry { amount: (e.amount - amount) as u128, count: (e.count - 1) as u64 })
        },
    }
}

/// What one cw20 deposit does to the entry recorded under the
/// (owner, token contract) key: a fresh entry starts at the deposited amount
/// with the lockdown seeded at the current height; an existing entry keeps
/// its recorded amount (only the counter and the lockdown move). The
/// lockdown recurrence runs on every deposit.
pub open spec fn cw20_deposit_step(prev: Option<Cw20Entry>, amount: u128, height: u64) -> Result<
    Cw20Entry,
    ContractError,
> {
    if amount == 0 {
        Err(ContractError::InvalidAmount)
    } else {
        let base = match prev {
            None => Cw20Entry { amount: amount, count: 0, lockdown: height },
            Some(e) => e,
        };
        if next_lockdown_spec(height, base.lockdown) > u64::MAX {
            Err(ContractError::ArithmeticOverflow)
        } else if base.count + 1 > u64::MAX {
            Err(ContractError::ArithmeticOverflow)
        } else {
            Ok(
                Cw20Entry {
                    amount: base.amount,
                    count: (base.count + 1) as u64,
                    lockdown: next_lockdown_spec(height, base.lockdown) as u64,
                },
            )
        }
    }
}

/// What one cw20 withdrawal does to the entry recorded under the
/// (owner, token contract) key. The guard rejects a requested amount below
/// the recorded amount, and rejects once the recorded lockdown height lies
/// below the current height; what remains succeeds only when the requested
/// amount equals the recorded amount exactly. The deposit counter is not
/// decremented.
pub open spec fn cw20_withdraw_step(prev: Option<Cw20Entry>, amount: u128, height: u64) -> Result<
    Cw20Entry,
    ContractError,
> {
    match prev {
        None => Err(ContractError::NoDepositFound),
        Some(e) => if amount < e.amount {
            Err(ContractError::InsufficientBalance)
        } else if e.lockdown < height {
            Err(ContractError::LockdownActive)
        } else if amount > e.amount {
            Err(ContractError::ArithmeticUnderflow)
        } else {
            Ok(Cw20Entry { amount: (e.amount - amount) as u128, count: e.count, lockdown: e.lockdown })
        },
    }
}

/// The contract of a native deposit: the keyed entry takes one
/// `native_deposit_step`, no other entry moves, the cw20 ledger is untouched,
/// and an error leaves the state as it was.
pub open spec fn native_deposit_post(
    pre: ContractState,
    post: ContractState,
    info: MessageInfo,
    r: Result<Response, ContractError>,
) -> bool {
    let sender = info.sender@;
    let denom = info.funds@[0].denom@;
    let amount = info.funds@[0].amount;
    let step = native_deposit_step(pre.deposits.lookup(sender, denom), amount);
    &&& post.wf()
    &&& post.cw20_deposits == pre.cw20_deposits
    &&& match (r, step) {
        (Ok(resp), Ok(e)) => {
            &&& post.deposits.lookup(sender, denom) == Some(e)
            &&& (forall|q1: Seq<char>, q2: Seq<char>|
                !(q1 == sender && q2 == denom) ==> #[trigger] post.deposits.lookup(q1, q2)
                    == pre.deposits.lookup(q1, q2))
            &&& resp.event == (LedgerEvent::NativeDeposit {
                denom: info.funds@[0].denom,
                amount: amount,
            })
            &&& resp.transfer is None
        },
        (Err(err), Err(se)) => err == se && post == pre,
        _ => false,
    }
}

/// Records a native deposit of the first attached fund entry for the sender.
/// Only the first entry of `funds` is honored; further entries are ignored.
pub fn execute_deposit(state: &mut ContractState, info: &MessageInfo) -> (r: Result<
    Response,
    ContractError,
>)
    requires
        old(state).wf(),
        info.funds@.len() > 0,
        info.funds@[0].amount > 0,
    ensures
        native_deposit_post(*old(state), *final(state), *info, r),
{
    let sender = info.sender.clone();
    let denom = info.funds[0].denom.clone();
    let amount = info.funds[0].amount;
    let entry = match state.deposits.load(&sender, &denom) {
        Some(e) => {
            let new_amount = match e.amount.checked_add(amount) {
                Some(a) => a,
                None => {
                    return Err(ContractError::ArithmeticOverflow);
                },
            };
            let new_count = match e.count.checked_add(1) {
                Some(c) => c,
                None => {
                    return Err(ContractError::ArithmeticOverflow);
                },
            };
            NativeEntry { amount: new_amount, count: new_count }
        },
        None => NativeEntry { amount, count: 1 },
    };
    state.deposits.save(&sender, &denom, entry);
    Ok(Response { event: LedgerEvent::NativeDeposit { denom, amount }, transfer: None })
}

/// The contract of a native withdrawal: the keyed entry takes one
/// `native_withdraw_step`, no other entry moves, and a success instructs the
/// caller to send the withdrawn coins back to the sender.
pub open spec fn native_withdraw_post(
    pre: ContractState,
    post: ContractState,
    info: MessageInfo,
    amount: u128,
    denom: String,
    r: Result<Response, ContractError>,
) -> bool {
    let sender = info.sender@;
    let step = native_withdraw_step(pre.deposits.lookup(sender, denom@), amount);
    &&& post.wf()
    &&& post.cw20_deposits == pre.cw20_deposits
    &&& match (r, step) {
        (Ok(resp), Ok(e)) => {
            &&& post.deposits.lookup(sender, denom@) == Some(e)
            &&& (forall|q1: Seq<char>, q2: Seq<char>|
                !(q1 == sender && q2 == denom@) ==> #[trigger] post.deposits.lookup(q1, q2)
                    == pre.deposits.lookup(q1, q2))
            &&& resp.event == (LedgerEvent::NativeWithdraw { denom: denom, amount: amount })
            &&& resp.transfer == Some(
                TransferMsg::BankSend { to_address: info.sender, denom: denom, amount: amount },
            )
        },
        (Err(err), Err(se)) => err == se && post == pre,
        _ => false,
    }
}

/// Releases `amount` of `denom` back to the sender, decrementing the
/// recorded balance and the deposit counter (both checked).
pub fn execute_withdraw(
    state: &mut ContractState,
    info: &MessageInfo,
    amount: u128,
    denom: String,
) -> (r: Result<Response, ContractError>)
    requires
        old(state).wf(),
    ensures
        native_withdraw_post(*old(state), *final(state), *info, amount, denom, r),
{
    let sender = info.sender.clone();
    let e = match state.deposits.load(&sender, &denom) {
        Some(e) => e,
        None => {
            return Err(ContractError::NoDepositFound);
        },
    };
    let new_amount = match e.amount.checked_sub(amount) {
        Some(a) => a,
        None => {
            return Err(ContractError::InsufficientBalance);
        },
    };
    let new_count = match e.count.checked_sub(1) {
        Some(c) => c,
        None => {
            return Err(ContractError::ArithmeticUnderflow);
        },
    };
    state.deposits.save(&sender, &denom, NativeEntry { amount: new_amount, count: new_count });
    Ok(
        Response {
            event: LedgerEvent::NativeWithdraw { denom: denom.clone(), amount },
            transfer: Some(TransferMsg::BankSend { to_address: sender, denom, amount }),
        },
    )
}

/// The contract of a cw20 deposit: the entry under (owner, token contract)
/// takes one `cw20_deposit_step`, no other entry moves, and the native
/// ledger is untouched. The token contract is the sender of the inbound
/// message.
pub open spec fn cw20_deposit_post(
    pre: ContractState,
    post: ContractState,
    env: Env,
    info: MessageInfo,
    owner: String,
    amount: u128,
    r: Result<Response, ContractError>,
) -> bool {
    let contract = info.sender@;
    let step = cw20_deposit_step(pre.cw20_deposits.lookup(owner@, contract), amount, env.block_height);
    &&& post.wf()
    &&& post.deposits == pre.deposits
    &&& match (r, step) {
        (Ok(resp), Ok(e)) => {
            &&& post.cw20_deposits.lookup(owner@, contract) == Some(e)
            &&& (forall|q1: Seq<char>, q2: Seq<char>|
                !(q1 == owner@ && q2 == contract) ==> #[trigger] post.cw20_deposits.lookup(q1, q2)
                    == pre.cw20_deposits.lookup(q1, q2))
            &&& resp.event == (LedgerEvent::Cw20Deposit {
                token_contract: info.sender,
                amount: amount,
            })
            &&& resp.transfer is None
        },
        (Err(err), Err(se)) => err == se && post == pre,
        _ => false,
    }
}

/// Records a cw20 deposit of `amount` for `owner`, keyed by the calling
/// token contract, reseeding the lockdown timer.
pub fn execute_cw20_deposit(
    state: &mut ContractState,
    env: &Env,
    info: &MessageInfo,
    owner: String,
    amount: u128,
) -> (r: Result<Response, ContractError>)
    requires
        old(state).wf(),
    ensures
        cw20_deposit_post(*old(state), *final(state), *env, *info, owner, amount, r),
        // A fresh (owner, token contract) pair seeds the lockdown at the
        // current height, so a successful first deposit locks until
        // `height + 20`.
        (old(state).cw20_deposits.lookup(owner@, info.sender@) is None && r is Ok)
            ==> final(state).cw20_deposits.lookup(owner@, info.sender@) == Some(
            Cw20Entry { amount: amount, count: 1, lockdown: (env.block_height + 20) as u64 },
        ),
{
    if amount == 0 {
        return Err(ContractError::InvalidAmount);
    }
    let contract_addr = info.sender.clone();
    let base = match state.cw20_deposits.load(&owner, &contract_addr) {
        Some(e) => e,
        None => Cw20Entry { amount, count: 0, lockdown: env.block_height },
    };
    let lockdown = match next_lockdown(env.block_height, base.lockdown) {
        Ok(h) => h,
        Err(e) => {
            return Err(e);
        },
    };
    let count = match base.count.checked_add(1) {
        Some(c) => c,
        None => {
            return Err(ContractError::ArithmeticOverflow);
        },
    };
    state.cw20_deposits.save(&owner, &contract_addr, Cw20Entry { amount: base.amount, count, lockdown });
    Ok(
        Response {
            event: LedgerEvent::Cw20Deposit { token_contract: contract_addr, amount },
            transfer: None,
        },
    )
}

/// The contract of a cw20 withdrawal: the entry under
/// (sender, token contract) takes one `cw20_withdraw_step`, no other entry
/// moves, and a success instructs the caller to have the token contract
/// transfer the amount back to the sender.
pub open spec fn cw20_withdraw_post(
    pre: ContractState,
    post: ContractState,
    env: Env,
    info: MessageInfo,
    contract: String,
    amount: u128,
    r: Result<Response, ContractError>,
) -> bool {
    let sender = info.sender@;
    let step = cw20_withdraw_step(
        pre.cw20_deposits.lookup(sender, contract@),
        amount,
        env.block_height,
    );
    &&& post.wf()
    &&& post.deposits == pre.deposits
    &&& match (r, step) {
        (Ok(resp), Ok(e)) => {
            &&& post.cw20_deposits.lookup(sender, contract@) == Some(e)
            &&& (forall|q1: Seq<char>, q2: Seq<char>|
                !(q1 == sender && q2 == contract@) ==> #[trigger] post.cw20_deposits.lookup(q1, q2)
                    == pre.cw20_deposits.lookup(q1, q2))
            &&& resp.event == (LedgerEvent::Cw20Withdraw {
                token_contract: contract,
                sender: info.sender,
                amount: amount,
            })
            &&& resp.transfer == Some(
                TransferMsg::Cw20Transfer {
                    contract: contract,
                    recipient: info.sender,
                    amount: amount,
                },
            )
        },
        (Err(err), Err(se)) => err == se && post == pre,
        _ => false,
    }
}

/// Releases a cw20 deposit back to the sender, subject to the recorded
/// amount and the lockdown guard.
pub fn execute_cw20_withdraw(
    state: &mut ContractState,
    env: &Env,
    info: &MessageInfo,
    contract: String,
    amount: u128,
) -> (r: Result<Response, ContractError>)
    requires
        old(state).wf(),
    ensures
        cw20_withdraw_post(*old(state), *final(state), *env, *info, contract, amount, r),
{
    let sender = info.sender.clone();
    let e = match state.cw20_deposits.load(&sender, &contract) {
        Some(e) => e,
        None => {
            return Err(ContractError::NoDepositFound);
        },
    };
    if amount < e.amount {
        return Err(ContractError::InsufficientBalance);
    }
    if e.lockdown < env.block_height {
        return Err(ContractError::LockdownActive);
    }
    let new_amount = match e.amount.checked_sub(amount) {
        Some(a) => a,
        None => {
            return Err(ContractError::ArithmeticUnderflow);
        },
    };
    state.cw20_deposits.save(
        &sender,
        &contract,
        Cw20Entry { amount: new_amount, count: e.count, lockdown: e.lockdown },
    );
    Ok(
        Response {
            event: LedgerEvent::Cw20Withdraw {
                token_contract: contract.clone(),
                sender: sender.clone(),
                amount,
            },
            transfer: Some(TransferMsg::Cw20Transfer { contract, recipient: sender, amount }),
        },
    )
}

/// The contract of a cw20 receive notification: a recognized deposit hook
/// behaves as a cw20 deposit for the notified owner and amount; anything
/// else is rejected as an invalid hook with no state change.
pub open spec fn receive_cw20_post(
    pre: ContractState,
    post: ContractState,
    env: Env,
    info: MessageInfo,
    msg: Cw20ReceiveMsg,
    r: Result<Response, ContractError>,
) -> bool {
    match msg.hook {
        Some(Cw20HookMsg::Deposit) => cw20_deposit_post(
            pre,
            post,
            env,
            info,
            msg.sender,
            msg.amount,
            r,
        ),
        None => r == Err::<Response, ContractError>(ContractError::InvalidHook) && post == pre,
    }
}

/// Handles a cw20 receive notification: dispatches a recognized deposit
/// hook, rejects anything else.
pub fn receive_cw20(
    state: &mut ContractState,
    env: &Env,
    info: &MessageInfo,
    cw20_msg: Cw20ReceiveMsg,
) -> (r: Result<Response, ContractError>)
    requires
        old(state).wf(),
    ensures
        receive_cw20_post(*old(state), *final(state), *env, *info, cw20_msg, r),
{
    match cw20_msg.hook {
        Some(Cw20HookMsg::Deposit) => execute_cw20_deposit(
            state,
            env,
            info,
            cw20_msg.sender,
            cw20_msg.amount,
        ),
        None => Err(ContractError::InvalidHook),
    }
}

/// The multiplexer: routes an operation to its engine.
pub fn execute(
    state: &mut ContractState,
    env: &Env,
    info: &MessageInfo,
    msg: ExecuteMsg,
) -> (r: Result<Response, ContractError>)
    requires
        old(state).wf(),
        msg is Deposit ==> info.funds@.len() > 0 && info.funds@[0].amount > 0,
    ensures
        final(state).wf(),
        match msg {
            ExecuteMsg::Deposit => native_deposit_post(*old(state), *final(state), *info, r),
            ExecuteMsg::Withdraw { amount, denom } => native_withdraw_post(
                *old(state),
                *final(state),
                *info,
                amount,
                denom,
                r,
            ),
            ExecuteMsg::Receive(cw20_msg) => receive_cw20_post(
                *old(state),
                *final(state),
                *env,
                *info,
                cw20_msg,
                r,
            ),
            ExecuteMsg::WithdrawCw20 { address, amount } => cw20_withdraw_post(
                *old(state),
                *final(state),
                *env,
                *info,
                address,
                amount,
                r,
            ),
        },
{
    match msg {
        ExecuteMsg::Deposit => execute_deposit(state, info),
        ExecuteMsg::Withdraw { amount, denom } => execute_withdraw(state, info, amount, denom),
        ExecuteMsg::Receive(cw20_msg) => receive_cw20(state, env, info, cw20_msg),
        ExecuteMsg::WithdrawCw20 { address, amount } => execute_cw20_withdraw(
            state,
            env,
            info,
            address,
            amount,
        ),
    }
}

/// The contract of the native deposit listing: exactly the account's
/// entries, in ascending denomination order, empty (not an error) for an
/// account with no entries.
pub open spec fn native_query_post(pre: ContractState, address: String, resp: DepositResponse) -> bool {
    &&& resp.deposits@ == prefix_pairs(pre.deposits.rows@, address@).map_values(
        (|p: (String, NativeEntry)| native_response_pair(address, p)),
    )
    &&& (forall|m: int, n: int|
        0 <= m < n < resp.deposits@.len() ==> #[trigger] crate::key_order::chars_lt(
            resp.deposits@[m].0@,
            resp.deposits@[n].0@,
        ))
    &&& (forall|j: int|
        0 <= j < pre.deposits.rows@.len() ==> (#[trigger] pre.deposits.rows@[j]).k1@ != address@)
        ==> resp.deposits@.len() == 0
}

/// Lists the native deposits of an account, keyed and ordered by
/// denomination.
pub fn query_deposits(state: &ContractState, address: String) -> (r: DepositResponse)
    requires
        state.wf(),
    ensures
        native_query_post(*state, address, r),
{
    let pairs = state.deposits.list_by_prefix(&address);
    let ghost pp = prefix_pairs(state.deposits.rows@, address@);
    let mut out: Vec<(String, Deposits)> = Vec::new();
    let n = pairs.len();
    let mut i: usize = 0;
    while i < n
        invariant
            i <= n,
            n == pairs@.len(),
            pairs@ == pp,
            out@.len() == i,
            forall|j: int| 0 <= j < i ==> out@[j] == native_response_pair(address, pp[j]),
        decreases n - i,
    {
        let p = &pairs[i];
        out.push(
            (
                p.0.clone(),
                Deposits {
                    count: p.1.count,
                    owner: address.clone(),
                    coins: Coin { denom: p.0.clone(), amount: p.1.amount },
                },
            ),
        );
        i = i + 1;
    }
    proof {
        assert(out@ =~= pp.map_values((|p: (String, NativeEntry)| native_response_pair(address, p))));
        lemma_prefix_pairs_sorted(state.deposits.rows@, address@);
        assert forall|m: int, n2: int| 0 <= m < n2 < out@.len() implies
            #[trigger] crate::key_order::chars_lt(out@[m].0@, out@[n2].0@) by {
            assert(out@[m] == native_response_pair(address, pp[m]));
            assert(out@[n2] == native_response_pair(address, pp[n2]));
            assert(crate::key_order::chars_lt(pp[m].0@, pp[n2].0@));
        }
        if forall|j: int|
            0 <= j < state.deposits.rows@.len() ==> (#[trigger] state.deposits.rows@[j]).k1@
                != address@ {
            lemma_prefix_pairs_empty(state.deposits.rows@, address@);
        }
    }
    DepositResponse { deposits: out }
}

/// The contract of the cw20 deposit listing: exactly the account's entries,
/// in ascending token-contract order, empty (not an error) for an account
/// with no entries.
pub open spec fn cw20_query_post(
    pre: ContractState,
    address: String,
    resp: Cw20DepositResponse,
) -> bool {
    &&& resp.deposits@ == prefix_pairs(pre.cw20_deposits.rows@, address@).map_values(
        (|p: (String, Cw20Entry)| cw20_response_pair(address, p)),
    )
    &&& (forall|m: int, n: int|
        0 <= m < n < resp.deposits@.len() ==> #[trigger] crate::key_order::chars_lt(
            resp.deposits@[m].0@,
            resp.deposits@[n].0@,
        ))
    &&& (forall|j: int|
        0 <= j < pre.cw20_deposits.rows@.len() ==> (#[trigger] pre.cw20_deposits.rows@[j]).k1@
            != address@) ==> resp.deposits@.len() == 0
}

/// Lists the cw20 deposits of an account, keyed and ordered by token
/// contract.
pub fn query_cw20_deposits(state: &ContractState, address: String) -> (r: Cw20DepositResponse)
    requires
        state.wf(),
    ensures
        cw20_query_post(*state, address, r),
{
    let pairs = state.cw20_deposits.list_by_prefix(&address);
    let ghost pp = prefix_pairs(state.cw20_deposits.rows@, address@);
    let mut out: Vec<(String, Cw20Deposits)> = Vec::new();
    let n = pairs.len();
    let mut i: usize = 0;
    while i < n
        invariant
            i <= n,
            n == pairs@.len(),
            pairs@ == pp,
            out@.len() == i,
            forall|j: int| 0 <= j < i ==> out@[j] == cw20_response_pair(address, pp[j]),
        decreases n - i,
    {
        let p = &pairs[i];
        out.push(
            (
                p.0.clone(),
                Cw20Deposits {
                    count: p.1.count,
                    owner: address.clone(),
                    contract: p.0.clone(),
                    amount: p.1.amount,
                    lockdown: p.1.lockdown,
                },
            ),
        );
        i = i + 1;
    }
    proof {
        assert(out@ =~= pp.map_values((|p: (String, Cw20Entry)| cw20_response_pair(address, p))));
        lemma_prefix_pairs_sorted(state.cw20_deposits.rows@, address@);
        assert forall|m: int, n2: int| 0 <= m < n2 < out@.len() implies
            #[trigger] crate::key_order::chars_lt(out@[m].0@, out@[n2].0@) by {
            assert(out@[m] == cw20_response_pair(address, pp[m]));
            assert(out@[n2] == cw20_response_pair(address, pp[n2]));
            assert(crate::key_order::chars_lt(pp[m].0@, pp[n2].0@));
        }
        if forall|j: int|
            0 <= j < state.cw20_deposits.rows@.len() ==> (#[trigger] state.cw20_deposits.rows@[j]).k1@
                != address@ {
            lemma_prefix_pairs_empty(state.cw20_deposits.rows@, address@);
        }
    }
    Cw20DepositResponse { deposits: out }
}

/// The query multiplexer: routes a read-only query to its listing.
pub fn query(state: &ContractState, msg: QueryMsg) -> (r: QueryAnswer)
    requires
        state.wf(),
    ensures
        match msg {
            QueryMsg::Deposits { address } => match r {
                QueryAnswer::Deposits(resp) => native_query_post(*state, address, resp),
                _ => false,
            },
            QueryMsg::Cw20Deposits { address } => match r {
                QueryAnswer::Cw20Deposits(resp) => cw20_query_post(*state, address, resp),
                _ => false,
            },
        },
{
    match msg {
        QueryMsg::Deposits { address } => QueryAnswer::Deposits(query_deposits(state, address)),
        QueryMsg::Cw20Deposits { address } => QueryAnswer::Cw20Deposits(
            query_cw20_deposits(state, address),
        ),
    }
}

} // verus!
