use deposit_cw20::contract::execute;
use deposit_cw20::contract::execute_cw20_deposit;
use deposit_cw20::contract::execute_cw20_withdraw;
use deposit_cw20::contract::execute_deposit;
use deposit_cw20::contract::execute_withdraw;
use deposit_cw20::contract::next_lockdown;
use deposit_cw20::contract::query;
use deposit_cw20::contract::query_cw20_deposits;
use deposit_cw20::contract::query_deposits;
use deposit_cw20::contract::receive_cw20;
use deposit_cw20::error::ContractError;
use deposit_cw20::msg::Coin;
use deposit_cw20::msg::Cw20Deposits;
use deposit_cw20::msg::Cw20HookMsg;
use deposit_cw20::msg::Cw20ReceiveMsg;
use deposit_cw20::msg::Env;
use deposit_cw20::msg::ExecuteMsg;
use deposit_cw20::msg::LedgerEvent;
use deposit_cw20::msg::MessageInfo;
use deposit_cw20::msg::QueryAnswer;
use deposit_cw20::msg::QueryMsg;
use deposit_cw20::msg::TransferMsg;
use deposit_cw20::state::ContractState;

const USER: &str = "juno10c3slrqx3369mfsr9670au22zvq082jaej8ve4";
const NATIVE_DENOM: &str = "denom";

fn info(sender: &str, funds: Vec<Coin>) -> MessageInfo {
    MessageInfo { sender: sender.to_string(), funds }
}

fn coin(amount: u128, denom: &str) -> Coin {
    Coin { denom: denom.to_string(), amount }
}

#[test]
fn deposit_native() {
    let mut state = ContractState::new();

    let msg = ExecuteMsg::Deposit;
    let env = Env { block_height: 12345 };
    let res = execute(
        &mut state,
        &env,
        &info(USER, vec![coin(1000, NATIVE_DENOM)]),
        msg,
    );
    assert!(res.is_ok());

    let deposits = query_deposits(&state, USER.to_string());
    assert_eq!(deposits.deposits.len(), 1);
    let (denom, entry) = &deposits.deposits[0];
    assert_eq!(denom, NATIVE_DENOM);
    assert_eq!(entry.coins.amount, 1000);
    assert_eq!(entry.count, 1);
}

#[test]
fn deposit_cw20() {
    let mut state = ContractState::new();
    let env = Env { block_height: 12345 };

    // The cw20 token contract notifies us that USER sent 500 tokens with a
    // deposit hook attached.
    let receive = Cw20ReceiveMsg {
        sender: USER.to_string(),
        amount: 500,
        hook: Some(Cw20HookMsg::Deposit),
    };
    let res = execute(
        &mut state,
        &env,
        &info("contract1", vec![]),
        ExecuteMsg::Receive(receive),
    );
    assert!(res.is_ok());

    // Verify the deposit amount on the contract.
    let cw20_deposit_response = query_cw20_deposits(&state, USER.to_string());
    assert_eq!(
        cw20_deposit_response.deposits,
        vec![(
            "contract1".to_string(),
            Cw20Deposits {
                count: 1,
                owner: USER.to_string(),
                contract: "contract1".to_string(),
                amount: 500,
                lockdown: 12345 + 20, // lockdown seeded at the current height
            }
        )]
    );
}

#[test]
fn next_lockdown_both_branches() {
    // previous <= current: extend from the current height.
    assert_eq!(next_lockdown(100, 50), Ok(120));
    assert_eq!(next_lockdown(100, 100), Ok(120));
    // previous > current: the recurrence shrinks the window.
    assert_eq!(next_lockdown(100, 150), Ok(70));
    // determinism: the same inputs give the same output.
    assert_eq!(next_lockdown(100, 150), next_lockdown(100, 150));
    // the timer overflows near the top of the height range.
    assert_eq!(
        next_lockdown(u64::MAX, 0),
        Err(ContractError::ArithmeticOverflow)
    );
}

#[test]
fn native_deposits_accumulate() {
    let mut state = ContractState::new();
    let sender = info(USER, vec![coin(300, "uusd")]);
    assert!(execute_deposit(&mut state, &sender).is_ok());
    let sender = info(USER, vec![coin(200, "uusd")]);
    assert!(execute_deposit(&mut state, &sender).is_ok());
    let sender = info(USER, vec![coin(1, "uusd")]);
    assert!(execute_deposit(&mut state, &sender).is_ok());

    let deposits = query_deposits(&state, USER.to_string());
    assert_eq!(deposits.deposits.len(), 1);
    assert_eq!(deposits.deposits[0].1.coins.amount, 501);
    assert_eq!(deposits.deposits[0].1.count, 3);
}

#[test]
fn native_deposit_only_first_fund_entry_honored() {
    let mut state = ContractState::new();
    let sender = info(USER, vec![coin(100, "uusd"), coin(400, "uatom")]);
    assert!(execute_deposit(&mut state, &sender).is_ok());

    let deposits = query_deposits(&state, USER.to_string());
    assert_eq!(deposits.deposits.len(), 1);
    assert_eq!(deposits.deposits[0].0, "uusd");
    assert_eq!(deposits.deposits[0].1.coins.amount, 100);
}

#[test]
fn native_deposit_overflow_rejected() {
    let mut state = ContractState::new();
    let sender = info(USER, vec![coin(u128::MAX, "uusd")]);
    assert!(execute_deposit(&mut state, &sender).is_ok());
    let sender = info(USER, vec![coin(1, "uusd")]);
    assert_eq!(
        execute_deposit(&mut state, &sender),
        Err(ContractError::ArithmeticOverflow)
    );
    // the failed deposit changed nothing
    let deposits = query_deposits(&state, USER.to_string());
    assert_eq!(deposits.deposits[0].1.coins.amount, u128::MAX);
    assert_eq!(deposits.deposits[0].1.count, 1);
}

#[test]
fn native_withdraw_exact_and_then_insufficient() {
    let mut state = ContractState::new();
    let env = Env { block_height: 1 };
    let sender = info(USER, vec![coin(1000, "uusd")]);
    assert!(execute_deposit(&mut state, &sender).is_ok());

    let res = execute(
        &mut state,
        &env,
        &info(USER, vec![]),
        ExecuteMsg::Withdraw { amount: 1000, denom: "uusd".to_string() },
    )
    .unwrap();
    assert_eq!(
        res.transfer,
        Some(TransferMsg::BankSend {
            to_address: USER.to_string(),
            denom: "uusd".to_string(),
            amount: 1000,
        })
    );
    assert_eq!(
        res.event,
        LedgerEvent::NativeWithdraw { denom: "uusd".to_string(), amount: 1000 }
    );

    // balance 0, count 0; the entry remains rather than being deleted
    let deposits = query_deposits(&state, USER.to_string());
    assert_eq!(deposits.deposits.len(), 1);
    assert_eq!(deposits.deposits[0].1.coins.amount, 0);
    assert_eq!(deposits.deposits[0].1.count, 0);

    // a second withdrawal of any positive amount fails
    let res = execute_withdraw(&mut state, &info(USER, vec![]), 1, "uusd".to_string());
    assert_eq!(res, Err(ContractError::InsufficientBalance));
}

#[test]
fn native_withdraw_never_exceeds_balance() {
    let mut state = ContractState::new();
    let sender = info(USER, vec![coin(10, "uusd")]);
    assert!(execute_deposit(&mut state, &sender).is_ok());
    let res = execute_withdraw(&mut state, &info(USER, vec![]), 11, "uusd".to_string());
    assert_eq!(res, Err(ContractError::InsufficientBalance));
    let deposits = query_deposits(&state, USER.to_string());
    assert_eq!(deposits.deposits[0].1.coins.amount, 10);
}

#[test]
fn native_withdraw_without_entry_not_found() {
    let mut state = ContractState::new();
    let res = execute_withdraw(&mut state, &info(USER, vec![]), 1, "uusd".to_string());
    assert_eq!(res, Err(ContractError::NoDepositFound));
}

#[test]
fn native_withdraw_count_underflow() {
    // withdrawals are capped by the deposit counter even when the balance
    // would allow more
    let mut state = ContractState::new();
    let sender = info(USER, vec![coin(10, "uusd")]);
    assert!(execute_deposit(&mut state, &sender).is_ok());
    assert!(execute_withdraw(&mut state, &info(USER, vec![]), 4, "uusd".to_string()).is_ok());
    let res = execute_withdraw(&mut state, &info(USER, vec![]), 3, "uusd".to_string());
    assert_eq!(res, Err(ContractError::ArithmeticUnderflow));
}

#[test]
fn query_unknown_account_is_empty() {
    let mut state = ContractState::new();
    let sender = info(USER, vec![coin(10, "uusd")]);
    assert!(execute_deposit(&mut state, &sender).is_ok());

    let deposits = query_deposits(&state, "nobody".to_string());
    assert_eq!(deposits.deposits.len(), 0);
    let cw20_deposits = query_cw20_deposits(&state, "nobody".to_string());
    assert_eq!(cw20_deposits.deposits.len(), 0);
}

#[test]
fn query_orders_by_denomination() {
    let mut state = ContractState::new();
    let sender = info(USER, vec![coin(7, "uusd")]);
    assert!(execute_deposit(&mut state, &sender).is_ok());
    let sender = info(USER, vec![coin(9, "uatom")]);
    assert!(execute_deposit(&mut state, &sender).is_ok());

    // inserted "uusd" before "uatom"; the listing is ascending by denom
    let deposits = query_deposits(&state, USER.to_string());
    assert_eq!(deposits.deposits.len(), 2);
    assert_eq!(deposits.deposits[0].0, "uatom");
    assert_eq!(deposits.deposits[0].1.coins.amount, 9);
    assert_eq!(deposits.deposits[1].0, "uusd");
    assert_eq!(deposits.deposits[1].1.coins.amount, 7);
}

#[test]
fn query_multiplexer_routes() {
    let mut state = ContractState::new();
    let sender = info(USER, vec![coin(7, "uusd")]);
    assert!(execute_deposit(&mut state, &sender).is_ok());

    match query(&state, QueryMsg::Deposits { address: USER.to_string() }) {
        QueryAnswer::Deposits(resp) => assert_eq!(resp.deposits.len(), 1),
        _ => panic!("wrong answer variant"),
    }
    match query(&state, QueryMsg::Cw20Deposits { address: USER.to_string() }) {
        QueryAnswer::Cw20Deposits(resp) => assert_eq!(resp.deposits.len(), 0),
        _ => panic!("wrong answer variant"),
    }
}

#[test]
fn cw20_deposit_zero_amount_invalid() {
    let mut state = ContractState::new();
    let env = Env { block_height: 100 };
    let res = execute_cw20_deposit(
        &mut state,
        &env,
        &info("contract1", vec![]),
        USER.to_string(),
        0,
    );
    assert_eq!(res, Err(ContractError::InvalidAmount));
}

#[test]
fn cw20_repeat_deposit_moves_timer_not_balance() {
    let mut state = ContractState::new();

    let env = Env { block_height: 100 };
    let res = execute_cw20_deposit(
        &mut state,
        &env,
        &info("contract1", vec![]),
        USER.to_string(),
        500,
    );
    assert!(res.is_ok());

    // second deposit at height 110: the recorded lockdown 120 lies above the
    // height, so the recurrence takes its second branch: 120 - 110 + 20;
    // the recorded amount does not accumulate, only the counter moves
    let env = Env { block_height: 110 };
    let res = execute_cw20_deposit(
        &mut state,
        &env,
        &info("contract1", vec![]),
        USER.to_string(),
        700,
    );
    assert!(res.is_ok());

    let cw20_deposits = query_cw20_deposits(&state, USER.to_string());
    assert_eq!(cw20_deposits.deposits.len(), 1);
    let entry = &cw20_deposits.deposits[0].1;
    assert_eq!(entry.amount, 500);
    assert_eq!(entry.count, 2);
    assert_eq!(entry.lockdown, 30);
}

#[test]
fn receive_cw20_rejects_unknown_hook() {
    let mut state = ContractState::new();
    let env = Env { block_height: 100 };
    let receive = Cw20ReceiveMsg { sender: USER.to_string(), amount: 500, hook: None };
    let res = receive_cw20(&mut state, &env, &info("contract1", vec![]), receive);
    assert_eq!(res, Err(ContractError::InvalidHook));
    let cw20_deposits = query_cw20_deposits(&state, USER.to_string());
    assert_eq!(cw20_deposits.deposits.len(), 0);
}

#[test]
fn cw20_withdraw_guards() {
    let mut state = ContractState::new();
    let env = Env { block_height: 100 };
    let res = execute_cw20_deposit(
        &mut state,
        &env,
        &info("contract1", vec![]),
        USER.to_string(),
        500,
    );
    assert!(res.is_ok());
    // lockdown is now 120

    // withdrawing against a missing entry
    let res = execute_cw20_withdraw(
        &mut state,
        &env,
        &info(USER, vec![]),
        "contract2".to_string(),
        500,
    );
    assert_eq!(res, Err(ContractError::NoDepositFound));

    // the guard rejects a requested amount below the recorded one
    let res = execute_cw20_withdraw(
        &mut state,
        &env,
        &info(USER, vec![]),
        "contract1".to_string(),
        499,
    );
    assert_eq!(res, Err(ContractError::InsufficientBalance));

    // a requested amount above the recorded one fails the checked debit
    let res = execute_cw20_withdraw(
        &mut state,
        &env,
        &info(USER, vec![]),
        "contract1".to_string(),
        501,
    );
    assert_eq!(res, Err(ContractError::ArithmeticUnderflow));

    // once the height passes the recorded lockdown, withdrawal is rejected
    let late = Env { block_height: 121 };
    let res = execute_cw20_withdraw(
        &mut state,
        &late,
        &info(USER, vec![]),
        "contract1".to_string(),
        500,
    );
    assert_eq!(res, Err(ContractError::LockdownActive));

    // the exact recorded amount, while the lockdown has not passed, succeeds
    let res = execute_cw20_withdraw(
        &mut state,
        &env,
        &info(USER, vec![]),
        "contract1".to_string(),
        500,
    )
    .unwrap();
    assert_eq!(
        res.transfer,
        Some(TransferMsg::Cw20Transfer {
            contract: "contract1".to_string(),
            recipient: USER.to_string(),
            amount: 500,
        })
    );
    let cw20_deposits = query_cw20_deposits(&state, USER.to_string());
    assert_eq!(cw20_deposits.deposits[0].1.amount, 0);
    assert_eq!(cw20_deposits.deposits[0].1.count, 1);
}
