//! General properties of the accounting rules, stated and proved over the
//! step functions that the engines' contracts are expressed in.

use vstd::prelude::*;

use crate::contract::cw20_deposit_step;
use crate::contract::native_deposit_step;
use crate::contract::native_withdraw_step;
use crate::error::ContractError;
use crate::state::Cw20Entry;
use crate::state::NativeEntry;

verus! {

/// One native-ledger operation against a single (account, denomination) key.
pub enum NativeOp {
    Deposit(u128),
    Withdraw(u128),
}

/// The entry after a history of operations against one key, starting from
/// `prev`; an error anywhere aborts the whole history.
pub open spec fn apply_native_ops(prev: Option<NativeEntry>, ops: Seq<NativeOp>) -> Result<
    Option<NativeEntry>,
    ContractError,
>
    decreases ops.len(),
{
    if ops.len() == 0 {
        Ok(prev)
    } else {
        let step = match ops[0] {
            NativeOp::Deposit(a) => native_deposit_step(prev, a),
            NativeOp::Withdraw(a) => native_withdraw_step(prev, a),
        };
        match step {
            Ok(e) => apply_native_ops(Some(e), ops.skip(1)),
            Err(err) => Err(err),
        }
    }
}

/// The total amount deposited over a history.
pub open spec fn sum_deposited(ops: Seq<NativeOp>) -> int
    decreases ops.len(),
{
    if ops.len() == 0 {
        0
    } else {
        (match ops[0] {
            NativeOp::Deposit(a) => a as int,
            NativeOp::Withdraw(_) => 0int,
        }) + sum_deposited(ops.skip(1))
    }
}

/// The total amount withdrawn over a history.
pub open spec fn sum_withdrawn(ops: Seq<NativeOp>) -> int
    decreases ops.len(),
{
    if ops.len() == 0 {
        0
    } else {
        (match ops[0] {
            NativeOp::Deposit(_) => 0int,
            NativeOp::Withdraw(a) => a as int,
        }) + sum_withdrawn(ops.skip(1))
    }
}

/// How many deposits a history holds.
pub open spec fn count_deposits(ops: Seq<NativeOp>) -> int
    decreases ops.len(),
{
    if ops.len() == 0 {
        0
    } else {
        (match ops[0] {
            NativeOp::Deposit(_) => 1int,
            NativeOp::Withdraw(_) => 0int,
        }) + count_deposits(ops.skip(1))
    }
}

/// How many withdrawals a history holds.
pub open spec fn count_withdrawals(ops: Seq<NativeOp>) -> int
    decreases ops.len(),
{
    if ops.len() == 0 {
        0
    } else {
        (match ops[0] {
            NativeOp::Deposit(_) => 0int,
            NativeOp::Withdraw(_) => 1int,
        }) + count_withdrawals(ops.skip(1))
    }
}

proof fn lemma_native_accounting_from(e: NativeEntry, ops: Seq<NativeOp>)
    requires
        apply_native_ops(Some(e), ops) is Ok,
    ensures
        match apply_native_ops(Some(e), ops) {
            Ok(Some(f)) => f.amount == e.amount + sum_deposited(ops) - sum_withdrawn(ops)
                && f.count == e.count + count_deposits(ops) - count_withdrawals(ops),
            _ => false,
        },
    decreases ops.len(),
{
    if ops.len() > 0 {
        let step = match ops[0] {
            NativeOp::Deposit(a) => native_deposit_step(Some(e), a),
            NativeOp::Withdraw(a) => native_withdraw_step(Some(e), a),
        };
        match step {
            Ok(e2) => {
                lemma_native_accounting_from(e2, ops.skip(1));
            },
            Err(_) => {
                assert(false);
            },
        }
    }
}

/// The accounting law of the native ledger: over any history of deposits and
/// withdrawals against one (account, denomination) key, starting from no
/// entry, in which every operation succeeds, the final balance equals the
/// amounts deposited minus the amounts withdrawn, and the deposit counter
/// equals the number of deposits minus the number of withdrawals. In
/// particular, after deposits alone the balance is the sum of the deposited
/// amounts.
pub proof fn lemma_native_accounting(ops: Seq<NativeOp>)
    requires
        ops.len() > 0,
        apply_native_ops(None, ops) is Ok,
    ensures
        match apply_native_ops(None, ops) {
            Ok(Some(f)) => f.amount == sum_deposited(ops) - sum_withdrawn(ops) && f.count
                == count_deposits(ops) - count_withdrawals(ops),
            _ => false,
        },
{
    match ops[0] {
        NativeOp::Deposit(a) => {
            lemma_native_accounting_from(NativeEntry { amount: a, count: 1 }, ops.skip(1));
        },
        NativeOp::Withdraw(_) => {
            assert(false);
        },
    }
}

/// The withdrawal guard of the native ledger: a withdrawal never succeeds
/// against a missing entry or for more than the recorded balance, and a
/// success debits exactly the requested amount and one deposit count.
pub proof fn lemma_native_withdraw_guard(prev: Option<NativeEntry>, amount: u128)
    ensures
        native_withdraw_step(None, amount) is Err,
        match prev {
            Some(e) => match native_withdraw_step(prev, amount) {
                Ok(f) => amount <= e.amount && f.amount == e.amount - amount && f.count == e.count
                    - 1,
                Err(_) => true,
            },
            None => true,
        },
{
}

/// The lockdown seeding law of the cw20 ledger: a deposit to a fresh
/// (owner, token contract) pair seeds the timer at the current height, so
/// the recurrence takes its first branch and the new entry holds the
/// deposited amount, one counted deposit, and a lockdown of the current
/// height plus twenty. (Heights within twenty of the representable maximum
/// overflow the timer and fail instead.)
pub proof fn lemma_cw20_fresh_deposit(amount: u128, height: u64)
    requires
        amount > 0,
        height + 20 <= u64::MAX,
    ensures
        cw20_deposit_step(None, amount, height) == Ok::<Cw20Entry, ContractError>(
            Cw20Entry { amount: amount, count: 1, lockdown: (height + 20) as u64 },
        ),
{
}

} // verus!
