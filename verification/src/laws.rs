use vstd::prelude::*;

verus! {

/// One vault operation on a single account, as the settlement functions
/// record it: the amount moved and whether the operation succeeded.
pub enum VaultOp {
    Deposit { amount: nat, succeeded: bool },
    Withdraw { amount: nat, succeeded: bool },
}

/// The balance after one operation: a successful deposit credits its
/// amount, a successful withdrawal covered by the balance debits it, and
/// a failed operation leaves the balance alone.
pub open spec fn vault_step(balance: nat, op: VaultOp) -> nat {
    match op {
        VaultOp::Deposit { amount, succeeded } => if succeeded {
            balance + amount
        } else {
            balance
        },
        VaultOp::Withdraw { amount, succeeded } => if succeeded && amount <= balance {
            (balance - amount) as nat
        } else {
            balance
        },
    }
}

/// The balance after a whole history of operations.
pub open spec fn vault_after(balance: nat, ops: Seq<VaultOp>) -> nat
    decreases ops.len(),
{
    if ops.len() == 0 {
        balance
    } else {
        vault_after(vault_step(balance, ops[0]), ops.drop_first())
    }
}

/// A history is coherent when every successful withdrawal was covered by
/// the balance at its turn — which withdrawal settlement re-checks.
pub open spec fn ops_coherent(balance: nat, ops: Seq<VaultOp>) -> bool
    decreases ops.len(),
{
    ops.len() == 0 || ({
        &&& match ops[0] {
            VaultOp::Withdraw { amount, succeeded } => succeeded ==> amount <= balance,
            VaultOp::Deposit { .. } => true,
        }
        &&& ops_coherent(vault_step(balance, ops[0]), ops.drop_first())
    })
}

/// The sum of the successful deposit amounts in a history.
pub open spec fn deposits_sum(ops: Seq<VaultOp>) -> nat
    decreases ops.len(),
{
    if ops.len() == 0 {
        0
    } else {
        (match ops[0] {
            VaultOp::Deposit { amount, succeeded } => if succeeded {
                amount
            } else {
                0
            },
            VaultOp::Withdraw { .. } => 0,
        }) + deposits_sum(ops.drop_first())
    }
}

/// The sum of the successful withdrawal amounts in a history.
pub open spec fn withdrawals_sum(ops: Seq<VaultOp>) -> nat
    decreases ops.len(),
{
    if ops.len() == 0 {
        0
    } else {
        (match ops[0] {
            VaultOp::Withdraw { amount, succeeded } => if succeeded {
                amount
            } else {
                0
            },
            VaultOp::Deposit { .. } => 0,
        }) + withdrawals_sum(ops.drop_first())
    }
}

/// Law: over any coherent history of deposits and withdrawals on one
/// account, the final balance is the initial balance plus the sum of the
/// successful deposits minus the sum of the successful withdrawals;
/// failed operations change nothing.
pub proof fn lemma_balance_conservation(balance: nat, ops: Seq<VaultOp>)
    requires
        ops_coherent(balance, ops),
    ensures
        vault_after(balance, ops) == balance + deposits_sum(ops) - withdrawals_sum(ops),
    decreases ops.len(),
{
    if ops.len() > 0 {
        lemma_balance_conservation(vault_step(balance, ops[0]), ops.drop_first());
    }
}

} // verus!
