use candid::Nat;
use defi_backend::account::AccountId;
use defi_backend::service::{
    settle_transfer, transfer_request, Error, FaultReason, Service, TransferArgs, TransferOutcome,
};

fn vault_account(tag: u8) -> AccountId {
    AccountId { owner: vec![tag], subaccount: None }
}

fn fresh_service() -> Service {
    Service::new(vec![0xaa], vec![0xbb])
}

fn receipt(ix: u64) -> TransferOutcome {
    TransferOutcome::Receipt(Nat::from(ix))
}

#[test]
fn deposit_credits_balance_on_receipt() {
    let mut svc = fresh_service();
    let alice = vault_account(1);
    let amount = Nat::from(100u64);
    assert_eq!(svc.deposit_request(&amount), Ok(()));
    let r = svc.deposit_commit(&alice, &amount, receipt(7));
    assert_eq!(r, Ok(Nat::from(7u64)));
    assert_eq!(svc.balance(&alice), 100u64);
}

#[test]
fn deposit_fault_leaves_balance_untouched() {
    let mut svc = fresh_service();
    let alice = vault_account(1);
    let amount = Nat::from(50u64);
    let r = svc.deposit_commit(
        &alice,
        &amount,
        TransferOutcome::Fault(FaultReason::InsufficientAllowance),
    );
    assert_eq!(r, Err(Error::GatewayFault(FaultReason::InsufficientAllowance)));
    assert_eq!(svc.balance(&alice), 0u64);
}

#[test]
fn deposit_zero_amount_rejected() {
    let svc = fresh_service();
    assert_eq!(svc.deposit_request(&Nat::from(0u64)), Err(Error::InvalidArgument));
}

#[test]
fn withdraw_zero_amount_rejected() {
    let svc = fresh_service();
    let alice = vault_account(1);
    assert_eq!(
        svc.withdraw_request(&alice, &Nat::from(0u64)),
        Err(Error::InvalidArgument)
    );
}

#[test]
fn withdraw_beyond_balance_rejected() {
    let mut svc = fresh_service();
    let alice = vault_account(1);
    svc.deposit_commit(&alice, &Nat::from(10u64), receipt(1)).unwrap();
    assert_eq!(
        svc.withdraw_request(&alice, &Nat::from(11u64)),
        Err(Error::InsufficientBalance)
    );
    assert_eq!(svc.withdraw_request(&alice, &Nat::from(10u64)), Ok(()));
}

#[test]
fn withdraw_debits_only_on_receipt() {
    let mut svc = fresh_service();
    let alice = vault_account(1);
    svc.deposit_commit(&alice, &Nat::from(100u64), receipt(1)).unwrap();

    let fault = svc.withdraw_commit(
        &alice,
        &Nat::from(40u64),
        TransferOutcome::Fault(FaultReason::TemporarilyUnavailable),
    );
    assert_eq!(
        fault,
        Err(Error::GatewayFault(FaultReason::TemporarilyUnavailable))
    );
    assert_eq!(svc.balance(&alice), 100u64);

    let ok = svc.withdraw_commit(&alice, &Nat::from(40u64), receipt(2));
    assert_eq!(ok, Ok(Nat::from(2u64)));
    assert_eq!(svc.balance(&alice), 60u64);
}

#[test]
fn withdraw_commit_rechecks_balance_after_wait() {
    let mut svc = fresh_service();
    let alice = vault_account(1);
    svc.deposit_commit(&alice, &Nat::from(30u64), receipt(1)).unwrap();
    assert_eq!(svc.withdraw_request(&alice, &Nat::from(30u64)), Ok(()));
    // Another operation of the same caller runs while the push is in
    // flight and drains part of the entry.
    svc.withdraw_commit(&alice, &Nat::from(20u64), receipt(2)).unwrap();
    let r = svc.withdraw_commit(&alice, &Nat::from(30u64), receipt(3));
    assert_eq!(r, Err(Error::InsufficientBalance));
    assert_eq!(svc.balance(&alice), 10u64);
}

#[test]
fn balance_conservation_over_mixed_history() {
    let mut svc = fresh_service();
    let alice = vault_account(1);
    let bob = vault_account(2);

    svc.deposit_commit(&alice, &Nat::from(100u64), receipt(1)).unwrap();
    // A failed deposit must not alter the balance.
    let _ = svc.deposit_commit(
        &alice,
        &Nat::from(50u64),
        TransferOutcome::Fault(FaultReason::Other),
    );
    svc.withdraw_commit(&alice, &Nat::from(30u64), receipt(2)).unwrap();
    // A failed withdrawal must not alter the balance.
    let _ = svc.withdraw_commit(
        &alice,
        &Nat::from(20u64),
        TransferOutcome::Fault(FaultReason::InsufficientFunds),
    );
    svc.deposit_commit(&alice, &Nat::from(5u64), receipt(3)).unwrap();

    // 100 + 5 deposited, 30 withdrawn.
    assert_eq!(svc.balance(&alice), 75u64);
    // Another account's entries are independent.
    assert_eq!(svc.balance(&bob), 0u64);
}

#[test]
fn balances_exceed_machine_words() {
    let mut svc = fresh_service();
    let alice = vault_account(1);
    let huge = Nat::from(u128::MAX) * Nat::from(u128::MAX);
    svc.deposit_commit(&alice, &huge, receipt(1)).unwrap();
    svc.deposit_commit(&alice, &huge, receipt(2)).unwrap();
    svc.withdraw_commit(&alice, &Nat::from(1u64), receipt(3)).unwrap();
    let expected = huge.clone() + huge - Nat::from(1u64);
    assert_eq!(svc.balance(&alice), expected);
}

#[test]
fn subaccounts_are_distinct_keys() {
    let mut svc = fresh_service();
    let plain = vault_account(1);
    let sub = AccountId { owner: vec![1], subaccount: Some(vec![9; 32]) };
    svc.deposit_commit(&plain, &Nat::from(10u64), receipt(1)).unwrap();
    svc.deposit_commit(&sub, &Nat::from(3u64), receipt(2)).unwrap();
    assert_eq!(svc.balance(&plain), 10u64);
    assert_eq!(svc.balance(&sub), 3u64);
}

#[test]
fn transfer_request_checks_amount_only() {
    let args = TransferArgs { amount: Nat::from(0u64), to_account: vault_account(3) };
    assert_eq!(transfer_request(&args), Err(Error::InvalidArgument));
    let args = TransferArgs { amount: Nat::from(25u64), to_account: vault_account(3) };
    assert_eq!(transfer_request(&args), Ok(()));
}

#[test]
fn transfer_does_not_touch_vault() {
    let mut svc = fresh_service();
    let alice = vault_account(1);
    svc.deposit_commit(&alice, &Nat::from(10u64), receipt(1)).unwrap();
    let args = TransferArgs { amount: Nat::from(25u64), to_account: vault_account(3) };
    assert_eq!(transfer_request(&args), Ok(()));
    assert_eq!(settle_transfer(receipt(9)), Ok(Nat::from(9u64)));
    assert_eq!(svc.balance(&alice), 10u64);
}

#[test]
fn settle_transfer_surfaces_fault_verbatim() {
    let r = settle_transfer(TransferOutcome::Fault(FaultReason::DuplicateRequest));
    assert_eq!(r, Err(Error::GatewayFault(FaultReason::DuplicateRequest)));
}
