use vstd::prelude::*;
use candid::Nat;
use crate::account::{AccountId, AccountKey, bytes_eq};
use crate::bignat::{nat_value, nat_from_u64, nat_clone, nat_add, nat_sub, nat_mul, nat_div, nat_lt, nat_eq};
use crate::ledger::Ledger;
use crate::math::{
    swap_output, proportional_mint, proportional_out, min_nat, integer_sqrt,
    lemma_swap_product_increases,
};

verus! {

/// Which of the two pool assets a transfer concerns.
#[derive(Clone, Copy, PartialEq, Eq, Structural, Debug)]
pub enum Asset {
    A,
    B,
}

/// Why the external ledger refused a transfer.
#[derive(Clone, Copy, PartialEq, Eq, Structural, Debug)]
pub enum FaultReason {
    InsufficientAllowance,
    InsufficientFunds,
    DuplicateRequest,
    TemporarilyUnavailable,
    Other,
}

/// What an external transfer call resolved to: a receipt carrying the
/// ledger's block index, or a fault with no transfer performed.
pub enum TransferOutcome {
    Receipt(Nat),
    Fault(FaultReason),
}

/// A failed operation, detected locally or surfaced from the gateway.
#[derive(Clone, Copy, PartialEq, Eq, Structural, Debug)]
pub enum Error {
    InvalidArgument,
    InvalidAsset,
    InsufficientBalance,
    InsufficientShares,
    NoLiquidity,
    ZeroLpMinted,
    ZeroAmountOut,
    SlippageExceeded,
    GatewayFault(FaultReason),
}

/// A caller-supplied direct transfer: amount and destination.
pub struct TransferArgs {
    pub amount: Nat,
    pub to_account: AccountId,
}

/// Pool values read at call entry, before any suspension.
pub struct LiquiditySnapshot {
    pub reserve_a: Nat,
    pub reserve_b: Nat,
    pub total_lp: Nat,
}

impl LiquiditySnapshot {
    /// A snapshot taken from a consistent pool: a positive supply is
    /// backed by positive reserves on both sides.
    pub open spec fn wf(self) -> bool {
        nat_value(self.total_lp) > 0 ==> nat_value(self.reserve_a) > 0 && nat_value(
            self.reserve_b,
        ) > 0
    }
}

/// Maps a gateway outcome to the operation's result: a receipt passes
/// through, a fault is surfaced verbatim with no retry.
pub fn settle_transfer(outcome: TransferOutcome) -> (r: Result<Nat, Error>)
    ensures
        match outcome {
            TransferOutcome::Receipt(receipt) => r == Ok::<Nat, Error>(receipt),
            TransferOutcome::Fault(reason) => r == Err::<Nat, Error>(Error::GatewayFault(reason)),
        },
{
    match outcome {
        TransferOutcome::Receipt(receipt) => Ok(receipt),
        TransferOutcome::Fault(reason) => Err(Error::GatewayFault(reason)),
    }
}

/// Validates a direct pull-style transfer on behalf of the caller; the
/// vault ledger is never touched by this operation.
pub fn transfer_request(args: &TransferArgs) -> (r: Result<(), Error>)
    ensures
        nat_value(args.amount) > 0 ==> r == Ok::<(), Error>(()),
        nat_value(args.amount) == 0 ==> r == Err::<(), Error>(Error::InvalidArgument),
{
    let zero = nat_from_u64(0);
    if nat_eq(&args.amount, &zero) {
        Err(Error::InvalidArgument)
    } else {
        Ok(())
    }
}

/// The custodial vault and the two-asset constant-product pool, with the
/// identifiers of the two external asset ledgers it settles against.
pub struct Service {
    ledger_a_id: Vec<u8>,
    ledger_b_id: Vec<u8>,
    vault: Ledger,
    reserve_a: Nat,
    reserve_b: Nat,
    total_lp: Nat,
    lp_shares: Ledger,
}

impl Service {
    pub closed spec fn asset_a_id(self) -> Seq<u8> {
        self.ledger_a_id@
    }

    pub closed spec fn asset_b_id(self) -> Seq<u8> {
        self.ledger_b_id@
    }

    pub closed spec fn vault_balance_of(self, k: AccountKey) -> nat {
        self.vault.amount_of(k)
    }

    pub closed spec fn lp_balance_of(self, k: AccountKey) -> nat {
        self.lp_shares.amount_of(k)
    }

    /// The sum of all recorded LP-share entries.
    pub closed spec fn lp_entries_sum(self) -> nat {
        self.lp_shares.total()
    }

    pub closed spec fn reserve_a_value(self) -> nat {
        nat_value(self.reserve_a)
    }

    pub closed spec fn reserve_b_value(self) -> nat {
        nat_value(self.reserve_b)
    }

    pub closed spec fn total_lp_value(self) -> nat {
        nat_value(self.total_lp)
    }

    pub closed spec fn ledgers_wf(self) -> bool {
        self.vault.wf() && self.lp_shares.wf()
    }

    /// The service invariant: the recorded LP supply equals the sum of all
    /// LP-share entries at all times, and a positive supply is backed by
    /// positive reserves on both sides.
    pub open spec fn wf(self) -> bool {
        &&& self.ledgers_wf()
        &&& self.total_lp_value() == self.lp_entries_sum()
        &&& self.total_lp_value() > 0 ==> self.reserve_a_value() > 0 && self.reserve_b_value() > 0
    }

    /// The reserve on the side the swapped-in asset joins.
    pub open spec fn reserve_in_value(self, asset_in: Asset) -> nat {
        match asset_in {
            Asset::A => self.reserve_a_value(),
            Asset::B => self.reserve_b_value(),
        }
    }

    /// The reserve on the side the swap pays out from.
    pub open spec fn reserve_out_value(self, asset_in: Asset) -> nat {
        match asset_in {
            Asset::A => self.reserve_b_value(),
            Asset::B => self.reserve_a_value(),
        }
    }

    /// Reserves, LP supply, LP entries and ledger identifiers all agree.
    pub open spec fn pool_unchanged_from(self, other: Service) -> bool {
        &&& self.reserve_a_value() == other.reserve_a_value()
        &&& self.reserve_b_value() == other.reserve_b_value()
        &&& self.total_lp_value() == other.total_lp_value()
        &&& forall|k: AccountKey| self.lp_balance_of(k) == other.lp_balance_of(k)
        &&& self.asset_a_id() == other.asset_a_id()
        &&& self.asset_b_id() == other.asset_b_id()
    }

    /// Every vault balance agrees.
    pub open spec fn vault_unchanged_from(self, other: Service) -> bool {
        forall|k: AccountKey| self.vault_balance_of(k) == other.vault_balance_of(k)
    }

    /// A fresh service with empty ledgers and an uninitialized pool,
    /// settling against the two given external asset ledgers.
    pub fn new(ledger_a_id: Vec<u8>, ledger_b_id: Vec<u8>) -> (r: Service)
        ensures
            r.wf(),
            r.asset_a_id() == ledger_a_id@,
            r.asset_b_id() == ledger_b_id@,
            r.reserve_a_value() == 0,
            r.reserve_b_value() == 0,
            r.total_lp_value() == 0,
            forall|k: AccountKey| r.vault_balance_of(k) == 0,
            forall|k: AccountKey| r.lp_balance_of(k) == 0,
    {
        Service {
            ledger_a_id,
            ledger_b_id,
            vault: Ledger::new(),
            reserve_a: nat_from_u64(0),
            reserve_b: nat_from_u64(0),
            total_lp: nat_from_u64(0),
            lp_shares: Ledger::new(),
        }
    }

    /// The caller's custodial balance; zero when no entry exists.
    pub fn balance(&self, account: &AccountId) -> (r: Nat)
        ensures
            nat_value(r) == self.vault_balance_of(account@),
    {
        self.vault.get_amount(account)
    }

    /// Both pool reserves, in asset order.
    pub fn get_reserves(&self) -> (r: (Nat, Nat))
        ensures
            nat_value(r.0) == self.reserve_a_value(),
            nat_value(r.1) == self.reserve_b_value(),
    {
        (nat_clone(&self.reserve_a), nat_clone(&self.reserve_b))
    }

    /// The caller's LP-share balance; zero when no entry exists.
    pub fn get_lp_balance(&self, account: &AccountId) -> (r: Nat)
        ensures
            nat_value(r) == self.lp_balance_of(account@),
    {
        self.lp_shares.get_amount(account)
    }

    /// The total LP-share supply.
    pub fn get_total_lp(&self) -> (r: Nat)
        ensures
            nat_value(r) == self.total_lp_value(),
    {
        nat_clone(&self.total_lp)
    }

    /// Validates a deposit before the inbound pull is issued.
    pub fn deposit_request(&self, amount: &Nat) -> (r: Result<(), Error>)
        ensures
            nat_value(*amount) > 0 ==> r == Ok::<(), Error>(()),
            nat_value(*amount) == 0 ==> r == Err::<(), Error>(Error::InvalidArgument),
    {
        let zero = nat_from_u64(0);
        if nat_eq(amount, &zero) {
            Err(Error::InvalidArgument)
        } else {
            Ok(())
        }
    }

    /// Settlement of a deposit after the inbound pull resolved: a receipt
    /// credits the account and is returned; a fault leaves every balance
    /// untouched and is surfaced.
    pub fn deposit_commit(
        &mut self,
        account: &AccountId,
        amount: &Nat,
        outcome: TransferOutcome,
    ) -> (r: Result<Nat, Error>)
        requires
            old(self).wf(),
            nat_value(*amount) > 0,
        ensures
            final(self).wf(),
            match outcome {
                TransferOutcome::Receipt(receipt) => {
                    &&& r == Ok::<Nat, Error>(receipt)
                    &&& final(self).vault_balance_of(account@) == old(self).vault_balance_of(
                        account@,
                    ) + nat_value(*amount)
                    &&& forall|k: AccountKey|
                        k != account@ ==> final(self).vault_balance_of(k) == old(
                            self,
                        ).vault_balance_of(k)
                    &&& final(self).pool_unchanged_from(*old(self))
                },
                TransferOutcome::Fault(reason) => {
                    &&& r == Err::<Nat, Error>(Error::GatewayFault(reason))
                    &&& *final(self) == *old(self)
                },
            },
    {
        match outcome {
            TransferOutcome::Receipt(receipt) => {
                self.vault.credit(account, amount);
                Ok(receipt)
            },
            TransferOutcome::Fault(reason) => Err(Error::GatewayFault(reason)),
        }
    }

    /// Validates a withdrawal before the outbound push is issued: the
    /// recorded balance must cover the amount.
    pub fn withdraw_request(&self, account: &AccountId, amount: &Nat) -> (r: Result<(), Error>)
        ensures
            nat_value(*amount) == 0 ==> r == Err::<(), Error>(Error::InvalidArgument),
            nat_value(*amount) > 0 && self.vault_balance_of(account@) < nat_value(*amount) ==> r
                == Err::<(), Error>(Error::InsufficientBalance),
            nat_value(*amount) > 0 && nat_value(*amount) <= self.vault_balance_of(account@) ==> r
                == Ok::<(), Error>(()),
    {
        let zero = nat_from_u64(0);
        if nat_eq(amount, &zero) {
            return Err(Error::InvalidArgument);
        }
        let recorded = self.vault.get_amount(account);
        if nat_lt(&recorded, amount) {
            Err(Error::InsufficientBalance)
        } else {
            Ok(())
        }
    }

    /// Settlement of a withdrawal after the outbound push resolved. The
    /// balance is read again here, after the suspension: another operation
    /// may have run while the push was in flight, so the debit only happens
    /// if the entry still covers the amount.
    pub fn withdraw_commit(
        &mut self,
        account: &AccountId,
        amount: &Nat,
        outcome: TransferOutcome,
    ) -> (r: Result<Nat, Error>)
        requires
            old(self).wf(),
            nat_value(*amount) > 0,
        ensures
            final(self).wf(),
            match outcome {
                TransferOutcome::Receipt(receipt) => {
                    if nat_value(*amount) <= old(self).vault_balance_of(account@) {
                        &&& r == Ok::<Nat, Error>(receipt)
                        &&& final(self).vault_balance_of(account@) == old(self).vault_balance_of(
                            account@,
                        ) - nat_value(*amount)
                        &&& forall|k: AccountKey|
                            k != account@ ==> final(self).vault_balance_of(k) == old(
                                self,
                            ).vault_balance_of(k)
                        &&& final(self).pool_unchanged_from(*old(self))
                    } else {
                        &&& r == Err::<Nat, Error>(Error::InsufficientBalance)
                        &&& *final(self) == *old(self)
                    }
                },
                TransferOutcome::Fault(reason) => {
                    &&& r == Err::<Nat, Error>(Error::GatewayFault(reason))
                    &&& *final(self) == *old(self)
                },
            },
    {
        match outcome {
            TransferOutcome::Receipt(receipt) => {
                let recorded = self.vault.get_amount(account);
                if nat_lt(&recorded, amount) {
                    Err(Error::InsufficientBalance)
                } else {
                    self.vault.debit(account, amount);
                    Ok(receipt)
                }
            },
            TransferOutcome::Fault(reason) => Err(Error::GatewayFault(reason)),
        }
    }

    /// Validates a liquidity deposit and snapshots the pool at call entry:
    /// the mint is later computed from these values, not from the pool as
    /// it stands after the two pulls.
    pub fn add_liquidity_request(&self, amount_a: &Nat, amount_b: &Nat) -> (r: Result<
        LiquiditySnapshot,
        Error,
    >)
        requires
            self.wf(),
        ensures
            (nat_value(*amount_a) == 0 || nat_value(*amount_b) == 0) ==> r == Err::<
                LiquiditySnapshot,
                Error,
            >(Error::InvalidArgument),
            nat_value(*amount_a) > 0 && nat_value(*amount_b) > 0 ==> (r matches Ok(snap)
                && nat_value(snap.reserve_a) == self.reserve_a_value() && nat_value(snap.reserve_b)
                == self.reserve_b_value() && nat_value(snap.total_lp) == self.total_lp_value()
                && snap.wf()),
    {
        let zero = nat_from_u64(0);
        if nat_eq(amount_a, &zero) || nat_eq(amount_b, &zero) {
            return Err(Error::InvalidArgument);
        }
        Ok(
            LiquiditySnapshot {
                reserve_a: nat_clone(&self.reserve_a),
                reserve_b: nat_clone(&self.reserve_b),
                total_lp: nat_clone(&self.total_lp),
            },
        )
    }

    /// Settlement of a liquidity deposit after both inbound pulls
    /// succeeded. Shares are minted from the snapshot taken at call entry:
    /// `integer_sqrt(amount_a * amount_b)` against an empty pool, else the
    /// smaller of the two proportional contributions; a zero mint is
    /// rejected with no state change. On success both reserves grow by the
    /// deposited amounts and the mint goes to the caller's LP entry.
    ///
    /// When the second pull fails after the first succeeded, this is never
    /// reached: the pulled funds then stay in the service's custody with no
    /// share minted, and recovery of that remainder is left to the
    /// operator.
    pub fn add_liquidity_commit(
        &mut self,
        account: &AccountId,
        amount_a: &Nat,
        amount_b: &Nat,
        snapshot: &LiquiditySnapshot,
    ) -> (r: Result<Nat, Error>)
        requires
            old(self).wf(),
            snapshot.wf(),
            nat_value(*amount_a) > 0,
            nat_value(*amount_b) > 0,
        ensures
            final(self).wf(),
            r matches Ok(minted) ==> ({
                let a = nat_value(*amount_a);
                let b = nat_value(*amount_b);
                let snap_l = nat_value(snapshot.total_lp);
                let mint = nat_value(minted);
                &&& mint > 0
                &&& if snap_l == 0 {
                    mint * mint <= a * b && a * b < (mint + 1) * (mint + 1)
                } else {
                    mint == min_nat(
                        proportional_mint(a, snap_l, nat_value(snapshot.reserve_a)),
                        proportional_mint(b, snap_l, nat_value(snapshot.reserve_b)),
                    )
                }
                &&& final(self).reserve_a_value() == old(self).reserve_a_value() + a
                &&& final(self).reserve_b_value() == old(self).reserve_b_value() + b
                &&& final(self).total_lp_value() == old(self).total_lp_value() + mint
                &&& final(self).lp_balance_of(account@) == old(self).lp_balance_of(account@)
                    + mint
                &&& forall|k: AccountKey|
                    k != account@ ==> final(self).lp_balance_of(k) == old(self).lp_balance_of(k)
                &&& final(self).vault_unchanged_from(*old(self))
                &&& final(self).asset_a_id() == old(self).asset_a_id()
                &&& final(self).asset_b_id() == old(self).asset_b_id()
            }),
            r matches Err(e) ==> ({
                let snap_l = nat_value(snapshot.total_lp);
                &&& e == Error::ZeroLpMinted
                &&& snap_l > 0
                &&& min_nat(
                    proportional_mint(nat_value(*amount_a), snap_l, nat_value(snapshot.reserve_a)),
                    proportional_mint(nat_value(*amount_b), snap_l, nat_value(snapshot.reserve_b)),
                ) == 0
                &&& *final(self) == *old(self)
            }),
    {
        let zero = nat_from_u64(0);
        let mint: Nat;
        if nat_eq(&snapshot.total_lp, &zero) {
            let product = nat_mul(amount_a, amount_b);
            mint = integer_sqrt(&product);
            proof {
                let a = nat_value(*amount_a);
                let b = nat_value(*amount_b);
                assert(a * b >= 1) by (nonlinear_arith)
                    requires
                        a >= 1,
                        b >= 1,
                ;
            }
        } else {
            let lp_from_a = nat_div(&nat_mul(amount_a, &snapshot.total_lp), &snapshot.reserve_a);
            let lp_from_b = nat_div(&nat_mul(amount_b, &snapshot.total_lp), &snapshot.reserve_b);
            mint = if nat_lt(&lp_from_b, &lp_from_a) {
                lp_from_b
            } else {
                lp_from_a
            };
        }
        if nat_eq(&mint, &zero) {
            proof {
                let a = nat_value(*amount_a);
                let b = nat_value(*amount_b);
                assert(nat_value(snapshot.total_lp) > 0);
                assert(min_nat(
                    proportional_mint(a, nat_value(snapshot.total_lp), nat_value(snapshot.reserve_a)),
                    proportional_mint(b, nat_value(snapshot.total_lp), nat_value(snapshot.reserve_b)),
                ) == 0);
            }
            return Err(Error::ZeroLpMinted);
        }
        self.reserve_a = nat_add(&self.reserve_a, amount_a);
        self.reserve_b = nat_add(&self.reserve_b, amount_b);
        self.total_lp = nat_add(&self.total_lp, &mint);
        self.lp_shares.credit(account, &mint);
        Ok(mint)
    }

    /// Validates a liquidity removal and computes both payouts from the
    /// reserves and supply at call entry: each side pays
    /// `lp_amount * reserve / total_lp`, and a zero payout on either side
    /// is rejected.
    pub fn remove_liquidity_request(&self, account: &AccountId, lp_amount: &Nat) -> (r: Result<
        (Nat, Nat),
        Error,
    >)
        requires
            self.wf(),
        ensures
            ({
                let lp = nat_value(*lp_amount);
                let l = self.total_lp_value();
                match r {
                    Ok(outs) => {
                        &&& lp > 0
                        &&& lp <= self.lp_balance_of(account@)
                        &&& l > 0
                        &&& nat_value(outs.0) == proportional_out(lp, self.reserve_a_value(), l)
                        &&& nat_value(outs.1) == proportional_out(lp, self.reserve_b_value(), l)
                        &&& nat_value(outs.0) > 0
                        &&& nat_value(outs.1) > 0
                    },
                    Err(e) => {
                        if lp == 0 {
                            e == Error::InvalidArgument
                        } else if self.lp_balance_of(account@) < lp {
                            e == Error::InsufficientShares
                        } else if l == 0 {
                            e == Error::NoLiquidity
                        } else {
                            e == Error::ZeroAmountOut && (proportional_out(
                                lp,
                                self.reserve_a_value(),
                                l,
                            ) == 0 || proportional_out(lp, self.reserve_b_value(), l) == 0)
                        }
                    },
                }
            }),
    {
        let zero = nat_from_u64(0);
        if nat_eq(lp_amount, &zero) {
            return Err(Error::InvalidArgument);
        }
        let shares = self.lp_shares.get_amount(account);
        if nat_lt(&shares, lp_amount) {
            return Err(Error::InsufficientShares);
        }
        if nat_eq(&self.total_lp, &zero) {
            return Err(Error::NoLiquidity);
        }
        let amount_a_out = nat_div(&nat_mul(lp_amount, &self.reserve_a), &self.total_lp);
        let amount_b_out = nat_div(&nat_mul(lp_amount, &self.reserve_b), &self.total_lp);
        if nat_eq(&amount_a_out, &zero) || nat_eq(&amount_b_out, &zero) {
            return Err(Error::ZeroAmountOut);
        }
        Ok((amount_a_out, amount_b_out))
    }

    /// Settlement of a liquidity removal after both outbound pushes
    /// succeeded: reserves, supply and the caller's entry are decremented.
    /// The caller must re-establish, after the suspension, that the current
    /// state still covers the decrements and that positive remaining supply
    /// keeps both reserves positive.
    pub fn remove_liquidity_commit(
        &mut self,
        account: &AccountId,
        lp_amount: &Nat,
        amount_a_out: &Nat,
        amount_b_out: &Nat,
    )
        requires
            old(self).wf(),
            nat_value(*lp_amount) <= old(self).lp_balance_of(account@),
            nat_value(*amount_a_out) <= old(self).reserve_a_value(),
            nat_value(*amount_b_out) <= old(self).reserve_b_value(),
            nat_value(*lp_amount) < old(self).total_lp_value() ==> nat_value(*amount_a_out) < old(
                self,
            ).reserve_a_value() && nat_value(*amount_b_out) < old(self).reserve_b_value(),
        ensures
            final(self).wf(),
            final(self).reserve_a_value() == old(self).reserve_a_value() - nat_value(
                *amount_a_out,
            ),
            final(self).reserve_b_value() == old(self).reserve_b_value() - nat_value(
                *amount_b_out,
            ),
            final(self).total_lp_value() == old(self).total_lp_value() - nat_value(*lp_amount),
            final(self).lp_balance_of(account@) == old(self).lp_balance_of(account@) - nat_value(
                *lp_amount,
            ),
            forall|k: AccountKey|
                k != account@ ==> final(self).lp_balance_of(k) == old(self).lp_balance_of(k),
            final(self).vault_unchanged_from(*old(self)),
            final(self).asset_a_id() == old(self).asset_a_id(),
            final(self).asset_b_id() == old(self).asset_b_id(),
    {
        proof {
            old(self).lp_shares.lemma_amount_le_total(account@);
        }
        self.reserve_a = nat_sub(&self.reserve_a, amount_a_out);
        self.reserve_b = nat_sub(&self.reserve_b, amount_b_out);
        self.total_lp = nat_sub(&self.total_lp, lp_amount);
        self.lp_shares.debit(account, lp_amount);
    }

    /// Validates a swap at call entry: positive amount, and the incoming
    /// token must be one of the two pool assets.
    pub fn swap_request(&self, token_in: &Vec<u8>, amount_in: &Nat) -> (r: Result<Asset, Error>)
        ensures
            match r {
                Ok(asset_in) => {
                    &&& nat_value(*amount_in) > 0
                    &&& if token_in@ == self.asset_a_id() {
                        asset_in == Asset::A
                    } else {
                        token_in@ == self.asset_b_id() && asset_in == Asset::B
                    }
                },
                Err(e) => {
                    if nat_value(*amount_in) == 0 {
                        e == Error::InvalidArgument
                    } else {
                        &&& e == Error::InvalidAsset
                        &&& token_in@ != self.asset_a_id()
                        &&& token_in@ != self.asset_b_id()
                    }
                },
            },
    {
        let zero = nat_from_u64(0);
        if nat_eq(amount_in, &zero) {
            return Err(Error::InvalidArgument);
        }
        if bytes_eq(token_in, &self.ledger_a_id) {
            Ok(Asset::A)
        } else if bytes_eq(token_in, &self.ledger_b_id) {
            Ok(Asset::B)
        } else {
            Err(Error::InvalidAsset)
        }
    }

    /// Prices a swap against the reserves as they stand now — after the
    /// inbound pull, deliberately not a snapshot from before it. The output
    /// is the constant-product formula on the fee-adjusted input; a pool
    /// empty on either side, a zero output, or an output below the caller's
    /// floor is rejected.
    pub fn swap_quote(&self, asset_in: Asset, amount_in: &Nat, min_amount_out: &Nat) -> (r: Result<
        Nat,
        Error,
    >)
        requires
            nat_value(*amount_in) > 0,
        ensures
            ({
                let r_in = self.reserve_in_value(asset_in);
                let r_out = self.reserve_out_value(asset_in);
                let out_spec = swap_output(r_in, r_out, nat_value(*amount_in));
                match r {
                    Ok(out) => {
                        &&& r_in > 0
                        &&& r_out > 0
                        &&& nat_value(out) == out_spec
                        &&& nat_value(out) > 0
                        &&& nat_value(out) >= nat_value(*min_amount_out)
                        &&& nat_value(out) < r_out
                    },
                    Err(e) => {
                        if r_in == 0 || r_out == 0 {
                            e == Error::NoLiquidity
                        } else if out_spec == 0 {
                            e == Error::ZeroAmountOut
                        } else if out_spec < nat_value(*min_amount_out) {
                            e == Error::SlippageExceeded
                        } else {
                            false
                        }
                    },
                }
            }),
    {
        let zero = nat_from_u64(0);
        let (reserve_in, reserve_out) = match asset_in {
            Asset::A => (nat_clone(&self.reserve_a), nat_clone(&self.reserve_b)),
            Asset::B => (nat_clone(&self.reserve_b), nat_clone(&self.reserve_a)),
        };
        if nat_eq(&reserve_in, &zero) || nat_eq(&reserve_out, &zero) {
            return Err(Error::NoLiquidity);
        }
        let fee_in = nat_div(&nat_mul(amount_in, &nat_from_u64(997)), &nat_from_u64(1000));
        let amount_out = nat_div(
            &nat_mul(&reserve_out, &fee_in),
            &nat_add(&reserve_in, &fee_in),
        );
        proof {
            lemma_swap_product_increases(
                nat_value(reserve_in),
                nat_value(reserve_out),
                nat_value(*amount_in),
            );
        }
        if nat_eq(&amount_out, &zero) {
            return Err(Error::ZeroAmountOut);
        }
        if nat_lt(&amount_out, min_amount_out) {
            return Err(Error::SlippageExceeded);
        }
        Ok(amount_out)
    }

    /// Settlement of a swap after the outbound push succeeded: the incoming
    /// reserve grows by the full input, the outgoing reserve shrinks by the
    /// payout. The caller must re-establish, after the suspension, that the
    /// payout is still strictly below the outgoing reserve.
    pub fn swap_commit(&mut self, asset_in: Asset, amount_in: &Nat, amount_out: &Nat)
        requires
            old(self).wf(),
            nat_value(*amount_in) > 0,
            nat_value(*amount_out) < old(self).reserve_out_value(asset_in),
        ensures
            final(self).wf(),
            final(self).reserve_in_value(asset_in) == old(self).reserve_in_value(asset_in)
                + nat_value(*amount_in),
            final(self).reserve_out_value(asset_in) == old(self).reserve_out_value(asset_in)
                - nat_value(*amount_out),
            final(self).total_lp_value() == old(self).total_lp_value(),
            forall|k: AccountKey| final(self).lp_balance_of(k) == old(self).lp_balance_of(k),
            final(self).vault_unchanged_from(*old(self)),
            final(self).asset_a_id() == old(self).asset_a_id(),
            final(self).asset_b_id() == old(self).asset_b_id(),
    {
        match asset_in {
            Asset::A => {
                self.reserve_a = nat_add(&self.reserve_a, amount_in);
                self.reserve_b = nat_sub(&self.reserve_b, amount_out);
            },
            Asset::B => {
                self.reserve_b = nat_add(&self.reserve_b, amount_in);
                self.reserve_a = nat_sub(&self.reserve_a, amount_out);
            },
        }
    }
}

} // verus!
