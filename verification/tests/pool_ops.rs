use candid::Nat;
use defi_backend::account::AccountId;
use defi_backend::service::{Asset, Error, Service, TransferOutcome};

const TOKEN_A: u8 = 0xaa;
const TOKEN_B: u8 = 0xbb;

fn pool_account(tag: u8) -> AccountId {
    AccountId { owner: vec![tag], subaccount: None }
}

fn pool_service() -> Service {
    Service::new(vec![TOKEN_A], vec![TOKEN_B])
}

fn add_liquidity(svc: &mut Service, who: &AccountId, a: u64, b: u64) -> Result<Nat, Error> {
    let amount_a = Nat::from(a);
    let amount_b = Nat::from(b);
    let snapshot = svc.add_liquidity_request(&amount_a, &amount_b)?;
    // Both pulls succeed in these scenarios.
    svc.add_liquidity_commit(who, &amount_a, &amount_b, &snapshot)
}

fn swap(svc: &mut Service, token_in: u8, amount_in: u64, min_out: u64) -> Result<Nat, Error> {
    let amount = Nat::from(amount_in);
    let asset_in = svc.swap_request(&vec![token_in], &amount)?;
    let out = svc.swap_quote(asset_in, &amount, &Nat::from(min_out))?;
    svc.swap_commit(asset_in, &amount, &out);
    Ok(out)
}

#[test]
fn first_mint_is_integer_sqrt_of_product() {
    let mut svc = pool_service();
    let alice = pool_account(1);
    let minted = add_liquidity(&mut svc, &alice, 1_000_000, 4_000_000).unwrap();
    assert_eq!(minted, 2_000_000u64);
    assert_eq!(svc.get_total_lp(), 2_000_000u64);
    assert_eq!(svc.get_lp_balance(&alice), 2_000_000u64);
    let (ra, rb) = svc.get_reserves();
    assert_eq!(ra, 1_000_000u64);
    assert_eq!(rb, 4_000_000u64);
}

#[test]
fn second_mint_is_proportional_minimum() {
    let mut svc = pool_service();
    let alice = pool_account(1);
    let bob = pool_account(2);
    add_liquidity(&mut svc, &alice, 1_000_000, 1_000_000).unwrap();
    let minted = add_liquidity(&mut svc, &bob, 500_000, 700_000).unwrap();
    // min(500_000 * 1_000_000 / 1_000_000, 700_000 * 1_000_000 / 1_000_000)
    assert_eq!(minted, 500_000u64);
    assert_eq!(svc.get_lp_balance(&bob), 500_000u64);
}

#[test]
fn lp_supply_equals_sum_of_entries_throughout() {
    let mut svc = pool_service();
    let alice = pool_account(1);
    let bob = pool_account(2);

    add_liquidity(&mut svc, &alice, 1_000_000, 1_000_000).unwrap();
    let sum = svc.get_lp_balance(&alice) + svc.get_lp_balance(&bob);
    assert_eq!(svc.get_total_lp(), sum);

    add_liquidity(&mut svc, &bob, 400_000, 600_000).unwrap();
    let sum = svc.get_lp_balance(&alice) + svc.get_lp_balance(&bob);
    assert_eq!(svc.get_total_lp(), sum);

    let burn = Nat::from(250_000u64);
    let (a_out, b_out) = svc.remove_liquidity_request(&alice, &burn).unwrap();
    svc.remove_liquidity_commit(&alice, &burn, &a_out, &b_out);
    let sum = svc.get_lp_balance(&alice) + svc.get_lp_balance(&bob);
    assert_eq!(svc.get_total_lp(), sum);
}

#[test]
fn zero_lp_mint_is_rejected_without_mutation() {
    let mut svc = pool_service();
    let alice = pool_account(1);
    let bob = pool_account(2);
    add_liquidity(&mut svc, &alice, 1_000_000_000, 1_000).unwrap();
    let total_before = svc.get_total_lp();
    let r = add_liquidity(&mut svc, &bob, 1, 1);
    assert_eq!(r, Err(Error::ZeroLpMinted));
    assert_eq!(svc.get_total_lp(), total_before);
    assert_eq!(svc.get_lp_balance(&bob), 0u64);
    let (ra, rb) = svc.get_reserves();
    assert_eq!(ra, 1_000_000_000u64);
    assert_eq!(rb, 1_000u64);
}

#[test]
fn mint_uses_values_snapshotted_at_call_entry() {
    let mut svc = pool_service();
    let alice = pool_account(1);
    let bob = pool_account(2);
    let amount_a = Nat::from(1_000_000u64);
    let amount_b = Nat::from(4_000_000u64);
    // Alice's operation snapshots the still-empty pool, then suspends on
    // its transfers; Bob's whole operation runs during that wait.
    let snapshot = svc.add_liquidity_request(&amount_a, &amount_b).unwrap();
    add_liquidity(&mut svc, &bob, 500_000, 500_000).unwrap();
    // Alice's settlement still mints from her snapshot: the bootstrap
    // square-root price, not a share of Bob's pool.
    let minted = svc.add_liquidity_commit(&alice, &amount_a, &amount_b, &snapshot).unwrap();
    assert_eq!(minted, 2_000_000u64);
    assert_eq!(svc.get_total_lp(), 2_500_000u64);
    let (ra, rb) = svc.get_reserves();
    assert_eq!(ra, 1_500_000u64);
    assert_eq!(rb, 4_500_000u64);
}

#[test]
fn add_liquidity_zero_amount_rejected() {
    let svc = pool_service();
    assert!(matches!(
        svc.add_liquidity_request(&Nat::from(0u64), &Nat::from(5u64)),
        Err(Error::InvalidArgument)
    ));
    assert!(matches!(
        svc.add_liquidity_request(&Nat::from(5u64), &Nat::from(0u64)),
        Err(Error::InvalidArgument)
    ));
}

#[test]
fn remove_liquidity_zero_amount_rejected() {
    let svc = pool_service();
    let alice = pool_account(1);
    assert_eq!(
        svc.remove_liquidity_request(&alice, &Nat::from(0u64)),
        Err(Error::InvalidArgument)
    );
}

#[test]
fn remove_liquidity_beyond_entry_rejected() {
    let mut svc = pool_service();
    let alice = pool_account(1);
    add_liquidity(&mut svc, &alice, 1_000_000, 1_000_000).unwrap();
    assert_eq!(
        svc.remove_liquidity_request(&alice, &Nat::from(1_000_001u64)),
        Err(Error::InsufficientShares)
    );
}

#[test]
fn remove_liquidity_zero_payout_rejected() {
    let mut svc = pool_service();
    let alice = pool_account(1);
    // sqrt(10 * 4_000_000) == 6324, so one share is worth less than one
    // unit on the A side.
    add_liquidity(&mut svc, &alice, 10, 4_000_000).unwrap();
    assert_eq!(
        svc.remove_liquidity_request(&alice, &Nat::from(1u64)),
        Err(Error::ZeroAmountOut)
    );
}

#[test]
fn liquidity_round_trip_restores_supply_and_entry() {
    let mut svc = pool_service();
    let alice = pool_account(1);
    let minted = add_liquidity(&mut svc, &alice, 1_000_000, 4_000_000).unwrap();
    let (a_out, b_out) = svc.remove_liquidity_request(&alice, &minted).unwrap();
    svc.remove_liquidity_commit(&alice, &minted, &a_out, &b_out);
    // No other depositor and no swap: the payouts are exact here.
    assert_eq!(a_out, 1_000_000u64);
    assert_eq!(b_out, 4_000_000u64);
    assert_eq!(svc.get_total_lp(), 0u64);
    assert_eq!(svc.get_lp_balance(&alice), 0u64);
}

#[test]
fn liquidity_round_trip_never_pays_more_than_added() {
    let mut svc = pool_service();
    let alice = pool_account(1);
    let bob = pool_account(2);
    add_liquidity(&mut svc, &alice, 1_000_000, 1_000_000).unwrap();
    let total_before = svc.get_total_lp();
    let minted = add_liquidity(&mut svc, &bob, 3_333, 7_777).unwrap();
    let (a_out, b_out) = svc.remove_liquidity_request(&bob, &minted).unwrap();
    svc.remove_liquidity_commit(&bob, &minted, &a_out, &b_out);
    assert!(a_out <= 3_333u64);
    assert!(b_out <= 7_777u64);
    assert_eq!(svc.get_total_lp(), total_before);
    assert_eq!(svc.get_lp_balance(&bob), 0u64);
}

#[test]
fn swap_pays_constant_product_output_with_fee() {
    let mut svc = pool_service();
    let alice = pool_account(1);
    add_liquidity(&mut svc, &alice, 1_000_000, 1_000_000).unwrap();
    let out = swap(&mut svc, TOKEN_A, 10_000, 0).unwrap();
    // fee-adjusted input: 10_000 * 997 / 1000 == 9_970;
    // output: 1_000_000 * 9_970 / (1_000_000 + 9_970) == 9_871.
    assert_eq!(out, 9_871u64);
    let (ra, rb) = svc.get_reserves();
    assert_eq!(ra, 1_010_000u64);
    assert_eq!(rb, 990_129u64);
}

#[test]
fn swap_direction_follows_token_in() {
    let mut svc = pool_service();
    let alice = pool_account(1);
    add_liquidity(&mut svc, &alice, 2_000_000, 1_000_000).unwrap();
    let asset = svc.swap_request(&vec![TOKEN_B], &Nat::from(5_000u64)).unwrap();
    assert_eq!(asset, Asset::B);
    let out = swap(&mut svc, TOKEN_B, 5_000, 0).unwrap();
    let (ra, rb) = svc.get_reserves();
    assert_eq!(rb, 1_005_000u64);
    assert_eq!(ra.clone() + out, 2_000_000u64);
}

#[test]
fn swap_product_never_decreases() {
    let mut svc = pool_service();
    let alice = pool_account(1);
    add_liquidity(&mut svc, &alice, 1_000_000, 1_000_000).unwrap();
    let mut product = {
        let (ra, rb) = svc.get_reserves();
        ra * rb
    };
    for (token, amount) in [
        (TOKEN_A, 10_000u64),
        (TOKEN_B, 2_500),
        (TOKEN_A, 777),
        (TOKEN_B, 123_456),
        (TOKEN_A, 1_000),
    ] {
        swap(&mut svc, token, amount, 0).unwrap();
        let (ra, rb) = svc.get_reserves();
        let next = ra * rb;
        // The 0.3% fee makes the product strictly grow on every trade.
        assert!(next > product);
        product = next;
    }
}

#[test]
fn swap_slippage_above_output_rejected_without_mutation() {
    let mut svc = pool_service();
    let alice = pool_account(1);
    add_liquidity(&mut svc, &alice, 1_000_000, 1_000_000).unwrap();
    let amount = Nat::from(10_000u64);
    let asset = svc.swap_request(&vec![TOKEN_A], &amount).unwrap();
    // The true output is 9_871; one more must be rejected.
    let r = svc.swap_quote(asset, &amount, &Nat::from(9_872u64));
    assert_eq!(r, Err(Error::SlippageExceeded));
    let (ra, rb) = svc.get_reserves();
    assert_eq!(ra, 1_000_000u64);
    assert_eq!(rb, 1_000_000u64);
    // At exactly the output the swap goes through.
    let out = svc.swap_quote(asset, &amount, &Nat::from(9_871u64)).unwrap();
    assert_eq!(out, 9_871u64);
}

#[test]
fn swap_zero_amount_rejected() {
    let svc = pool_service();
    assert_eq!(
        svc.swap_request(&vec![TOKEN_A], &Nat::from(0u64)),
        Err(Error::InvalidArgument)
    );
}

#[test]
fn swap_unknown_token_rejected() {
    let svc = pool_service();
    assert_eq!(
        svc.swap_request(&vec![0x99], &Nat::from(10u64)),
        Err(Error::InvalidAsset)
    );
}

#[test]
fn swap_on_empty_pool_rejected() {
    let svc = pool_service();
    let asset = svc.swap_request(&vec![TOKEN_A], &Nat::from(10u64)).unwrap();
    assert_eq!(
        svc.swap_quote(asset, &Nat::from(10u64), &Nat::from(0u64)),
        Err(Error::NoLiquidity)
    );
}

#[test]
fn swap_rounding_to_zero_rejected() {
    let mut svc = pool_service();
    let alice = pool_account(1);
    add_liquidity(&mut svc, &alice, 1_000_000, 1_000_000).unwrap();
    // 1 * 997 / 1000 == 0: nothing to price.
    let asset = svc.swap_request(&vec![TOKEN_A], &Nat::from(1u64)).unwrap();
    assert_eq!(
        svc.swap_quote(asset, &Nat::from(1u64), &Nat::from(0u64)),
        Err(Error::ZeroAmountOut)
    );
}

#[test]
fn pool_and_vault_do_not_interfere() {
    let mut svc = pool_service();
    let alice = pool_account(1);
    svc.deposit_commit(&alice, &Nat::from(42u64), TransferOutcome::Receipt(Nat::from(1u64)))
        .unwrap();
    add_liquidity(&mut svc, &alice, 1_000_000, 1_000_000).unwrap();
    swap(&mut svc, TOKEN_A, 10_000, 0).unwrap();
    assert_eq!(svc.balance(&alice), 42u64);
}
