//! The liquidity pool, with a bank that performs the transfers it asks for.

use std::collections::HashMap;

use stello_contracts::arith::isqrt;
use stello_contracts::host::{Address, Invocation, Receipt, Transfer};
use stello_contracts::lp_pool::model::{LpAccount, PoolError, PoolEvent, SwapQuote};
use stello_contracts::lp_pool::twap::TwapSample;
use stello_contracts::lp_pool::{credit, quote_deposit, quote_swap, LpPoolContract};

const CONTRACT: Address = Address { id: 0 };
const ADMIN: Address = Address { id: 1 };
const USER: Address = Address { id: 2 };
const USER2: Address = Address { id: 3 };
const SXLM: Address = Address { id: 4 };
const NATIVE: Address = Address { id: 5 };

struct World {
    env: soroban_sdk::Env,
    pool: LpPoolContract,
    ledger: u32,
    bank: HashMap<(u32, u32), i128>,
}

impl World {
    fn bare() -> World {
        let env = soroban_sdk::Env::default();
        let pool = LpPoolContract::new(&env);
        World { env, pool, ledger: 0, bank: HashMap::new() }
    }

    fn inv(&self) -> Invocation {
        Invocation { env: self.env.clone(), contract: CONTRACT, ledger: self.ledger }
    }

    fn balance(&self, token: Address, holder: Address) -> i128 {
        *self.bank.get(&(token.id, holder.id)).unwrap_or(&0)
    }

    fn mint(&mut self, token: Address, holder: Address, amount: i128) {
        *self.bank.entry((token.id, holder.id)).or_insert(0) += amount;
    }

    fn transfer(&mut self, t: &Transfer) {
        assert!(t.amount >= 0);
        assert!(self.balance(t.token, t.from) >= t.amount, "balance is not sufficient");
        self.mint(t.token, t.from, -t.amount);
        self.mint(t.token, t.to, t.amount);
    }

    fn settle<T>(&mut self, r: Result<Receipt<T, PoolEvent>, PoolError>) -> T {
        match r {
            Ok(receipt) => {
                for t in receipt.transfers.iter() {
                    self.transfer(t);
                }
                receipt.value
            }
            Err(e) => panic!("{}", e.message()),
        }
    }

    fn add_liquidity(&mut self, user: Address, xlm: i128, sxlm: i128) -> i128 {
        let inv = self.inv();
        let r = self.pool.add_liquidity(&inv, user, xlm, sxlm);
        self.settle(r)
    }

    fn remove_liquidity(&mut self, user: Address, lp: i128) -> (i128, i128) {
        let inv = self.inv();
        let r = self.pool.remove_liquidity(&inv, user, lp);
        self.settle(r)
    }

    fn swap_xlm_to_sxlm(&mut self, user: Address, amount: i128, min_out: i128) -> i128 {
        let inv = self.inv();
        let r = self.pool.swap_xlm_to_sxlm(&inv, user, amount, min_out);
        self.settle(r)
    }

    fn swap_sxlm_to_xlm(&mut self, user: Address, amount: i128, min_out: i128) -> i128 {
        let inv = self.inv();
        let r = self.pool.swap_sxlm_to_xlm(&inv, user, amount, min_out);
        self.settle(r)
    }

    fn fund_mining_rewards(&mut self, funder: Address, amount: i128) {
        let inv = self.inv();
        let r = self.pool.fund_mining_rewards(&inv, funder, amount);
        self.settle(r)
    }

    fn set_mining_rate(&mut self, admin: Address, rate: i128) {
        let inv = self.inv();
        let r = self.pool.set_mining_rate(&inv, admin, rate);
        self.settle(r)
    }

    fn claim_mining_rewards(&mut self, user: Address) -> i128 {
        let inv = self.inv();
        let r = self.pool.claim_mining_rewards(&inv, user);
        self.settle(r)
    }

    fn pending(&self, user: Address) -> i128 {
        self.pool.get_pending_rewards(&self.inv(), user).unwrap()
    }

    fn twap(&self, period: u32) -> i128 {
        self.pool.get_twap(&self.inv(), period).unwrap()
    }

    fn price(&self) -> i128 {
        self.pool.get_price().unwrap()
    }

    /// The pool's books agree with what it holds.
    fn check_books(&self) {
        let (_, vault, _) = self.pool.get_mining_stats();
        let (rx, rs) = self.pool.get_reserves();
        assert_eq!(self.balance(NATIVE, CONTRACT), rx + vault + self.pool.accrued_protocol_fees());
        assert_eq!(self.balance(SXLM, CONTRACT), rs);
    }
}

fn setup_with_fee(fee_bps: u32) -> World {
    let mut w = World::bare();
    let inv = w.inv();
    let r = w.pool.initialize(&inv, ADMIN, SXLM, NATIVE, fee_bps);
    w.settle(r);
    w.mint(SXLM, USER, 1_000_000_0000000);
    w.mint(NATIVE, USER, 1_000_000_0000000);
    w
}

fn setup_test() -> World {
    setup_with_fee(30)
}

#[test]
fn test_initialize() {
    let w = setup_test();
    let (rx, rs) = w.pool.get_reserves();
    assert_eq!(rx, 0);
    assert_eq!(rs, 0);
    assert_eq!(w.pool.total_lp_supply(), 0);
}

#[test]
fn test_add_liquidity_first() {
    let mut w = setup_test();

    let lp = w.add_liquidity(USER, 10_000_0000000, 10_000_0000000);
    assert!(lp > 0);
    assert_eq!(w.pool.get_lp_balance(USER), lp);
    assert_eq!(w.pool.total_lp_supply(), lp);

    let (rx, rs) = w.pool.get_reserves();
    assert_eq!(rx, 10_000_0000000);
    assert_eq!(rs, 10_000_0000000);
}

#[test]
fn test_add_and_remove_liquidity() {
    let mut w = setup_test();

    let lp = w.add_liquidity(USER, 10_000_0000000, 10_000_0000000);
    let (xlm_out, sxlm_out) = w.remove_liquidity(USER, lp / 2);
    assert!(xlm_out > 0);
    assert!(sxlm_out > 0);
}

#[test]
fn test_swap_xlm_to_sxlm() {
    let mut w = setup_test();

    w.add_liquidity(USER, 100_000_0000000, 100_000_0000000);
    let sxlm_out = w.swap_xlm_to_sxlm(USER, 1_000_0000000, 0);
    assert!(sxlm_out > 0);
    assert!(sxlm_out < 1_000_0000000);
}

#[test]
fn test_swap_sxlm_to_xlm() {
    let mut w = setup_test();

    w.add_liquidity(USER, 100_000_0000000, 100_000_0000000);
    let xlm_out = w.swap_sxlm_to_xlm(USER, 1_000_0000000, 0);
    assert!(xlm_out > 0);
    assert!(xlm_out < 1_000_0000000);
}

#[test]
fn test_get_price() {
    let mut w = setup_test();

    w.add_liquidity(USER, 100_000_0000000, 100_000_0000000);
    let price = w.price();
    assert_eq!(price, 10_000_000); // 1:1
}

#[test]
fn test_price_changes_after_swap() {
    let mut w = setup_test();

    w.add_liquidity(USER, 100_000_0000000, 100_000_0000000);
    w.swap_xlm_to_sxlm(USER, 10_000_0000000, 0);

    let price = w.price();
    assert!(price > 10_000_000);
}

#[test]
fn test_constant_product_invariant() {
    let mut w = setup_test();

    w.add_liquidity(USER, 100_000_0000000, 100_000_0000000);
    let (rx0, rs0) = w.pool.get_reserves();
    let k_before = rx0 * rs0;

    w.swap_xlm_to_sxlm(USER, 5_000_0000000, 0);
    let (rx1, rs1) = w.pool.get_reserves();
    let k_after = rx1 * rs1;

    assert!(k_after >= k_before);
}

#[test]
fn test_protocol_fee_collection() {
    let mut w = setup_test();

    w.add_liquidity(USER, 100_000_0000000, 100_000_0000000);
    assert_eq!(w.pool.accrued_protocol_fees(), 0);
    assert_eq!(w.pool.protocol_fee_bps(), 5);

    w.swap_xlm_to_sxlm(USER, 10_000_0000000, 0);

    let accrued = w.pool.accrued_protocol_fees();
    assert!(accrued > 0);
    assert_eq!(accrued, 5_0000000);

    let admin_before = w.balance(NATIVE, ADMIN);
    let inv = w.inv();
    let r = w.pool.collect_protocol_fees(&inv);
    let collected = w.settle(r);
    let admin_after = w.balance(NATIVE, ADMIN);

    assert_eq!(collected, accrued);
    assert_eq!(admin_after - admin_before, accrued);
    assert_eq!(w.pool.accrued_protocol_fees(), 0);
}

#[test]
fn test_sxlm_to_xlm_no_protocol_fee() {
    let mut w = setup_test();

    w.add_liquidity(USER, 100_000_0000000, 100_000_0000000);
    w.swap_sxlm_to_xlm(USER, 10_000_0000000, 0);
    assert_eq!(w.pool.accrued_protocol_fees(), 0);
}

// ---------------------------------------------------------------------------
// TWAP
// ---------------------------------------------------------------------------

#[test]
fn test_twap_records_samples_on_swap() {
    let mut w = setup_test();

    w.add_liquidity(USER, 100_000_0000000, 100_000_0000000);

    // No samples before first swap
    assert_eq!(w.pool.get_twap_samples().len(), 0);

    w.swap_xlm_to_sxlm(USER, 1_000_0000000, 0);
    assert_eq!(w.pool.get_twap_samples().len(), 1);

    // Advance ledger and do another swap
    w.ledger += 100;
    w.swap_sxlm_to_xlm(USER, 500_0000000, 0);
    assert_eq!(w.pool.get_twap_samples().len(), 2);
}

#[test]
fn test_twap_equals_spot_with_one_sample() {
    let mut w = setup_test();

    w.add_liquidity(USER, 100_000_0000000, 100_000_0000000);
    w.swap_xlm_to_sxlm(USER, 1_000_0000000, 0);

    // With a single sample, TWAP should equal that sample's price
    let twap = w.twap(720);
    let spot = w.price();
    // They should be very close (TWAP includes tail segment to current ledger)
    assert!(twap > 0);
    // Both should be > 1:1 since we swapped XLM in
    assert!(twap > 10_000_000);
    assert_eq!(spot, twap); // only one sample, tail weight = 0
}

#[test]
fn test_twap_time_weighted_average() {
    let mut w = setup_test();

    w.add_liquidity(USER, 100_000_0000000, 100_000_0000000);

    // Swap 1: creates sample at current ledger (price slightly > 1e7)
    w.swap_xlm_to_sxlm(USER, 10_000_0000000, 0);
    let price_after_swap1 = w.price();

    // Advance 600 ledgers (~50 min) then swap sXLM to XLM
    w.ledger += 600;
    w.swap_sxlm_to_xlm(USER, 10_000_0000000, 0);
    let price_after_swap2 = w.price();

    // Advance 120 more ledgers then get TWAP over 720-ledger window
    w.ledger += 120;
    let twap = w.twap(720);

    // TWAP should be between the two prices (time-weighted)
    let low = price_after_swap1.min(price_after_swap2);
    let high = price_after_swap1.max(price_after_swap2);
    assert!(twap >= low && twap <= high, "TWAP {twap} not in range [{low}, {high}]");
    assert_eq!(twap, (price_after_swap1 * 600 + price_after_swap2 * 120) / 720);
}

#[test]
fn twap_samples_hold_ledger_and_price() {
    let mut w = setup_test();
    w.add_liquidity(USER, 100_000_0000000, 100_000_0000000);
    w.ledger = 17;
    w.swap_xlm_to_sxlm(USER, 10_000_0000000, 0);
    assert_eq!(w.pool.get_twap_samples(), vec![TwapSample { ledger: 17, price: 12_096_150 }]);

    // A second swap in the same ledger replaces the sample.
    w.swap_sxlm_to_xlm(USER, 10_000_0000000, 0);
    let samples = w.pool.get_twap_samples();
    assert_eq!(samples.len(), 1);
    assert_eq!(samples[0].ledger, 17);
    assert_eq!(samples[0].price, w.price());
}

#[test]
fn twap_buffer_drops_the_oldest_sample() {
    let mut w = setup_test();
    w.add_liquidity(USER, 100_000_0000000, 100_000_0000000);
    for i in 0..105u32 {
        w.ledger = 10 + i;
        if i % 2 == 0 {
            w.swap_xlm_to_sxlm(USER, 1_0000000, 0);
        } else {
            w.swap_sxlm_to_xlm(USER, 1_0000000, 0);
        }
    }
    let samples = w.pool.get_twap_samples();
    assert_eq!(samples.len(), 100);
    assert_eq!(samples[0].ledger, 15);
    assert_eq!(samples[99].ledger, 114);
    for i in 1..100 {
        assert!(samples[i - 1].ledger < samples[i].ledger);
    }
}

#[test]
fn twap_is_spot_with_fewer_than_two_samples_in_the_window() {
    let mut w = setup_test();
    w.add_liquidity(USER, 100_000_0000000, 100_000_0000000);
    assert_eq!(w.twap(720), 10_000_000);
    w.swap_xlm_to_sxlm(USER, 10_000_0000000, 0);
    w.ledger += 500;
    w.swap_sxlm_to_xlm(USER, 10_000_0000000, 0);
    w.ledger += 100;
    // Only the second sample is within 200 ledgers.
    assert_eq!(w.twap(200), w.price());
    assert_ne!(w.twap(720), w.price());
}

#[test]
fn twap_counts_a_seed_from_before_the_window() {
    let mut w = setup_test();
    w.add_liquidity(USER, 100_000_0000000, 100_000_0000000);
    let mut prices: Vec<i128> = Vec::new();
    for l in [100u32, 200, 300] {
        w.ledger = l;
        w.swap_xlm_to_sxlm(USER, 5_000_0000000, 0);
        prices.push(w.price());
    }
    w.ledger = 350;
    // The window begins at 150: the first price holds for its first 50 ledgers.
    let expected = (prices[0] * 50 + prices[1] * 100 + prices[2] * 50) / 200;
    assert_eq!(w.twap(200), expected);
    let low = *prices.iter().min().unwrap();
    let high = *prices.iter().max().unwrap();
    assert!(low <= w.twap(200) && w.twap(200) <= high);
}

#[test]
fn twap_before_the_first_sample_is_its_price() {
    let mut w = setup_test();
    w.add_liquidity(USER, 100_000_0000000, 100_000_0000000);
    let mut prices: Vec<i128> = Vec::new();
    for l in [100u32, 200] {
        w.ledger = l;
        w.swap_xlm_to_sxlm(USER, 5_000_0000000, 0);
        prices.push(w.price());
    }
    w.ledger = 250;
    let expected = (prices[0] * 200 + prices[1] * 50) / 250;
    assert_eq!(w.twap(1000), expected);
    assert!(prices[0] <= w.twap(1000) && w.twap(1000) <= prices[1]);
}

/// A pool at `ledger` with the given samples.
fn with_samples(ledger: u32, samples: &[(u32, i128)]) -> World {
    let mut w = setup_test();
    for s in samples {
        w.pool.samples.push_back(*s);
    }
    w.ledger = ledger;
    w
}

#[test]
fn twap_weighs_only_the_window() {
    let w = with_samples(720, &[(0, 10_000_000), (600, 16_000_000), (700, 16_000_000)]);
    // The window is 480..720: 120 ledgers at each price.
    assert_eq!(w.twap(240), 13_000_000);
    // 600 ledgers at the first price and 120 at the second.
    assert_eq!(w.twap(720), 11_000_000);
    assert_eq!(w.twap(5000), 11_000_000);
    // The second and third sample only.
    assert_eq!(w.twap(120), 16_000_000);
}

#[test]
fn twap_of_a_steady_price_is_that_price() {
    let w = with_samples(500, &[(200, 10_000_000), (300, 10_000_000), (400, 10_000_000)]);
    for period in [200u32, 250, 400, 500, 1000] {
        assert_eq!(w.twap(period), 10_000_000);
    }
}

#[test]
fn twap_that_does_not_fit_is_an_error() {
    let w = with_samples(300, &[(100, i128::MAX / 50), (200, i128::MAX / 50)]);
    assert_eq!(w.pool.get_twap(&w.inv(), 300), Err(PoolError::Arithmetic));
    let w = with_samples(300, &[(100, i128::MAX / 300), (200, i128::MAX / 300)]);
    assert_eq!(w.twap(300), i128::MAX / 300);
}

// ---------------------------------------------------------------------------
// Liquidity mining
// ---------------------------------------------------------------------------

#[test]
fn test_liquidity_mining_basic() {
    let mut w = setup_test();

    // Fund the reward vault (1000 XLM)
    w.mint(NATIVE, ADMIN, 1_000_0000000);
    w.fund_mining_rewards(ADMIN, 1_000_0000000);
    let (_, vault, _) = w.pool.get_mining_stats();
    assert_eq!(vault, 1_000_0000000);

    // Set mining rate: 1_000_000 reward units per ledger for the whole pool
    w.set_mining_rate(ADMIN, 1_000_000);

    // User provides liquidity
    w.add_liquidity(USER, 100_000_0000000, 100_000_0000000);

    // Advance 100 ledgers
    w.ledger += 100;

    // Check pending rewards
    let pending = w.pending(USER);
    assert!(pending > 0, "should have accrued rewards");
    assert_eq!(pending, 100 * 1_000_000);

    // Claim
    let user_balance_before = w.balance(NATIVE, USER);
    let claimed = w.claim_mining_rewards(USER);
    let user_balance_after = w.balance(NATIVE, USER);

    assert!(claimed > 0);
    assert_eq!(user_balance_after - user_balance_before, claimed);
    assert_eq!(w.pending(USER), 0);
}

#[test]
fn settling_rewards_changes_nobodys_pending_rewards() {
    let mut w = setup_test();
    w.mint(SXLM, USER2, 1_000_000_0000000);
    w.mint(NATIVE, USER2, 1_000_000_0000000);
    w.mint(NATIVE, ADMIN, 1_000_0000000);
    w.fund_mining_rewards(ADMIN, 1_000_0000000);
    w.set_mining_rate(ADMIN, 1_000_003);
    w.add_liquidity(USER, 200_000_0000000, 200_000_0000000);
    w.add_liquidity(USER2, 100_000_0000000, 100_000_0000000);
    w.ledger += 77;
    let pending = (w.pending(USER), w.pending(USER2));
    assert!(pending.0 > 0 && pending.1 > 0);
    w.add_liquidity(USER, 10_000_0000000, 10_000_0000000);
    assert_eq!((w.pending(USER), w.pending(USER2)), pending);
    w.remove_liquidity(USER2, 50_000_0000000);
    assert_eq!((w.pending(USER), w.pending(USER2)), pending);
    w.set_mining_rate(ADMIN, 5);
    assert_eq!((w.pending(USER), w.pending(USER2)), pending);
    w.swap_xlm_to_sxlm(USER, 1_000_0000000, 0);
    assert_eq!((w.pending(USER), w.pending(USER2)), pending);
    let claimed = w.claim_mining_rewards(USER);
    assert_eq!(claimed, pending.0);
    assert_eq!((w.pending(USER), w.pending(USER2)), (0, pending.1));
}

#[test]
fn test_mining_rewards_proportional_to_lp_share() {
    let mut w = setup_test();
    w.mint(SXLM, USER2, 1_000_000_0000000);
    w.mint(NATIVE, USER2, 1_000_000_0000000);

    w.mint(NATIVE, ADMIN, 10_000_0000000);
    w.fund_mining_rewards(ADMIN, 10_000_0000000);
    w.set_mining_rate(ADMIN, 10_000_000); // higher rate for clear numbers

    // user1 provides 2x the liquidity of user2
    w.add_liquidity(USER, 200_000_0000000, 200_000_0000000);
    w.add_liquidity(USER2, 100_000_0000000, 100_000_0000000);

    w.ledger += 300;

    let pending1 = w.pending(USER);
    let pending2 = w.pending(USER2);

    assert!(pending1 > 0 && pending2 > 0);
    // user1 has ~2x the LP share, should earn ~2x rewards
    // (within rounding tolerance)
    let ratio = pending1 * 100 / pending2;
    assert!(ratio >= 190 && ratio <= 210, "ratio {ratio} should be ~200");
    // Together they earn no more than was given out.
    assert!(pending1 + pending2 <= 300 * 10_000_000);
}

#[test]
fn test_set_mining_rate_governance() {
    let mut w = setup_test();

    w.set_mining_rate(ADMIN, 5_000_000);
    let (rate, _, _) = w.pool.get_mining_stats();
    assert_eq!(rate, 5_000_000);

    // Update rate
    w.set_mining_rate(ADMIN, 2_000_000);
    let (rate2, _, _) = w.pool.get_mining_stats();
    assert_eq!(rate2, 2_000_000);
    assert_eq!(w.pool.get_mining_rate(), 2_000_000);
}

#[test]
fn test_rewards_stop_when_vault_empty() {
    let mut w = setup_test();

    // Fund with small amount
    w.mint(NATIVE, ADMIN, 100);
    w.fund_mining_rewards(ADMIN, 100);
    w.set_mining_rate(ADMIN, 1_000_000);

    w.add_liquidity(USER, 100_000_0000000, 100_000_0000000);

    w.ledger += 1000;

    // Should claim up to vault balance
    let claimed = w.claim_mining_rewards(USER);
    assert_eq!(claimed, 100); // capped by vault
    let (_, vault, _) = w.pool.get_mining_stats();
    assert_eq!(vault, 0);
    // The rest stays pending, and there is nothing to pay it from.
    assert_eq!(w.pending(USER), 1000 * 1_000_000 - 100);
    let inv = w.inv();
    assert_eq!(
        w.pool.claim_mining_rewards(&inv, USER).unwrap_err(),
        PoolError::RewardVaultEmpty
    );
}

#[test]
fn rewards_follow_the_rate_of_their_time() {
    let mut w = setup_test();
    w.mint(NATIVE, ADMIN, 1_000_0000000);
    w.fund_mining_rewards(ADMIN, 1_000_0000000);
    w.set_mining_rate(ADMIN, 100);
    w.add_liquidity(USER, 1_0000000, 1_0000000);
    w.ledger += 10;
    w.set_mining_rate(ADMIN, 7);
    w.ledger += 10;
    assert_eq!(w.pending(USER), 10 * 100 + 10 * 7);
    w.set_mining_rate(ADMIN, 0);
    w.ledger += 1000;
    assert_eq!(w.pending(USER), 10 * 100 + 10 * 7);
    assert_eq!(w.claim_mining_rewards(USER), 1070);
    assert_eq!(w.claim_mining_rewards(USER), 0);
    w.check_books();
}

#[test]
fn rewards_are_kept_when_liquidity_leaves() {
    let mut w = setup_test();
    w.mint(NATIVE, ADMIN, 1_000_0000000);
    w.fund_mining_rewards(ADMIN, 1_000_0000000);
    w.set_mining_rate(ADMIN, 100);
    let lp = w.add_liquidity(USER, 1_0000000, 1_0000000);
    w.ledger += 10;
    w.remove_liquidity(USER, lp);
    w.ledger += 10;
    assert_eq!(w.pending(USER), 1000);
    assert_eq!(w.claim_mining_rewards(USER), 1000);
}

#[test]
fn credit_moves_the_checkpoint() {
    let account = LpAccount { balance: 30_000_000, reward_paid: 5, pending_rewards: 7 };
    assert_eq!(
        credit(account, 9),
        Some(LpAccount { balance: 30_000_000, reward_paid: 9, pending_rewards: 19 })
    );
    assert_eq!(
        credit(account, 3),
        Some(LpAccount { balance: 30_000_000, reward_paid: 3, pending_rewards: 7 })
    );
    assert_eq!(credit(account, i128::MAX), None);
}

// ---------------------------------------------------------------------------
// Quotes
// ---------------------------------------------------------------------------

#[test]
fn first_deposit_mints_the_geometric_mean() {
    let q = quote_deposit(0, 0, 0, 400, 900).unwrap();
    assert_eq!((q.xlm, q.sxlm, q.lp), (400, 900, 600));
    assert_eq!(quote_deposit(0, 0, 0, i128::MAX, 2), None);
    assert_eq!(quote_deposit(0, 0, 0, i128::MAX, 1), None);
}

#[test]
fn later_deposits_keep_the_price() {
    // 1000 LP on 2000 XLM and 500 sXLM.
    let q = quote_deposit(1000, 2000, 500, 200, 100).unwrap();
    assert_eq!((q.xlm, q.sxlm, q.lp), (200, 50, 100));
    let q = quote_deposit(1000, 2000, 500, 900, 100).unwrap();
    assert_eq!((q.xlm, q.sxlm, q.lp), (400, 100, 200));
}

#[test]
fn swap_quote_takes_the_fee_first() {
    let m = 100_000_0000000;
    let q = quote_swap(30, m, m, 1_000_0000000, 0);
    assert_eq!(q, Ok(SwapQuote { kept: 9_970_000_000, out: 9_871_580_344 }));
    assert_eq!(quote_swap(30, m, m, 0, 0), Err(PoolError::AmountNotPositive));
    assert_eq!(quote_swap(30, 0, m, 5, 0), Err(PoolError::NoLiquidity));
    assert_eq!(quote_swap(30, m, 1, 5, 0), Err(PoolError::InsufficientLiquidity));
    assert_eq!(quote_swap(30, m, m, 1_000_0000000, 9_871_580_345), Err(PoolError::Slippage));
    assert_eq!(quote_swap(30, m, m, i128::MAX, 0), Err(PoolError::Arithmetic));
}

#[test]
fn square_roots() {
    for (n, r) in [(-5i128, 0i128), (0, 0), (1, 1), (2, 1), (3, 1), (4, 2), (99, 9), (100, 10)] {
        assert_eq!(isqrt(n), r);
    }
    assert_eq!(isqrt(10_000_0000000 * 10_000_0000000), 10_000_0000000);
    let r = isqrt(i128::MAX - 1);
    assert_eq!(r, 13_043_817_825_332_782_212);
}

// ---------------------------------------------------------------------------
// What holds throughout
// ---------------------------------------------------------------------------

#[test]
fn swap_moves_reserves_and_fees() {
    let mut w = setup_test();
    w.add_liquidity(USER, 100_000_0000000, 100_000_0000000);
    let out = w.swap_xlm_to_sxlm(USER, 1_000_0000000, 9_871_580_344);
    assert_eq!(out, 9_871_580_344);
    assert_eq!(w.pool.get_reserves(), (1_009_995_000_000, 990_128_419_656));
    assert_eq!(w.pool.accrued_protocol_fees(), 5_000_000);
    w.check_books();
}

#[test]
fn going_in_and_out_gains_nothing() {
    let mut w = setup_test();
    w.mint(SXLM, USER2, 1_000_000_0000000);
    w.mint(NATIVE, USER2, 1_000_000_0000000);
    w.add_liquidity(USER, 100_000_0000000, 37_000_0000003);
    w.swap_xlm_to_sxlm(USER, 333_3333333, 0);
    let xlm = w.balance(NATIVE, USER2);
    let sxlm = w.balance(SXLM, USER2);
    let lp = w.add_liquidity(USER2, 1_234_5678901, 777_7777777);
    assert_eq!(w.pool.get_lp_balance(USER) + lp, w.pool.total_lp_supply());
    w.remove_liquidity(USER2, lp);
    assert!(w.balance(NATIVE, USER2) <= xlm);
    assert!(w.balance(SXLM, USER2) <= sxlm);
    w.check_books();
}

#[test]
fn going_in_and_out_gains_nothing_under_a_high_protocol_fee() {
    let mut w = setup_with_fee(1);
    w.mint(SXLM, USER2, 1_000_000_0000000);
    w.mint(NATIVE, USER2, 1_000_000_0000000);
    w.add_liquidity(USER, 100_000_0000000, 37_000_0000003);
    // A fee of 1 XLM, and five times as much for the protocol.
    w.swap_xlm_to_sxlm(USER, 10_000_0000000, 0);
    assert_eq!(w.pool.accrued_protocol_fees(), 5_0000000);
    assert_eq!(w.pool.get_reserves().0, 109_995_0000000);
    let xlm = w.balance(NATIVE, USER2);
    let sxlm = w.balance(SXLM, USER2);
    let lp = w.add_liquidity(USER2, 1_234_5678901, 777_7777777);
    w.remove_liquidity(USER2, lp);
    assert!(w.balance(NATIVE, USER2) <= xlm);
    assert!(w.balance(SXLM, USER2) <= sxlm);
    w.check_books();
}

#[test]
fn last_provider_takes_everything() {
    let mut w = setup_test();
    let lp = w.add_liquidity(USER, 100_000_0000000, 37_000_0000003);
    let (x, s) = w.pool.get_reserves();
    assert_eq!(w.remove_liquidity(USER, lp), (x, s));
    assert_eq!(w.pool.get_reserves(), (0, 0));
    assert_eq!(w.pool.total_lp_supply(), 0);
}

#[test]
fn product_never_falls_by_more_than_rounding() {
    let mut w = setup_test();
    w.add_liquidity(USER, 100_000_0000000, 37_000_0000003);
    for i in 1..40i128 {
        let (x0, s0) = w.pool.get_reserves();
        if i % 3 == 0 {
            w.swap_sxlm_to_xlm(USER, i * 7_777_777, 0);
            let (x1, s1) = w.pool.get_reserves();
            assert!((x1 + 1) * s1 > x0 * s0);
        } else {
            w.swap_xlm_to_sxlm(USER, i * 7_777_777, 0);
            let (x1, s1) = w.pool.get_reserves();
            assert!(x1 * (s1 + 1) > x0 * s0);
        }
    }
    w.check_books();
}

#[test]
fn receipts_say_who_has_to_authorize() {
    let mut w = setup_test();
    let inv = w.inv();
    let r = w.pool.add_liquidity(&inv, USER, 100, 100).unwrap();
    assert_eq!(r.auth, Some(USER));
    assert_eq!(
        r.transfers,
        vec![
            Transfer { token: NATIVE, from: USER, to: CONTRACT, amount: 100 },
            Transfer { token: SXLM, from: USER, to: CONTRACT, amount: 100 },
        ]
    );
    assert_eq!(
        r.events,
        vec![PoolEvent::LiquidityAdded { user: USER, xlm: 100, sxlm: 100, lp: 100 }]
    );
    assert_eq!(r.events[0].topic(), "add_liq");
    let r = w.pool.remove_liquidity(&inv, USER, 40).unwrap();
    assert_eq!(r.auth, Some(USER));
    assert_eq!(
        r.events,
        vec![PoolEvent::LiquidityRemoved { user: USER, lp: 40, xlm: 40, sxlm: 40 }]
    );
    assert_eq!(r.events[0].topic(), "rm_liq");
    let r = w.pool.set_protocol_fee_bps(11).unwrap();
    assert_eq!(r.auth, Some(ADMIN));
    assert_eq!(w.pool.protocol_fee_bps(), 11);
    let r = w.pool.collect_protocol_fees(&inv).unwrap();
    assert_eq!((r.auth, r.value, r.transfers.len(), r.events.len()), (Some(ADMIN), 0, 0, 0));
    let r = w.pool.upgrade([7; 32]).unwrap();
    assert_eq!((r.auth, r.value), (Some(ADMIN), [7; 32]));
    let e = w.pool.bump_instance();
    assert_eq!((e.threshold, e.extend_to), (100_800, 518_400));
}

#[test]
fn topics_of_the_other_events() {
    assert_eq!(PoolEvent::Swapped { user: USER, amount_in: 1, amount_out: 1 }.topic(), "swap");
    assert_eq!(PoolEvent::FeesCollected { admin: ADMIN, amount: 1 }.topic(), "pf_col");
    assert_eq!(PoolEvent::MiningRateSet { rate: 1 }.topic(), "mine_rt");
    assert_eq!(PoolEvent::MiningFunded { funder: USER, amount: 1 }.topic(), "mine_fd");
    assert_eq!(PoolEvent::RewardsClaimed { user: USER, amount: 1 }.topic(), "mine_cl");
}

// ---------------------------------------------------------------------------
// Rejections
// ---------------------------------------------------------------------------

#[test]
fn pool_rejects_calls_before_initialization() {
    let mut w = World::bare();
    let inv = w.inv();
    assert_eq!(
        w.pool.add_liquidity(&inv, USER, 10, 10).unwrap_err(),
        PoolError::NotInitialized
    );
    assert_eq!(
        w.pool.fund_mining_rewards(&inv, USER, 10).unwrap_err(),
        PoolError::NotInitialized
    );
    assert_eq!(w.pool.collect_protocol_fees(&inv).unwrap_err(), PoolError::NotInitialized);
    assert_eq!(w.pool.upgrade([0; 32]).unwrap_err(), PoolError::NotInitialized);
    assert_eq!(w.price(), 10_000_000);
}

#[test]
fn rejected_calls_change_nothing() {
    let mut w = setup_test();
    w.add_liquidity(USER, 1000, 1000);
    let inv = w.inv();
    assert_eq!(
        w.pool.initialize(&inv, USER, SXLM, NATIVE, 1).unwrap_err(),
        PoolError::AlreadyInitialized
    );
    assert_eq!(
        w.pool.add_liquidity(&inv, USER, 0, 5).unwrap_err(),
        PoolError::AmountsNotPositive
    );
    assert_eq!(
        w.pool.remove_liquidity(&inv, USER, 0).unwrap_err(),
        PoolError::AmountNotPositive
    );
    assert_eq!(
        w.pool.remove_liquidity(&inv, USER, 1001).unwrap_err(),
        PoolError::InsufficientLpBalance
    );
    assert_eq!(
        w.pool.swap_xlm_to_sxlm(&inv, USER, 100, 92).unwrap_err(),
        PoolError::Slippage
    );
    assert_eq!(
        w.pool.set_mining_rate(&inv, USER, 5).unwrap_err(),
        PoolError::NotAdmin
    );
    assert_eq!(
        w.pool.fund_mining_rewards(&inv, USER, 0).unwrap_err(),
        PoolError::AmountNotPositive
    );
    assert_eq!(w.pool.get_reserves(), (1000, 1000));
    assert_eq!(w.pool.total_lp_supply(), 1000);
    assert_eq!(w.pool.get_twap_samples().len(), 0);
}

#[test]
fn tiny_deposits_and_withdrawals_are_rejected() {
    let mut w = setup_test();
    w.add_liquidity(USER, 1_000_000, 100);
    let inv = w.inv();
    // 10_000 LP: one stroop of XLM mints nothing.
    assert_eq!(w.pool.total_lp_supply(), 10_000);
    assert_eq!(
        w.pool.add_liquidity(&inv, USER, 1, 1).unwrap_err(),
        PoolError::InsufficientLiquidityMinted
    );
    // One LP token needs less than a stroop of sXLM.
    assert_eq!(
        w.pool.add_liquidity(&inv, USER, 100, 100).unwrap_err(),
        PoolError::ZeroDeposit
    );
    assert_eq!(
        w.pool.remove_liquidity(&inv, USER, 1).unwrap_err(),
        PoolError::InsufficientOutput
    );
}

#[test]
fn swap_without_fee_cannot_divide_it() {
    let mut w = setup_with_fee(0);
    w.add_liquidity(USER, 1000, 1000);
    let inv = w.inv();
    assert_eq!(
        w.pool.swap_xlm_to_sxlm(&inv, USER, 100, 0).unwrap_err(),
        PoolError::Arithmetic
    );
    assert_eq!(w.swap_sxlm_to_xlm(USER, 100, 0), 91);
}

#[test]
fn pool_messages() {
    let texts = [
        (PoolError::AlreadyInitialized, "already initialized"),
        (PoolError::AmountsNotPositive, "amounts must be positive"),
        (PoolError::AmountNotPositive, "amount must be positive"),
        (PoolError::InsufficientLiquidityMinted, "insufficient liquidity minted"),
        (PoolError::ZeroDeposit, "zero deposit"),
        (PoolError::InsufficientLpBalance, "insufficient LP balance"),
        (PoolError::InsufficientOutput, "insufficient output"),
        (PoolError::NoLiquidity, "pool has no liquidity"),
        (PoolError::InsufficientLiquidity, "insufficient liquidity"),
        (PoolError::Slippage, "slippage: output below minimum"),
        (PoolError::NotAdmin, "not admin"),
        (PoolError::RewardVaultEmpty, "reward vault empty"),
    ];
    for (e, text) in texts {
        assert_eq!(e.message(), text);
    }
}
