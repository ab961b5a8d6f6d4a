//! The lending market, with a bank that performs the transfers it asks for.

use std::collections::HashMap;

use stello_contracts::arith::{portion, RATE_PRECISION};
use stello_contracts::host::{Address, Invocation, Receipt, Transfer};
use stello_contracts::lending::model::{LendingError, LendingEvent, Weighing};
use stello_contracts::lending::LendingContract;

const CONTRACT: Address = Address { id: 0 };
const ADMIN: Address = Address { id: 1 };
const USER: Address = Address { id: 2 };
const LIQUIDATOR: Address = Address { id: 3 };
const SXLM: Address = Address { id: 4 };
const NATIVE: Address = Address { id: 5 };
const USDC: Address = Address { id: 6 };

struct World {
    env: soroban_sdk::Env,
    market: LendingContract,
    bank: HashMap<(u32, u32), i128>,
}

impl World {
    fn bare() -> World {
        let env = soroban_sdk::Env::default();
        let market = LendingContract::new(&env);
        World { env, market, bank: HashMap::new() }
    }

    fn inv(&self) -> Invocation {
        Invocation { env: self.env.clone(), contract: CONTRACT, ledger: 0 }
    }

    fn balance(&self, token: Address, holder: Address) -> i128 {
        *self.bank.get(&(token.id, holder.id)).unwrap_or(&0)
    }

    fn mint(&mut self, token: Address, holder: Address, amount: i128) {
        *self.bank.entry((token.id, holder.id)).or_insert(0) += amount;
    }

    fn settle<T>(&mut self, r: Result<Receipt<T, LendingEvent>, LendingError>) -> T {
        match r {
            Ok(receipt) => {
                for t in receipt.transfers.iter() {
                    assert!(self.balance(t.token, t.from) >= t.amount, "balance is not sufficient");
                    self.mint(t.token, t.from, -t.amount);
                    self.mint(t.token, t.to, t.amount);
                }
                receipt.value
            }
            Err(e) => panic!("{}", e.message()),
        }
    }

    fn initialize(&mut self, cf: u32, lt: u32, rate: u32) {
        let inv = self.inv();
        let r = self.market.initialize(&inv, ADMIN, SXLM, NATIVE, cf, lt, rate);
        self.settle(r)
    }

    fn add_collateral_asset(&mut self, asset: Address, cf: u32, price: i128) {
        let r = self.market.add_collateral_asset(ADMIN, asset, cf, price);
        self.settle(r)
    }

    fn deposit(&mut self, user: Address, asset: Address, amount: i128) {
        let inv = self.inv();
        let r = self.market.deposit_collateral(&inv, user, asset, amount);
        self.settle(r)
    }

    fn withdraw(&mut self, user: Address, asset: Address, amount: i128) {
        let inv = self.inv();
        let r = self.market.withdraw_collateral(&inv, user, asset, amount);
        self.settle(r)
    }

    fn try_borrow(&mut self, user: Address, amount: i128) -> Result<
        Receipt<(), LendingEvent>,
        LendingError,
    > {
        let inv = self.inv();
        let (token, holder) = self.market.get_pool_balance(&inv).unwrap();
        let pool_balance = self.balance(token, holder);
        self.market.borrow(&inv, user, amount, pool_balance)
    }

    fn borrow(&mut self, user: Address, amount: i128) {
        let r = self.try_borrow(user, amount);
        self.settle(r)
    }

    fn repay(&mut self, user: Address, amount: i128) {
        let inv = self.inv();
        let r = self.market.repay(&inv, user, amount);
        self.settle(r)
    }

    fn liquidate(&mut self, liquidator: Address, borrower: Address) -> i128 {
        let inv = self.inv();
        let r = self.market.liquidate(&inv, liquidator, borrower);
        self.settle(r)
    }

    /// The totals agree with what the market holds, which was lent `lent` XLM to begin with.
    fn check_books(&self, lent: i128) {
        assert_eq!(self.balance(SXLM, CONTRACT), self.market.total_asset_collateral(SXLM));
        assert_eq!(self.balance(USDC, CONTRACT), self.market.total_asset_collateral(USDC));
        assert_eq!(self.balance(NATIVE, CONTRACT), lent - self.market.total_borrowed());
    }
}

fn setup_with(cf: u32, lt: u32, rate: u32) -> World {
    let mut w = World::bare();
    w.initialize(cf, lt, rate);
    // Mint initial balances
    w.mint(SXLM, USER, 100_000_0000000);
    w.mint(USDC, USER, 100_000_0000000);
    w.mint(NATIVE, CONTRACT, 500_000_0000000); // pool XLM
    w.mint(NATIVE, LIQUIDATOR, 200_000_0000000);
    w
}

fn setup() -> World {
    setup_with(7500, 8000, 500)
}

#[test]
fn test_initialize_and_list() {
    let w = setup();
    let assets = w.market.get_asset_list();
    assert_eq!(assets.len(), 1);
    assert_eq!(assets[0], SXLM);
}

#[test]
fn test_add_collateral_asset() {
    let mut w = setup();
    // USDC at 90% CF, price 1:1 with XLM initially
    w.add_collateral_asset(USDC, 9000u32, RATE_PRECISION);
    let (cf, price, enabled) = w.market.get_asset_config(USDC).unwrap();
    assert_eq!(cf, 9000);
    assert_eq!(price, RATE_PRECISION);
    assert!(enabled);
    assert_eq!(w.market.get_asset_list().len(), 2);
}

#[test]
fn test_deposit_sxlm_and_borrow() {
    let mut w = setup();

    w.deposit(USER, SXLM, 10_000_0000000);
    let (col, bor) = w.market.get_position(USER, SXLM);
    assert_eq!(col, 10_000_0000000);
    assert_eq!(bor, 0);

    w.borrow(USER, 7_500_000_000);
    let (_, bor2) = w.market.get_position(USER, SXLM);
    assert_eq!(bor2, 7_500_000_000);
}

#[test]
fn test_withdraw_collateral() {
    let mut w = setup();
    w.deposit(USER, SXLM, 10_000_0000000);
    w.withdraw(USER, SXLM, 5_000_0000000);
    let (col, _) = w.market.get_position(USER, SXLM);
    assert_eq!(col, 5_000_0000000);
}

#[test]
fn test_health_factor_calculation() {
    let mut w = setup();
    w.deposit(USER, SXLM, 10_000_0000000);
    w.borrow(USER, 5_000_0000000);
    // HF uses LT (8000) not CF (7500)
    let hf = w.market.health_factor(USER).unwrap();
    assert_eq!(hf, 16_000_000); // 1.6 x 1e7
}

#[test]
fn test_repay() {
    let mut w = setup();
    w.mint(NATIVE, USER, 50_000_0000000);
    w.deposit(USER, SXLM, 10_000_0000000);
    w.borrow(USER, 5_000_0000000);
    w.repay(USER, 3_000_0000000);
    assert_eq!(w.market.get_user_borrowed(USER), 2_000_0000000);
}

#[test]
fn test_update_asset_price_affects_borrow_capacity() {
    let mut w = setup();
    w.add_collateral_asset(USDC, 9000u32, RATE_PRECISION); // USDC @ 1:1 XLM

    w.deposit(USER, USDC, 10_000_0000000);
    let max_before = w.market.max_borrow_amount(USER).unwrap();
    assert_eq!(max_before, 9_000_0000000);

    // Update USDC price to 1.2 XLM
    let r = w.market.update_asset_price(ADMIN, USDC, 12_000_000i128);
    w.settle(r);
    let max_after = w.market.max_borrow_amount(USER).unwrap();
    assert_eq!(max_after, 10_800_0000000);
}

// ---------------------------------------------------------------------------
// Several assets
// ---------------------------------------------------------------------------

#[test]
fn borrow_capacity_adds_up_over_assets() {
    let mut w = setup();
    w.add_collateral_asset(USDC, 9000u32, RATE_PRECISION);

    // 1000 sXLM at 75% and 500 USDC at 90%: 750 + 450 = 1200 XLM
    w.deposit(USER, SXLM, 1_000_0000000);
    w.deposit(USER, USDC, 500_0000000);
    assert_eq!(w.market.max_borrow_amount(USER), Ok(1_200_0000000));
    assert_eq!(
        w.market.total_weighted_collateral(USER, Weighing::CollateralFactor),
        Ok(1_200_0000000)
    );
    assert_eq!(
        w.market.total_weighted_collateral(USER, Weighing::LiquidationThreshold),
        Ok(1_200_0000000)
    );
    assert_eq!(
        w.try_borrow(USER, 1_200_0000001).unwrap_err(),
        LendingError::BorrowExceedsLimit
    );
    w.borrow(USER, 1_200_0000000);
    assert_eq!(w.market.get_user_borrowed(USER), 1_200_0000000);
    assert_eq!(w.market.max_borrow_amount(USER), Ok(0));
    w.check_books(500_000_0000000);
}

#[test]
fn borrowing_beyond_the_limit_is_refused() {
    let mut w = setup();
    w.deposit(USER, SXLM, 1_000_0000000);
    // 75% of 1000 = 750 max, try 800
    let e = w.try_borrow(USER, 800_0000000).unwrap_err();
    assert_eq!(e, LendingError::BorrowExceedsLimit);
    assert_eq!(e.message(), "borrow exceeds collateral limit");
}

#[test]
fn withdrawing_into_bad_health_is_refused() {
    let mut w = setup();
    w.deposit(USER, SXLM, 1_000_0000000);
    w.borrow(USER, 750_0000000); // max
    let inv = w.inv();
    let e = w.market.withdraw_collateral(&inv, USER, SXLM, 100_0000000).unwrap_err();
    assert_eq!(e, LendingError::WithdrawalUnhealthy);
    assert_eq!(e.message(), "withdrawal would make position unhealthy");
}

#[test]
fn withdrawal_is_allowed_down_to_health_one() {
    let mut w = setup();
    w.deposit(USER, SXLM, 1_000_0000000);
    w.borrow(USER, 400_0000000);
    // 500 sXLM at 80% are worth the debt.
    w.withdraw(USER, SXLM, 500_0000000);
    assert_eq!(w.market.health_factor(USER), Ok(10_000_000));
    let inv = w.inv();
    assert_eq!(
        w.market.withdraw_collateral(&inv, USER, SXLM, 10).unwrap_err(),
        LendingError::WithdrawalUnhealthy
    );
    // The refused withdrawal left the position as it was.
    assert_eq!(w.market.get_position(USER, SXLM), (500_0000000, 400_0000000));
    assert_eq!(w.market.total_asset_collateral(SXLM), 500_0000000);
    w.check_books(500_000_0000000);
}

#[test]
fn full_position_lists_what_is_held() {
    let mut w = setup();
    w.add_collateral_asset(USDC, 9000u32, RATE_PRECISION);
    w.deposit(USER, USDC, 500);
    let inv = w.inv();
    let position = w.market.get_full_position(&inv, USER);
    assert_eq!(position.len(), 1);
    assert_eq!(position.get(0), Some((USDC.id, 500)));
    w.deposit(USER, SXLM, 7);
    let position = w.market.get_full_position(&inv, USER);
    assert_eq!(position.len(), 2);
    assert_eq!(position.get(0), Some((SXLM.id, 7)));
    assert_eq!(position.get(1), Some((USDC.id, 500)));
    assert_eq!(w.market.get_full_position(&inv, ADMIN).len(), 0);
}

// ---------------------------------------------------------------------------
// Liquidation
// ---------------------------------------------------------------------------

#[test]
fn liquidation_clears_the_debt_for_collateral() {
    // Liquidation threshold below the collateral factor, so that a fresh loan is unhealthy.
    let mut w = setup_with(7500, 4000, 500);
    w.deposit(USER, SXLM, 10_000_0000000);
    w.borrow(USER, 7_500_0000000); // max at 75% CF
    // HF = 10000 * 1e7 * 4000/10000 / 7500 = 4000 * 1e7 / 7500
    assert_eq!(w.market.health_factor(USER), Ok(5_333_333));

    let repaid = w.liquidate(LIQUIDATOR, USER);
    assert_eq!(repaid, 7_500_0000000);
    assert_eq!(w.market.get_user_borrowed(USER), 0);
    assert_eq!(w.market.total_borrowed(), 0);
    // The debt and 5% of it.
    assert_eq!(w.balance(SXLM, LIQUIDATOR), 7_875_0000000);
    assert_eq!(w.market.get_position(USER, SXLM), (2_125_0000000, 0));
    assert_eq!(w.market.health_factor(USER), Ok(i128::MAX));
    w.check_books(500_000_0000000);
}

#[test]
fn liquidation_takes_of_every_asset() {
    let mut w = setup();
    w.add_collateral_asset(USDC, 9000u32, 20_000_000);
    w.deposit(USER, SXLM, 1_000_0000000);
    w.deposit(USER, USDC, 200_0000000);
    w.borrow(USER, 1_000_0000000);
    // USDC falls to a quarter of its price: (1000 + 100) * 0.8 = 880 < 1000.
    let r = w.market.update_asset_price(ADMIN, USDC, 5_000_000);
    w.settle(r);
    assert_eq!(w.market.health_factor(USER), Ok(8_800_000));
    assert_eq!(
        w.market.total_weighted_collateral(USER, Weighing::Price),
        Ok(1_100_0000000 * RATE_PRECISION)
    );
    let inv = w.inv();
    let r = w.market.liquidate(&inv, LIQUIDATOR, USER).unwrap();
    assert_eq!(r.auth, Some(LIQUIDATOR));
    // 1050 of 1100 XLM are owed: 21/22 of each asset.
    assert_eq!(
        r.transfers,
        vec![
            Transfer { token: NATIVE, from: LIQUIDATOR, to: CONTRACT, amount: 1_000_0000000 },
            Transfer { token: SXLM, from: CONTRACT, to: LIQUIDATOR, amount: 954_5454545 },
            Transfer { token: USDC, from: CONTRACT, to: LIQUIDATOR, amount: 190_9090909 },
        ]
    );
    assert_eq!(
        r.events,
        vec![
            LendingEvent::Liquidated {
                liquidator: LIQUIDATOR,
                borrower: USER,
                asset: SXLM,
                amount: 954_5454545,
            },
            LendingEvent::Liquidated {
                liquidator: LIQUIDATOR,
                borrower: USER,
                asset: USDC,
                amount: 190_9090909,
            },
        ]
    );
    assert_eq!(r.events[0].topic(), "liq");
    w.settle(Ok(r));
    assert_eq!(w.market.get_position(USER, SXLM), (45_4545455, 0));
    assert_eq!(w.market.get_position(USER, USDC), (9_0909091, 0));
    w.check_books(500_000_0000000);
}

#[test]
fn liquidation_is_pro_rata() {
    let mut w = setup();
    w.add_collateral_asset(USDC, 9000u32, 10_000_000);
    w.deposit(USER, SXLM, 1000);
    w.deposit(USER, USDC, 1000);
    w.borrow(USER, 1000);
    let r = w.market.update_liquidation_threshold(4000);
    w.settle(r);
    assert_eq!(w.liquidate(LIQUIDATOR, USER), 1000);
    // 1050 XLM in all.
    assert_eq!(w.balance(SXLM, LIQUIDATOR), 525);
    assert_eq!(w.balance(USDC, LIQUIDATOR), 525);
    assert_eq!(w.market.get_position(USER, SXLM), (475, 0));
    assert_eq!(w.market.get_position(USER, USDC), (475, 0));
    w.check_books(500_000_0000000);
}

#[test]
fn liquidation_of_too_little_collateral_takes_it_all() {
    let mut w = setup();
    w.add_collateral_asset(USDC, 9000u32, 10_000_000);
    w.deposit(USER, SXLM, 1000);
    w.deposit(USER, USDC, 500);
    w.borrow(USER, 1200);
    let r = w.market.update_exchange_rate(5_000_000);
    w.settle(r);
    // 1000 XLM of collateral for a debt of 1200.
    assert_eq!(w.liquidate(LIQUIDATOR, USER), 1200);
    assert_eq!(w.balance(SXLM, LIQUIDATOR), 1000);
    assert_eq!(w.balance(USDC, LIQUIDATOR), 500);
    assert_eq!(w.market.get_position(USER, SXLM), (0, 0));
    w.check_books(500_000_0000000);
}

/// A market in which `USER` owes `debt` for 1000 sXLM at `rate`, in bad health.
fn indebted(rate: i128, debt: i128) -> World {
    let mut w = setup();
    w.market.update_exchange_rate(rate).unwrap();
    w.deposit(USER, SXLM, 1000);
    w.borrow(USER, debt);
    w.market.update_liquidation_threshold(1).unwrap();
    w
}

#[test]
fn a_debt_is_turned_into_units_before_the_bonus() {
    // 21 XLM buy 10 sXLM, and 5% of 10 is nothing.
    let mut w = indebted(20_000_000, 21);
    assert_eq!(w.liquidate(LIQUIDATOR, USER), 21);
    assert_eq!(w.balance(SXLM, LIQUIDATOR), 10);
    assert_eq!(w.market.get_position(USER, SXLM), (990, 0));
    w.check_books(500_000_0000000);
    // 19 XLM buy 38 sXLM, and 5% of 38 is 1.
    let mut w = indebted(5_000_000, 19);
    assert_eq!(w.liquidate(LIQUIDATOR, USER), 19);
    assert_eq!(w.balance(SXLM, LIQUIDATOR), 39);
    assert_eq!(w.market.get_position(USER, SXLM), (961, 0));
    w.check_books(500_000_0000000);
}

#[test]
fn units_are_rounded_for_each_asset() {
    let mut w = setup();
    w.add_collateral_asset(USDC, 9000u32, 5_000_000);
    w.market.update_exchange_rate(20_000_000).unwrap();
    w.deposit(USER, SXLM, 1000);
    w.deposit(USER, USDC, 1000);
    w.borrow(USER, 19);
    w.market.update_liquidation_threshold(1).unwrap();
    // Of a worth of 2500 XLM, 9 sXLM are 18 and 39 USDC are 19.5.
    assert_eq!(w.liquidate(LIQUIDATOR, USER), 19);
    assert_eq!(w.balance(SXLM, LIQUIDATOR), 7);
    assert_eq!(w.balance(USDC, LIQUIDATOR), 7);
    w.check_books(500_000_0000000);
}

#[test]
fn liquidation_of_large_positions() {
    let mut w = setup_with(7500, 4000, 500);
    let deposit: i128 = 2_000_000_000_000_000_000_000;
    w.mint(SXLM, USER, deposit);
    w.mint(NATIVE, CONTRACT, deposit);
    w.mint(NATIVE, LIQUIDATOR, deposit);
    w.deposit(USER, SXLM, deposit);
    w.borrow(USER, deposit / 2);
    assert_eq!(w.liquidate(LIQUIDATOR, USER), deposit / 2);
    assert_eq!(w.balance(SXLM, LIQUIDATOR), deposit / 2 + deposit / 40);
}

#[test]
fn portions_are_rounded_down() {
    assert_eq!(portion(1000, 0, 7), 0);
    assert_eq!(portion(0, 3, 7), 0);
    assert_eq!(portion(1000, 3, 7), 428);
    assert_eq!(portion(i128::MAX, i128::MAX - 1, i128::MAX), i128::MAX - 1);
    assert_eq!(portion(i128::MAX, 1, 2), i128::MAX / 2);
}

#[test]
fn a_failed_liquidation_changes_nothing() {
    let mut w = setup_with(7500, 4000, 500);
    w.deposit(USER, SXLM, 10_000_0000000);
    w.borrow(USER, 7_500_0000000);
    // A total that cannot be lowered any further.
    let mut record = *w.market.assets.get(&SXLM.id).unwrap();
    record.total_collateral = i128::MIN;
    w.market.assets.insert(SXLM.id, record);
    let inv = w.inv();
    assert_eq!(
        w.market.liquidate(&inv, LIQUIDATOR, USER).unwrap_err(),
        LendingError::Arithmetic
    );
    assert_eq!(w.market.get_position(USER, SXLM), (10_000_0000000, 7_500_0000000));
    assert_eq!(w.market.total_borrowed(), 7_500_0000000);
    assert_eq!(w.market.total_asset_collateral(SXLM), i128::MIN);
}

#[test]
fn healthy_positions_are_not_liquidated() {
    let mut w = setup();
    let inv = w.inv();
    assert_eq!(w.market.liquidate(&inv, LIQUIDATOR, USER).unwrap_err(), LendingError::NoDebt);
    w.deposit(USER, SXLM, 1_000_0000000);
    w.borrow(USER, 750_0000000);
    assert!(w.market.health_factor(USER).unwrap() >= RATE_PRECISION);
    assert_eq!(
        w.market.liquidate(&inv, LIQUIDATOR, USER).unwrap_err(),
        LendingError::PositionHealthy
    );
}

// ---------------------------------------------------------------------------
// What holds throughout
// ---------------------------------------------------------------------------

#[test]
fn a_deposit_comes_back() {
    let mut w = setup();
    let before = w.balance(SXLM, USER);
    w.deposit(USER, SXLM, 123_4567890);
    assert_eq!(w.market.total_asset_collateral(SXLM), 123_4567890);
    w.withdraw(USER, SXLM, 123_4567890);
    assert_eq!(w.balance(SXLM, USER), before);
    assert_eq!(w.market.total_asset_collateral(SXLM), 0);
    w.check_books(500_000_0000000);
}

#[test]
fn a_borrower_in_good_health_gets_a_deposit_back() {
    let mut w = setup();
    w.deposit(USER, SXLM, 1_000_0000000);
    w.borrow(USER, 750_0000000);
    let before = w.market.health_factor(USER).unwrap();
    assert!(before >= RATE_PRECISION);
    w.deposit(USER, SXLM, 77);
    assert!(w.market.health_factor(USER).unwrap() >= before);
    w.withdraw(USER, SXLM, 77);
    assert_eq!(w.market.health_factor(USER), Ok(before));
    assert_eq!(w.market.get_position(USER, SXLM), (1_000_0000000, 750_0000000));
}

#[test]
fn collateral_factors_have_no_influence_on_health() {
    let mut w = setup();
    w.add_collateral_asset(USDC, 9000u32, RATE_PRECISION);
    w.deposit(USER, SXLM, 1_000_0000000);
    w.deposit(USER, USDC, 1_000_0000000);
    w.borrow(USER, 1_000_0000000);
    assert_eq!(w.market.health_factor(USER), Ok(16_000_000));
    w.market.update_asset_cf(ADMIN, USDC, 100).unwrap();
    w.market.update_collateral_factor(100).unwrap();
    assert_eq!(w.market.health_factor(USER), Ok(16_000_000));
    assert_eq!(w.market.max_borrow_amount(USER), Ok(0));
    // sXLM is still the first asset.
    assert_eq!(w.market.get_asset_list()[0], SXLM);
}

#[test]
fn a_disabled_asset_still_pays_back() {
    let mut w = setup();
    w.add_collateral_asset(USDC, 9000u32, RATE_PRECISION);
    w.deposit(USER, USDC, 1000);
    let r = w.market.disable_collateral_asset(ADMIN, USDC);
    w.settle(r);
    let inv = w.inv();
    assert_eq!(
        w.market.deposit_collateral(&inv, USER, USDC, 5).unwrap_err(),
        LendingError::AssetNotEnabled
    );
    assert_eq!(w.market.max_borrow_amount(USER), Ok(900));
    w.withdraw(USER, USDC, 1000);
    assert_eq!(w.market.get_position(USER, USDC), (0, 0));
}

#[test]
fn a_disabled_asset_is_liquidated() {
    let mut w = setup();
    w.add_collateral_asset(USDC, 9000u32, RATE_PRECISION);
    w.deposit(USER, USDC, 1_000_0000000);
    w.borrow(USER, 900_0000000);
    let r = w.market.disable_collateral_asset(ADMIN, USDC);
    w.settle(r);
    // 1000 USDC at 80% are worth less than the debt.
    assert_eq!(w.market.health_factor(USER), Ok(8_888_888));
    assert_eq!(w.liquidate(LIQUIDATOR, USER), 900_0000000);
    // The debt and 5% of it.
    assert_eq!(w.balance(USDC, LIQUIDATOR), 945_0000000);
    assert_eq!(w.market.get_position(USER, USDC), (55_0000000, 0));
    w.check_books(500_000_0000000);
}

#[test]
fn registering_a_disabled_asset_again_lists_it_again() {
    let mut w = setup();
    w.add_collateral_asset(USDC, 9000u32, RATE_PRECISION);
    w.deposit(USER, USDC, 1000);
    let r = w.market.disable_collateral_asset(ADMIN, USDC);
    w.settle(r);
    w.add_collateral_asset(USDC, 8000u32, RATE_PRECISION);
    assert_eq!(w.market.get_asset_list(), vec![SXLM, USDC, USDC]);
    // The total starts again at zero; the balance counts twice.
    assert_eq!(w.market.total_asset_collateral(USDC), 0);
    assert_eq!(w.market.get_position(USER, USDC), (1000, 0));
    assert_eq!(w.market.max_borrow_amount(USER), Ok(1600));
}

#[test]
fn debts_add_up_though_an_asset_is_registered_again() {
    let mut w = setup();
    w.mint(SXLM, LIQUIDATOR, 1000);
    w.deposit(USER, SXLM, 1000);
    w.deposit(LIQUIDATOR, SXLM, 1000);
    w.add_collateral_asset(USDC, 9000u32, RATE_PRECISION);
    w.deposit(USER, USDC, 1000);
    w.market.disable_collateral_asset(ADMIN, USDC).unwrap();
    w.add_collateral_asset(USDC, 8000u32, RATE_PRECISION);
    w.borrow(USER, 300);
    w.borrow(LIQUIDATOR, 200);
    assert_eq!(w.market.total_borrowed(), 500);
    w.repay(USER, 100);
    assert_eq!(w.market.get_user_borrowed(USER), 200);
    assert_eq!(w.market.get_user_borrowed(LIQUIDATOR), 200);
    assert_eq!(w.market.total_borrowed(), 400);
    w.market.update_liquidation_threshold(1).unwrap();
    w.liquidate(USER, LIQUIDATOR);
    assert_eq!(w.market.get_user_borrowed(LIQUIDATOR), 0);
    assert_eq!(w.market.total_borrowed(), 200);
}

#[test]
fn repayment_takes_no_more_than_the_debt() {
    let mut w = setup();
    w.deposit(USER, SXLM, 1_000_0000000);
    w.borrow(USER, 100);
    let before = w.balance(NATIVE, USER);
    w.repay(USER, 1_000_000);
    assert_eq!(before - w.balance(NATIVE, USER), 100);
    assert_eq!(w.market.get_user_borrowed(USER), 0);
    assert_eq!(w.market.total_borrowed(), 0);
    w.check_books(500_000_0000000);
}

#[test]
fn prices_and_rates_move_health() {
    let mut w = setup();
    w.deposit(USER, SXLM, 1_000_0000000);
    w.borrow(USER, 500_0000000);
    assert_eq!(w.market.health_factor(USER), Ok(16_000_000));
    let r = w.market.update_exchange_rate(11_000_000).unwrap();
    assert_eq!((r.auth, r.events[0].topic()), (Some(ADMIN), "er_upd"));
    assert_eq!(w.market.get_exchange_rate(), 11_000_000);
    assert_eq!(w.market.health_factor(USER), Ok(17_600_000));
    w.market.update_liquidation_threshold(5000).unwrap();
    assert_eq!(w.market.get_liquidation_threshold(), 5000);
    assert_eq!(w.market.health_factor(USER), Ok(11_000_000));
    let r = w.market.update_collateral_factor(6000).unwrap();
    assert_eq!((r.auth, r.events[0].topic()), (Some(ADMIN), "cf_upd"));
    assert_eq!(w.market.get_collateral_factor(), Ok(6000));
    assert_eq!(w.market.max_borrow_amount(USER), Ok(160_0000000));
    assert_eq!(w.market.health_factor(ADMIN), Ok(i128::MAX));
}

#[test]
fn market_parameters() {
    let mut w = setup();
    assert_eq!(w.market.get_borrow_rate(), 500);
    w.market.update_borrow_rate(700).unwrap();
    assert_eq!(w.market.get_borrow_rate(), 700);
    assert_eq!(w.market.get_liquidation_bonus(), 500);
    assert_eq!(w.market.total_accrued_interest(), 0);
    w.market.total_accrued_interest = 55;
    let r = w.market.harvest_interest().unwrap();
    assert_eq!((r.value, r.auth), (55, Some(ADMIN)));
    assert_eq!(w.market.total_accrued_interest(), 0);
    assert_eq!(w.market.get_asset_config(SXLM), Ok((7500, RATE_PRECISION, true)));
    assert_eq!(w.market.get_asset_config(USDC), Ok((7000, RATE_PRECISION, false)));
    w.add_collateral_asset(USDC, 9000, 5);
    w.market.update_asset_cf(ADMIN, USDC, 8500).unwrap();
    assert_eq!(w.market.get_asset_config(USDC), Ok((8500, 5, true)));
    let r = w.market.upgrade([9; 32]).unwrap();
    assert_eq!((r.auth, r.value), (Some(ADMIN), [9; 32]));
    let x = w.market.bump_instance();
    assert_eq!((x.threshold, x.extend_to), (100_800, 518_400));
}

#[test]
fn receipts_of_the_market() {
    let mut w = setup();
    let inv = w.inv();
    let r = w.market.add_collateral_asset(ADMIN, USDC, 9000, 7).unwrap();
    assert_eq!(r.auth, Some(ADMIN));
    assert_eq!(r.events, vec![LendingEvent::AssetAdded { asset: USDC, cf_bps: 9000, price: 7 }]);
    assert_eq!(r.events[0].topic(), "add_ast");
    let r = w.market.update_asset_price(ADMIN, USDC, 8).unwrap();
    assert_eq!(r.events[0].topic(), "pr_upd");
    let r = w.market.deposit_collateral(&inv, USER, SXLM, 1000).unwrap();
    assert_eq!(r.auth, Some(USER));
    assert_eq!(
        r.transfers,
        vec![Transfer { token: SXLM, from: USER, to: CONTRACT, amount: 1000 }]
    );
    assert_eq!(r.events[0].topic(), "deposit");
    let r = w.market.borrow(&inv, USER, 100, 1000).unwrap();
    assert_eq!(
        r.transfers,
        vec![Transfer { token: NATIVE, from: CONTRACT, to: USER, amount: 100 }]
    );
    assert_eq!(r.events[0].topic(), "borrow");
    let r = w.market.repay(&inv, USER, 100).unwrap();
    assert_eq!(r.events, vec![LendingEvent::Repaid { user: USER, amount: 100 }]);
    assert_eq!(r.events[0].topic(), "repay");
    let r = w.market.withdraw_collateral(&inv, USER, SXLM, 1000).unwrap();
    assert_eq!(
        r.transfers,
        vec![Transfer { token: SXLM, from: CONTRACT, to: USER, amount: 1000 }]
    );
    assert_eq!(r.events[0].topic(), "withdraw");
}

// ---------------------------------------------------------------------------
// Rejections
// ---------------------------------------------------------------------------

#[test]
fn market_rejects_calls_before_initialization() {
    let mut w = World::bare();
    let inv = w.inv();
    assert_eq!(
        w.market.add_collateral_asset(ADMIN, USDC, 1, 1).unwrap_err(),
        LendingError::NotInitialized
    );
    assert_eq!(
        w.market.deposit_collateral(&inv, USER, SXLM, 1).unwrap_err(),
        LendingError::AssetNotEnabled
    );
    assert_eq!(w.market.repay(&inv, USER, 1).unwrap_err(), LendingError::NotInitialized);
    assert_eq!(w.market.harvest_interest().unwrap_err(), LendingError::NotInitialized);
    assert_eq!(w.market.get_collateral_factor(), Err(LendingError::NotInitialized));
    assert_eq!(w.market.get_asset_config(SXLM), Err(LendingError::NotInitialized));
    assert_eq!(w.market.get_pool_balance(&inv), Err(LendingError::NotInitialized));
    assert_eq!(w.market.get_liquidation_threshold(), 8000);
    assert_eq!(w.market.upgrade([0; 32]).unwrap_err(), LendingError::NotInitialized);
}

#[test]
fn market_rejections() {
    let mut w = setup();
    let inv = w.inv();
    assert_eq!(
        w.market.initialize(&inv, USER, SXLM, NATIVE, 1, 1, 1).unwrap_err(),
        LendingError::AlreadyInitialized
    );
    assert_eq!(
        w.market.add_collateral_asset(USER, USDC, 1, 1).unwrap_err(),
        LendingError::OnlyAdmin
    );
    assert_eq!(
        w.market.add_collateral_asset(ADMIN, USDC, 0, 1).unwrap_err(),
        LendingError::InvalidCfBps
    );
    assert_eq!(
        w.market.add_collateral_asset(ADMIN, USDC, 10_001, 1).unwrap_err(),
        LendingError::InvalidCfBps
    );
    assert_eq!(
        w.market.add_collateral_asset(ADMIN, USDC, 1, 0).unwrap_err(),
        LendingError::PriceNotPositive
    );
    assert_eq!(
        w.market.add_collateral_asset(ADMIN, SXLM, 1, 1).unwrap_err(),
        LendingError::AssetAlreadyRegistered
    );
    assert_eq!(
        w.market.update_asset_price(ADMIN, SXLM, 1).unwrap_err(),
        LendingError::PricedByExchangeRate
    );
    assert_eq!(
        w.market.update_asset_cf(ADMIN, USDC, 1).unwrap_err(),
        LendingError::AssetNotRegistered
    );
    assert_eq!(
        w.market.disable_collateral_asset(ADMIN, SXLM).unwrap_err(),
        LendingError::CannotDisableSxlm
    );
    assert_eq!(w.market.update_exchange_rate(0).unwrap_err(), LendingError::RateNotPositive);
    assert_eq!(w.market.update_collateral_factor(0).unwrap_err(), LendingError::InvalidCf);
    assert_eq!(
        w.market.update_liquidation_threshold(10_001).unwrap_err(),
        LendingError::InvalidLt
    );
    assert_eq!(
        w.market.deposit_collateral(&inv, USER, SXLM, 0).unwrap_err(),
        LendingError::AmountNotPositive
    );
    assert_eq!(
        w.market.withdraw_collateral(&inv, USER, SXLM, 1).unwrap_err(),
        LendingError::InsufficientCollateral
    );
    w.deposit(USER, SXLM, 1000);
    assert_eq!(
        w.market.borrow(&inv, USER, 100, 99).unwrap_err(),
        LendingError::InsufficientPoolLiquidity
    );
    assert_eq!(
        w.market.borrow(&inv, USER, 0, 99).unwrap_err(),
        LendingError::AmountNotPositive
    );
    assert_eq!(
        w.market.deposit_collateral(&inv, USER, SXLM, i128::MAX).unwrap_err(),
        LendingError::Arithmetic
    );
}

#[test]
fn at_most_sixteen_assets() {
    let mut w = setup();
    for i in 0..15u32 {
        w.add_collateral_asset(Address { id: 100 + i }, 9000, RATE_PRECISION);
    }
    let list = w.market.get_asset_list();
    assert_eq!(list.len(), 16);
    assert_eq!(list[15], Address { id: 114 });
    assert_eq!(
        w.market.add_collateral_asset(ADMIN, USDC, 9000, RATE_PRECISION).unwrap_err(),
        LendingError::MaxAssetsReached
    );
}

#[test]
fn market_messages() {
    let texts = [
        (LendingError::AlreadyInitialized, "already initialized"),
        (LendingError::OnlyAdmin, "only admin"),
        (LendingError::InvalidCfBps, "invalid cf_bps"),
        (LendingError::InvalidCf, "invalid cf"),
        (LendingError::InvalidLt, "invalid lt"),
        (LendingError::PriceNotPositive, "price must be positive"),
        (LendingError::RateNotPositive, "rate must be positive"),
        (LendingError::AssetAlreadyRegistered, "asset already registered"),
        (LendingError::AssetNotRegistered, "asset not registered"),
        (LendingError::MaxAssetsReached, "max collateral assets reached"),
        (LendingError::PricedByExchangeRate, "use update_exchange_rate for sXLM"),
        (LendingError::CannotDisableSxlm, "cannot disable sXLM"),
        (LendingError::AmountNotPositive, "amount must be positive"),
        (LendingError::AssetNotEnabled, "collateral asset not enabled"),
        (LendingError::InsufficientCollateral, "insufficient collateral balance"),
        (LendingError::InsufficientPoolLiquidity, "insufficient pool liquidity"),
        (LendingError::NoDebt, "no debt to liquidate"),
        (LendingError::PositionHealthy, "position is healthy, cannot liquidate"),
    ];
    for (e, text) in texts {
        assert_eq!(e.message(), text);
    }
}
