//! A lending market: borrowers deposit any registered Stellar asset as collateral to
//! borrow XLM.
//!
//! ## Supported collateral assets (example)
//! | Asset | Symbol | Collateral Factor | Notes                       |
//! |-------|--------|-------------------|-----------------------------|
//! | sXLM  | sXLM   | 75 %              | Liquid staking receipt      |
//! | USDC  | USDC   | 90 %              | Circle USD on Stellar       |
//! | EURC  | EURC   | 88 %              | Circle EUR on Stellar       |
//! | yXLM  | yXLM   | 70 %              | Yield-bearing XLM wrapper   |
//!
//! ## Price oracle
//! Each collateral asset has an admin-settable XLM price (scaled by
//! `RATE_PRECISION = 1e7`). For sXLM the price is the staking exchange rate.
//!
//! ## Health factor
//! The collateral of a user, each asset weighed by the global liquidation threshold, over
//! the user's debt. When it is below one the position is liquidatable.
//!
//! ## Liquidation
//! A liquidator repays the full XLM debt and receives the worth of the debt plus the
//! liquidation bonus, seized pro rata of every collateral asset that the borrower holds.

use std::collections::HashMap;
use vstd::prelude::*;
use crate::arith::{mul_div, mul_mul_div, BPS_DENOMINATOR, RATE_PRECISION};
use crate::host;
use crate::host::{none_of, one_of, Address, Extension, Invocation, Receipt, Transfer};
use crate::sdk;
use crate::sdk::{ids_get, ids_len, ids_new, ids_push_back, pairs_new, pairs_push_back};

pub mod book_laws;
pub mod call_laws;
pub mod laws;
pub mod model;
pub mod position_laws;

use model::{
    position_key, share, AssetConfig, Claim, LendingConfig, LendingError, LendingEvent, LendingState,
    Seizure, Weighing, DEFAULT_CF_BPS, DEFAULT_LIQUIDATION_BONUS_BPS,
    DEFAULT_LIQUIDATION_THRESHOLD_BPS, MAX_ASSETS,
};

verus! {

broadcast use vstd::std_specs::hash::group_hash_axioms;

/// The result of a market call.
pub type LendingResult<T> = Result<Receipt<T, LendingEvent>, LendingError>;

/// The market.
pub struct LendingContract {
    /// Set by `initialize`.
    pub config: Option<LendingConfig>,
    /// sXLM to XLM exchange rate (scaled by `RATE_PRECISION`), the price of sXLM.
    pub exchange_rate: i128,
    /// Global liquidation threshold, in basis points.
    pub liquidation_threshold_bps: i128,
    pub borrow_rate_bps: i128,
    pub liquidation_bonus_bps: i128,
    /// Global total XLM borrowed across all users.
    pub total_borrowed: i128,
    pub total_accrued_interest: i128,
    /// Ordered list of all registered collateral assets, by address index.
    pub asset_list: soroban_sdk::Vec<u32>,
    /// What is kept of each asset, by address index.
    pub assets: HashMap<u32, AssetConfig>,
    /// Collateral by `position_key`.
    pub balances: HashMap<u64, i128>,
    /// Debts by address index.
    pub debts: HashMap<u32, i128>,
}

impl View for LendingContract {
    type V = LendingState;

    open spec fn view(&self) -> LendingState {
        LendingState {
            config: self.config,
            exchange_rate: self.exchange_rate,
            liquidation_threshold_bps: self.liquidation_threshold_bps,
            borrow_rate_bps: self.borrow_rate_bps,
            liquidation_bonus_bps: self.liquidation_bonus_bps,
            total_borrowed: self.total_borrowed,
            total_accrued_interest: self.total_accrued_interest,
            asset_list: sdk::id_items(self.asset_list),
            assets: self.assets@,
            balances: self.balances@,
            debts: self.debts@,
        }
    }
}

/// A receipt that only names who has to authorize the call.
fn authorized_by(auth: Address) -> (r: LendingResult<()>)
    ensures
        r is Ok,
        r->Ok_0@ == model::authorized_by(auth),
{
    Ok(Receipt { value: (), auth: Some(auth), transfers: none_of(), events: none_of() })
}

/// A receipt with an event.
fn reported(auth: Address, event: LendingEvent) -> (r: LendingResult<()>)
    ensures
        r is Ok,
        r->Ok_0@ == model::reported(auth, event),
{
    Ok(Receipt { value: (), auth: Some(auth), transfers: none_of(), events: one_of(event) })
}

/// A receipt with a transfer and an event.
fn moved(auth: Address, transfer: Transfer, event: LendingEvent) -> (r: LendingResult<()>)
    ensures
        r is Ok,
        r->Ok_0@ == model::moved(auth, transfer, event),
{
    Ok(Receipt { value: (), auth: Some(auth), transfers: one_of(transfer), events: one_of(event) })
}

impl LendingContract {
    /// Whether the list of assets can be read.
    pub open spec fn wf(self) -> bool {
        sdk::ids_typed(self.asset_list)
    }

    /// A market that is not initialized yet.
    pub fn new(env: &soroban_sdk::Env) -> (market: LendingContract)
        ensures
            market.wf(),
            market@ == LendingState::blank(),
    {
        LendingContract {
            config: None,
            exchange_rate: RATE_PRECISION,
            liquidation_threshold_bps: DEFAULT_LIQUIDATION_THRESHOLD_BPS,
            borrow_rate_bps: 0,
            liquidation_bonus_bps: DEFAULT_LIQUIDATION_BONUS_BPS,
            total_borrowed: 0,
            total_accrued_interest: 0,
            asset_list: ids_new(env),
            assets: HashMap::new(),
            balances: HashMap::new(),
            debts: HashMap::new(),
        }
    }

    // -----------------------------------------------------------------------
    // Reading
    // -----------------------------------------------------------------------

    fn asset(&self, asset: Address) -> (r: AssetConfig)
        ensures
            r == self@.asset(asset),
    {
        match self.assets.get(&asset.id) {
            Some(record) => *record,
            None => AssetConfig {
                enabled: false,
                cf_bps: DEFAULT_CF_BPS,
                price: RATE_PRECISION,
                total_collateral: 0,
            },
        }
    }

    fn balance(&self, user: Address, asset: Address) -> (r: i128)
        ensures
            r == self@.balance(user, asset),
    {
        match self.balances.get(&position_key(user, asset)) {
            Some(balance) => *balance,
            None => 0,
        }
    }

    fn debt(&self, user: Address) -> (r: i128)
        ensures
            r == self@.debt(user),
    {
        match self.debts.get(&user.id) {
            Some(debt) => *debt,
            None => 0,
        }
    }

    /// Oracle price of `asset` in XLM, scaled by RATE_PRECISION.
    /// For sXLM this is the exchange rate.
    fn asset_price(&self, asset: Address) -> (r: Option<i128>)
        ensures
            r == self@.asset_price(asset),
    {
        match self.config {
            None => None,
            Some(c) => if asset == c.sxlm_token {
                Some(self.exchange_rate)
            } else {
                Some(self.asset(asset).price)
            },
        }
    }

    fn factor(&self, asset: Address, weighing: Weighing) -> (r: i128)
        ensures
            r == self@.factor(asset, weighing),
    {
        match weighing {
            Weighing::CollateralFactor => self.asset(asset).cf_bps,
            Weighing::LiquidationThreshold => self.liquidation_threshold_bps,
            Weighing::Price => 1,
        }
    }

    fn weighted_value(&self, user: Address, asset: Address, weighing: Weighing) -> (r: Result<
        i128,
        LendingError,
    >)
        ensures
            r == self@.weighted_value(user, asset, weighing),
    {
        let balance: i128 = self.balance(user, asset);
        if balance <= 0 {
            return Ok(0);
        }
        let price: i128 = match self.asset_price(asset) {
            None => return Err(LendingError::NotInitialized),
            Some(price) => price,
        };
        match mul_mul_div(balance, price, self.factor(asset, weighing), weighing.scale()) {
            None => Err(LendingError::Arithmetic),
            Some(value) => Ok(value),
        }
    }

    /// Compute the user's total weighted collateral value across all supported assets.
    /// Returns value in XLM stroops (with BPS and RATE_PRECISION already divided out), or
    /// scaled by RATE_PRECISION if nothing but the price is to count.
    pub fn total_weighted_collateral(&self, user: Address, weighing: Weighing) -> (r: Result<
        i128,
        LendingError,
    >)
        requires
            self.wf(),
        ensures
            r == self@.weighted_collateral(user, weighing),
    {
        let len: u32 = ids_len(&self.asset_list);
        let ghost list = self@.asset_list;
        let mut total: i128 = 0;
        let mut i: u32 = 0;
        while i < len
            invariant
                self.wf(),
                list == self@.asset_list,
                len == list.len(),
                i <= len,
                self@.weighted_sum(user, list.take(i as int), weighing) == Ok::<i128, LendingError>(
                    total,
                ),
            decreases len - i,
        {
            let id: u32 = match ids_get(&self.asset_list, i) {
                Some(id) => id,
                None => 0,
            };
            proof {
                assert(list.take(i + 1).drop_last() =~= list.take(i as int));
                assert(list.take(i + 1).last() == id);
            }
            match self.weighted_value(user, Address { id }, weighing) {
                Err(e) => {
                    proof {
                        self@.lemma_weighted_sum_fails(user, list, i + 1, weighing);
                    }
                    return Err(e);
                },
                Ok(value) => match total.checked_add(value) {
                    None => {
                        proof {
                            self@.lemma_weighted_sum_fails(user, list, i + 1, weighing);
                        }
                        return Err(LendingError::Arithmetic);
                    },
                    Some(sum) => {
                        total = sum;
                    },
                },
            }
            i = i + 1;
        }
        proof {
            assert(list.take(len as int) =~= list);
        }
        Ok(total)
    }

    // -----------------------------------------------------------------------
    // Lifecycle
    // -----------------------------------------------------------------------

    /// One-time initialization. sXLM is registered as the first collateral asset.
    pub fn initialize(
        &mut self,
        inv: &Invocation,
        admin: Address,
        sxlm_token: Address,
        native_token: Address,
        collateral_factor_bps: u32,
        liquidation_threshold_bps: u32,
        borrow_rate_bps: u32,
    ) -> (r: LendingResult<()>)
        requires
            old(self).wf(),
        ensures
            final(self).wf(),
            match model::initialize_step(
                old(self)@,
                admin,
                sxlm_token,
                native_token,
                collateral_factor_bps,
                liquidation_threshold_bps,
                borrow_rate_bps,
            ) {
                Ok((next, out)) => r is Ok && r->Ok_0@ == out && final(self)@ == next,
                Err(e) => r == LendingResult::<()>::Err(e) && *final(self) == *old(self),
            },
    {
        if self.config.is_some() {
            return Err(LendingError::AlreadyInitialized);
        }
        let price: i128 = self.asset(sxlm_token).price;
        self.config = Some(LendingConfig { admin, sxlm_token, native_token });
        self.exchange_rate = RATE_PRECISION;
        self.liquidation_threshold_bps = liquidation_threshold_bps as i128;
        self.borrow_rate_bps = borrow_rate_bps as i128;
        self.liquidation_bonus_bps = DEFAULT_LIQUIDATION_BONUS_BPS;
        self.total_borrowed = 0;
        let mut list = ids_new(&inv.env);
        ids_push_back(&mut list, sxlm_token.id);
        self.asset_list = list;
        self.assets.insert(
            sxlm_token.id,
            AssetConfig {
                enabled: true,
                cf_bps: collateral_factor_bps as i128,
                price,
                total_collateral: 0,
            },
        );
        Ok(Receipt { value: (), auth: None, transfers: none_of(), events: none_of() })
    }

    fn check_admin(&self, admin: Address) -> (r: Result<LendingConfig, LendingError>)
        ensures
            r == model::checked_admin(self@, admin),
    {
        match self.config {
            None => Err(LendingError::NotInitialized),
            Some(c) => if admin != c.admin {
                Err(LendingError::OnlyAdmin)
            } else {
                Ok(c)
            },
        }
    }

    // -----------------------------------------------------------------------
    // Asset management (admin)
    // -----------------------------------------------------------------------

    /// Add a new collateral asset. Admin-only.
    ///
    /// * `asset`          - Stellar asset contract address
    /// * `cf_bps`         - Collateral factor (e.g., 9000 for USDC at 90%)
    /// * `initial_price`  - Oracle price of 1 unit in XLM x 1e7 (e.g., 1e7 for USDC if 1 USDC = 1 XLM)
    pub fn add_collateral_asset(
        &mut self,
        admin: Address,
        asset: Address,
        cf_bps: u32,
        initial_price: i128,
    ) -> (r: LendingResult<()>)
        requires
            old(self).wf(),
        ensures
            final(self).wf(),
            match model::add_collateral_asset_step(
                old(self)@,
                admin,
                asset,
                cf_bps,
                initial_price,
            ) {
                Ok((next, out)) => r is Ok && r->Ok_0@ == out && final(self)@ == next,
                Err(e) => r == LendingResult::<()>::Err(e) && *final(self) == *old(self),
            },
    {
        match self.check_admin(admin) {
            Err(e) => return Err(e),
            Ok(_) => {},
        }
        if !(cf_bps > 0 && cf_bps <= 10_000) {
            return Err(LendingError::InvalidCfBps);
        }
        if initial_price <= 0 {
            return Err(LendingError::PriceNotPositive);
        }
        if self.asset(asset).enabled {
            return Err(LendingError::AssetAlreadyRegistered);
        }
        if ids_len(&self.asset_list) >= MAX_ASSETS {
            return Err(LendingError::MaxAssetsReached);
        }
        ids_push_back(&mut self.asset_list, asset.id);
        self.assets.insert(
            asset.id,
            AssetConfig {
                enabled: true,
                cf_bps: cf_bps as i128,
                price: initial_price,
                total_collateral: 0,
            },
        );
        reported(admin, LendingEvent::AssetAdded { asset, cf_bps, price: initial_price })
    }

    /// Update oracle price for a collateral asset. Admin-only.
    ///
    /// Called by the backend oracle keeper after every DEX TWAP refresh.
    /// For sXLM, use `update_exchange_rate` instead.
    pub fn update_asset_price(&mut self, admin: Address, asset: Address, price: i128) -> (r:
        LendingResult<()>)
        requires
            old(self).wf(),
        ensures
            final(self).wf(),
            match model::update_asset_price_step(old(self)@, admin, asset, price) {
                Ok((next, out)) => r is Ok && r->Ok_0@ == out && final(self)@ == next,
                Err(e) => r == LendingResult::<()>::Err(e) && *final(self) == *old(self),
            },
    {
        let config: LendingConfig = match self.check_admin(admin) {
            Err(e) => return Err(e),
            Ok(c) => c,
        };
        if price <= 0 {
            return Err(LendingError::PriceNotPositive);
        }
        if asset == config.sxlm_token {
            return Err(LendingError::PricedByExchangeRate);
        }
        let mut record: AssetConfig = self.asset(asset);
        record.price = price;
        self.assets.insert(asset.id, record);
        reported(admin, LendingEvent::PriceUpdated { asset, price })
    }

    /// Update per-asset collateral factor. Admin-only. Governable parameter.
    pub fn update_asset_cf(&mut self, admin: Address, asset: Address, new_cf_bps: u32) -> (r:
        LendingResult<()>)
        requires
            old(self).wf(),
        ensures
            final(self).wf(),
            match model::update_asset_cf_step(old(self)@, admin, asset, new_cf_bps) {
                Ok((next, out)) => r is Ok && r->Ok_0@ == out && final(self)@ == next,
                Err(e) => r == LendingResult::<()>::Err(e) && *final(self) == *old(self),
            },
    {
        match self.check_admin(admin) {
            Err(e) => return Err(e),
            Ok(_) => {},
        }
        if !(new_cf_bps > 0 && new_cf_bps <= 10_000) {
            return Err(LendingError::InvalidCfBps);
        }
        let mut record: AssetConfig = self.asset(asset);
        if !record.enabled {
            return Err(LendingError::AssetNotRegistered);
        }
        record.cf_bps = new_cf_bps as i128;
        self.assets.insert(asset.id, record);
        authorized_by(admin)
    }

    /// Disable an asset so new deposits are rejected. Admin-only.
    /// Existing positions are unaffected; users may still withdraw and liquidations still occur.
    pub fn disable_collateral_asset(&mut self, admin: Address, asset: Address) -> (r: LendingResult<
        (),
    >)
        requires
            old(self).wf(),
        ensures
            final(self).wf(),
            match model::disable_collateral_asset_step(old(self)@, admin, asset) {
                Ok((next, out)) => r is Ok && r->Ok_0@ == out && final(self)@ == next,
                Err(e) => r == LendingResult::<()>::Err(e) && *final(self) == *old(self),
            },
    {
        let config: LendingConfig = match self.check_admin(admin) {
            Err(e) => return Err(e),
            Ok(c) => c,
        };
        if asset == config.sxlm_token {
            return Err(LendingError::CannotDisableSxlm);
        }
        let mut record: AssetConfig = self.asset(asset);
        record.enabled = false;
        self.assets.insert(asset.id, record);
        authorized_by(admin)
    }

    // -----------------------------------------------------------------------
    // Admin setters
    // -----------------------------------------------------------------------

    /// Update sXLM to XLM exchange rate. Used as the oracle price for sXLM.
    pub fn update_exchange_rate(&mut self, rate: i128) -> (r: LendingResult<()>)
        requires
            old(self).wf(),
        ensures
            final(self).wf(),
            match model::update_exchange_rate_step(old(self)@, rate) {
                Ok((next, out)) => r is Ok && r->Ok_0@ == out && final(self)@ == next,
                Err(e) => r == LendingResult::<()>::Err(e) && *final(self) == *old(self),
            },
    {
        let config: LendingConfig = match self.config {
            None => return Err(LendingError::NotInitialized),
            Some(c) => c,
        };
        if rate <= 0 {
            return Err(LendingError::RateNotPositive);
        }
        self.exchange_rate = rate;
        reported(config.admin, LendingEvent::ExchangeRateUpdated { rate })
    }

    /// Update sXLM collateral factor. Admin-only.
    pub fn update_collateral_factor(&mut self, new_cf_bps: u32) -> (r: LendingResult<()>)
        requires
            old(self).wf(),
        ensures
            final(self).wf(),
            match model::update_collateral_factor_step(old(self)@, new_cf_bps) {
                Ok((next, out)) => r is Ok && r->Ok_0@ == out && final(self)@ == next,
                Err(e) => r == LendingResult::<()>::Err(e) && *final(self) == *old(self),
            },
    {
        let config: LendingConfig = match self.config {
            None => return Err(LendingError::NotInitialized),
            Some(c) => c,
        };
        if !(new_cf_bps > 0 && new_cf_bps <= 10_000) {
            return Err(LendingError::InvalidCf);
        }
        let mut record: AssetConfig = self.asset(config.sxlm_token);
        record.cf_bps = new_cf_bps as i128;
        self.assets.insert(config.sxlm_token.id, record);
        reported(config.admin, LendingEvent::CollateralFactorUpdated { cf_bps: new_cf_bps })
    }

    /// Update the global liquidation threshold. Admin-only.
    pub fn update_liquidation_threshold(&mut self, new_lt_bps: u32) -> (r: LendingResult<()>)
        requires
            old(self).wf(),
        ensures
            final(self).wf(),
            match model::update_liquidation_threshold_step(old(self)@, new_lt_bps) {
                Ok((next, out)) => r is Ok && r->Ok_0@ == out && final(self)@ == next,
                Err(e) => r == LendingResult::<()>::Err(e) && *final(self) == *old(self),
            },
    {
        let config: LendingConfig = match self.config {
            None => return Err(LendingError::NotInitialized),
            Some(c) => c,
        };
        if !(new_lt_bps > 0 && new_lt_bps <= 10_000) {
            return Err(LendingError::InvalidLt);
        }
        self.liquidation_threshold_bps = new_lt_bps as i128;
        authorized_by(config.admin)
    }

    /// Update the borrow rate. Admin-only.
    pub fn update_borrow_rate(&mut self, new_rate_bps: u32) -> (r: LendingResult<()>)
        requires
            old(self).wf(),
        ensures
            final(self).wf(),
            match model::update_borrow_rate_step(old(self)@, new_rate_bps) {
                Ok((next, out)) => r is Ok && r->Ok_0@ == out && final(self)@ == next,
                Err(e) => r == LendingResult::<()>::Err(e) && *final(self) == *old(self),
            },
    {
        let config: LendingConfig = match self.config {
            None => return Err(LendingError::NotInitialized),
            Some(c) => c,
        };
        self.borrow_rate_bps = new_rate_bps as i128;
        authorized_by(config.admin)
    }

    // -----------------------------------------------------------------------
    // Core lending functions
    // -----------------------------------------------------------------------

    fn set_total_collateral(&mut self, asset: Address, amount: i128)
        ensures
            final(self).asset_list == old(self).asset_list,
            final(self)@ == old(self)@.with_total_collateral(asset, amount),
    {
        let mut record: AssetConfig = self.asset(asset);
        record.total_collateral = amount;
        self.assets.insert(asset.id, record);
    }

    /// Deposit any whitelisted Stellar asset as collateral.
    ///
    /// `asset` must have been registered via `add_collateral_asset`.
    pub fn deposit_collateral(
        &mut self,
        inv: &Invocation,
        user: Address,
        asset: Address,
        amount: i128,
    ) -> (r: LendingResult<()>)
        requires
            old(self).wf(),
        ensures
            final(self).wf(),
            match model::deposit_collateral_step(old(self)@, inv.contract, user, asset, amount) {
                Ok((next, out)) => r is Ok && r->Ok_0@ == out && final(self)@ == next,
                Err(e) => r == LendingResult::<()>::Err(e) && *final(self) == *old(self),
            },
    {
        if amount <= 0 {
            return Err(LendingError::AmountNotPositive);
        }
        let record: AssetConfig = self.asset(asset);
        if !record.enabled {
            return Err(LendingError::AssetNotEnabled);
        }
        match (
            self.balance(user, asset).checked_add(amount),
            record.total_collateral.checked_add(amount),
        ) {
            (Some(balance), Some(total)) => {
                self.balances.insert(position_key(user, asset), balance);
                self.set_total_collateral(asset, total);
                moved(
                    user,
                    Transfer { token: asset, from: user, to: inv.contract, amount },
                    LendingEvent::Deposited { user, asset, amount },
                )
            },
            _ => Err(LendingError::Arithmetic),
        }
    }

    fn check_withdrawal(&self, user: Address) -> (r: Result<(), LendingError>)
        requires
            self.wf(),
        ensures
            r == model::withdrawal_check(self@, user),
    {
        if self.debt(user) > 0 {
            match self.health_factor(user) {
                Err(e) => Err(e),
                Ok(hf) => if hf < RATE_PRECISION {
                    Err(LendingError::WithdrawalUnhealthy)
                } else {
                    Ok(())
                },
            }
        } else {
            Ok(())
        }
    }

    /// Withdraw collateral, provided the position remains healthy.
    pub fn withdraw_collateral(
        &mut self,
        inv: &Invocation,
        user: Address,
        asset: Address,
        amount: i128,
    ) -> (r: LendingResult<()>)
        requires
            old(self).wf(),
        ensures
            final(self).wf(),
            match model::withdraw_collateral_step(old(self)@, inv.contract, user, asset, amount) {
                Ok((next, out)) => r is Ok && r->Ok_0@ == out && final(self)@ == next,
                Err(e) => r == LendingResult::<()>::Err(e) && final(self)@ == old(self)@,
            },
    {
        if amount <= 0 {
            return Err(LendingError::AmountNotPositive);
        }
        let current: i128 = self.balance(user, asset);
        if current < amount {
            return Err(LendingError::InsufficientCollateral);
        }
        // Simulate the withdrawal and check the health factor
        self.balances.insert(position_key(user, asset), current - amount);
        let ghost simulated = old(self)@.with_balance(user, asset, (current - amount) as i128);
        proof {
            assert(self@ =~= simulated);
        }
        let failure: Option<LendingError> = match self.check_withdrawal(user) {
            Err(e) => Some(e),
            Ok(_) => match self.asset(asset).total_collateral.checked_sub(amount) {
                None => Some(LendingError::Arithmetic),
                Some(total) => {
                    self.set_total_collateral(asset, total);
                    None
                },
            },
        };
        match failure {
            Some(e) => {
                self.balances.insert(position_key(user, asset), current);
                proof {
                    assert(self@.balances =~= old(self)@.balances);
                }
                Err(e)
            },
            None => moved(
                user,
                Transfer { token: asset, from: inv.contract, to: user, amount },
                LendingEvent::Withdrawn { user, asset, amount },
            ),
        }
    }

    /// Borrow XLM against deposited multi-asset collateral. `pool_balance` is the XLM that
    /// the market holds.
    pub fn borrow(&mut self, inv: &Invocation, user: Address, xlm_amount: i128, pool_balance: i128) -> (r:
        LendingResult<()>)
        requires
            old(self).wf(),
        ensures
            final(self).wf(),
            match model::borrow_step(old(self)@, inv.contract, user, xlm_amount, pool_balance) {
                Ok((next, out)) => r is Ok && r->Ok_0@ == out && final(self)@ == next,
                Err(e) => r == LendingResult::<()>::Err(e) && *final(self) == *old(self),
            },
    {
        if xlm_amount <= 0 {
            return Err(LendingError::AmountNotPositive);
        }
        let new_debt: i128 = match self.debt(user).checked_add(xlm_amount) {
            None => return Err(LendingError::Arithmetic),
            Some(new_debt) => new_debt,
        };
        match self.total_weighted_collateral(user, Weighing::CollateralFactor) {
            Err(e) => return Err(e),
            Ok(max) => if new_debt > max {
                return Err(LendingError::BorrowExceedsLimit);
            },
        }
        let config: LendingConfig = match self.config {
            None => return Err(LendingError::NotInitialized),
            Some(c) => c,
        };
        if pool_balance < xlm_amount {
            return Err(LendingError::InsufficientPoolLiquidity);
        }
        let total: i128 = match self.total_borrowed.checked_add(xlm_amount) {
            None => return Err(LendingError::Arithmetic),
            Some(total) => total,
        };
        self.debts.insert(user.id, new_debt);
        self.total_borrowed = total;
        moved(
            user,
            Transfer {
                token: config.native_token,
                from: inv.contract,
                to: user,
                amount: xlm_amount,
            },
            LendingEvent::Borrowed { user, amount: xlm_amount },
        )
    }

    /// Repay XLM debt.
    pub fn repay(&mut self, inv: &Invocation, user: Address, xlm_amount: i128) -> (r: LendingResult<
        (),
    >)
        requires
            old(self).wf(),
        ensures
            final(self).wf(),
            match model::repay_step(old(self)@, inv.contract, user, xlm_amount) {
                Ok((next, out)) => r is Ok && r->Ok_0@ == out && final(self)@ == next,
                Err(e) => r == LendingResult::<()>::Err(e) && *final(self) == *old(self),
            },
    {
        if xlm_amount <= 0 {
            return Err(LendingError::AmountNotPositive);
        }
        let debt: i128 = self.debt(user);
        let amount: i128 = if xlm_amount > debt {
            debt
        } else {
            xlm_amount
        };
        let config: LendingConfig = match self.config {
            None => return Err(LendingError::NotInitialized),
            Some(c) => c,
        };
        let total: i128 = match self.total_borrowed.checked_sub(amount) {
            None => return Err(LendingError::Arithmetic),
            Some(total) => total,
        };
        self.debts.insert(user.id, debt - amount);
        self.total_borrowed = total;
        moved(
            user,
            Transfer { token: config.native_token, from: user, to: inv.contract, amount },
            LendingEvent::Repaid { user, amount },
        )
    }

    /// What a liquidator who repays the whole debt of `borrower` asks of the collateral.
    fn claim(&self, borrower: Address) -> (r: Result<Claim, LendingError>)
        requires
            self.wf(),
        ensures
            r == self@.claim(borrower),
    {
        match self.total_weighted_collateral(borrower, Weighing::Price) {
            Err(e) => Err(e),
            Ok(total) => Ok(Claim { debt: self.debt(borrower), total }),
        }
    }

    /// The units of an asset at `price` that pay for `debt` XLM, and the bonus on them.
    fn units_for(&self, debt: i128, price: i128) -> (r: Option<i128>)
        ensures
            r == self@.units_for(debt, price),
    {
        match (
            mul_div(debt, RATE_PRECISION, price),
            BPS_DENOMINATOR.checked_add(self.liquidation_bonus_bps),
        ) {
            (Some(debt_in_asset), Some(with_bonus_bps)) => mul_div(
                debt_in_asset,
                with_bonus_bps,
                BPS_DENOMINATOR,
            ),
            _ => None,
        }
    }

    /// What the claim takes of `asset`.
    fn seizable(&self, borrower: Address, claim: Claim, asset: Address) -> (r: Result<
        i128,
        LendingError,
    >)
        ensures
            r == self@.seizable(borrower, claim, asset),
            r is Ok ==> 0 <= r->Ok_0 && (r->Ok_0 > 0 ==> r->Ok_0 <= self@.balance(borrower, asset)),
    {
        let balance: i128 = self.balance(borrower, asset);
        if balance <= 0 {
            return Ok(0);
        }
        let price: i128 = match self.asset_price(asset) {
            None => return Err(LendingError::NotInitialized),
            Some(price) => price,
        };
        match self.units_for(claim.debt, price) {
            None => Err(LendingError::Arithmetic),
            Some(units) => Ok(share(balance, units, price, claim.total)),
        }
    }

    /// Seizes the claim's share of every listed asset of `borrower` in turn. On failure some
    /// of them may have been seized.
    fn seize(&mut self, borrower: Address, claim: Claim) -> (r: Result<Vec<Seizure>, LendingError>)
        requires
            old(self).wf(),
        ensures
            final(self).asset_list == old(self).asset_list,
            match old(self)@.seize(borrower, claim, old(self)@.asset_list) {
                Ok((next, seized)) => r is Ok && r->Ok_0@ == seized && final(self)@ == next,
                Err(e) => r == Err::<Vec<Seizure>, LendingError>(e) && ({
                    &&& final(self)@.config == old(self)@.config
                    &&& final(self)@.exchange_rate == old(self)@.exchange_rate
                    &&& final(self)@.liquidation_threshold_bps
                        == old(self)@.liquidation_threshold_bps
                    &&& final(self)@.borrow_rate_bps == old(self)@.borrow_rate_bps
                    &&& final(self)@.liquidation_bonus_bps == old(self)@.liquidation_bonus_bps
                    &&& final(self)@.total_borrowed == old(self)@.total_borrowed
                    &&& final(self)@.total_accrued_interest == old(self)@.total_accrued_interest
                    &&& final(self)@.debts == old(self)@.debts
                }),
            },
    {
        let ghost start = self@;
        let ghost list = self@.asset_list;
        let len: u32 = ids_len(&self.asset_list);
        let mut seized: Vec<Seizure> = Vec::new();
        let mut i: u32 = 0;
        while i < len
            invariant
                self.wf(),
                start == old(self)@,
                self.asset_list == old(self).asset_list,
                list == self@.asset_list,
                len == list.len(),
                i <= len,
                start.seize(borrower, claim, list.take(i as int)) == Ok::<
                    (LendingState, Seq<Seizure>),
                    LendingError,
                >((self@, seized@)),
                self@ == (LendingState { assets: self@.assets, balances: self@.balances, ..start }),
            decreases len - i,
        {
            let id: u32 = match ids_get(&self.asset_list, i) {
                Some(id) => id,
                None => 0,
            };
            let asset = Address { id };
            proof {
                assert(list.take(i + 1).drop_last() =~= list.take(i as int));
                assert(list.take(i + 1).last() == id);
            }
            match self.seizable(borrower, claim, asset) {
                Err(e) => {
                    proof {
                        start.lemma_seize_fails(borrower, claim, list, i + 1);
                    }
                    return Err(e);
                },
                Ok(amount) => if amount > 0 {
                    let total: i128 = match self.asset(asset).total_collateral.checked_sub(amount) {
                        None => {
                            proof {
                                start.lemma_seize_fails(borrower, claim, list, i + 1);
                            }
                            return Err(LendingError::Arithmetic);
                        },
                        Some(total) => total,
                    };
                    let ghost before = self@;
                    let remaining: i128 = self.balance(borrower, asset) - amount;
                    self.balances.insert(position_key(borrower, asset), remaining);
                    self.set_total_collateral(asset, total);
                    seized.push(Seizure { asset, amount });
                    proof {
                        assert(self@ =~= before.after_seizure(borrower, asset, amount));
                    }
                },
            }
            i = i + 1;
        }
        proof {
            assert(list.take(len as int) =~= list);
        }
        Ok(seized)
    }

    /// Liquidate an unhealthy multi-asset position.
    ///
    /// The liquidator repays the borrower's entire XLM debt and receives a
    /// pro-rata share of each collateral asset, scaled by the liquidation bonus.
    ///
    /// Returns the total XLM debt repaid.
    pub fn liquidate(&mut self, inv: &Invocation, liquidator: Address, borrower: Address) -> (r:
        LendingResult<i128>)
        requires
            old(self).wf(),
        ensures
            final(self).wf(),
            match model::liquidate_step(old(self)@, inv.contract, liquidator, borrower) {
                Ok((next, out)) => r is Ok && r->Ok_0@ == out && final(self)@ == next,
                Err(e) => r == LendingResult::<i128>::Err(e) && final(self)@ == old(self)@,
            },
    {
        let debt: i128 = self.debt(borrower);
        if debt <= 0 {
            return Err(LendingError::NoDebt);
        }
        match self.health_factor(borrower) {
            Err(e) => return Err(e),
            Ok(hf) => if hf >= RATE_PRECISION {
                return Err(LendingError::PositionHealthy);
            },
        }
        let config: LendingConfig = match self.config {
            None => return Err(LendingError::NotInitialized),
            Some(c) => c,
        };
        let total: i128 = match self.total_borrowed.checked_sub(debt) {
            None => return Err(LendingError::Arithmetic),
            Some(total) => total,
        };
        let claim: Claim = match self.claim(borrower) {
            Err(e) => return Err(e),
            Ok(claim) => claim,
        };
        let kept_total: i128 = self.total_borrowed;
        let kept_assets: HashMap<u32, AssetConfig> = self.assets.clone();
        let kept_balances: HashMap<u64, i128> = self.balances.clone();

        self.debts.insert(borrower.id, 0);
        self.total_borrowed = total;
        let seized: Vec<Seizure> = match self.seize(borrower, claim) {
            Err(e) => {
                self.total_borrowed = kept_total;
                self.assets = kept_assets;
                self.balances = kept_balances;
                self.debts.insert(borrower.id, debt);
                proof {
                    assert(self@ =~= old(self)@);
                }
                return Err(e);
            },
            Ok(seized) => seized,
        };

        let mut transfers: Vec<Transfer> = one_of(
            Transfer {
                token: config.native_token,
                from: liquidator,
                to: inv.contract,
                amount: debt,
            },
        );
        let mut events: Vec<LendingEvent> = Vec::new();
        let ghost payment = transfers@;
        let ghost to_transfer = |x: Seizure| model::seizure_transfer(inv.contract, liquidator, x);
        let ghost to_event = |x: Seizure| model::seizure_event(liquidator, borrower, x);
        let mut i: usize = 0;
        while i < seized.len()
            invariant
                i <= seized.len(),
                to_transfer == (|x: Seizure| model::seizure_transfer(inv.contract, liquidator, x)),
                to_event == (|x: Seizure| model::seizure_event(liquidator, borrower, x)),
                transfers@ == payment + seized@.take(i as int).map_values(to_transfer),
                events@ == seized@.take(i as int).map_values(to_event),
            decreases seized.len() - i,
        {
            let x: Seizure = seized[i];
            transfers.push(
                Transfer { token: x.asset, from: inv.contract, to: liquidator, amount: x.amount },
            );
            events.push(
                LendingEvent::Liquidated { liquidator, borrower, asset: x.asset, amount: x.amount },
            );
            proof {
                assert(seized@.take(i + 1) =~= seized@.take(i as int).push(x));
                assert(seized@.take(i + 1).map_values(to_transfer) =~= seized@.take(
                    i as int,
                ).map_values(to_transfer).push(to_transfer(x)));
                assert(seized@.take(i + 1).map_values(to_event) =~= seized@.take(
                    i as int,
                ).map_values(to_event).push(to_event(x)));
                assert(transfers@ =~= payment + seized@.take(i + 1).map_values(to_transfer));
            }
            i = i + 1;
        }
        proof {
            assert(seized@.take(seized@.len() as int) =~= seized@);
        }
        Ok(Receipt { value: debt, auth: Some(liquidator), transfers, events })
    }

    // -----------------------------------------------------------------------
    // Views
    // -----------------------------------------------------------------------

    /// Returns the user's balance of a specific collateral asset, and total XLM borrowed.
    pub fn get_position(&self, user: Address, asset: Address) -> (r: (i128, i128))
        ensures
            r == (self@.balance(user, asset), self@.debt(user)),
    {
        (self.balance(user, asset), self.debt(user))
    }

    /// Returns the user's total XLM borrowed.
    pub fn get_user_borrowed(&self, user: Address) -> (r: i128)
        ensures
            r == self@.debt(user),
    {
        self.debt(user)
    }

    /// Returns the user's entire multi-asset collateral position as a list of pairs of
    /// asset index and balance.
    pub fn get_full_position(&self, inv: &Invocation, user: Address) -> (r: soroban_sdk::Vec<
        (u32, i128),
    >)
        requires
            self.wf(),
        ensures
            sdk::pairs_typed(r),
            sdk::pair_items(r) == self@.holdings(user, self@.asset_list),
    {
        let len: u32 = ids_len(&self.asset_list);
        let ghost list = self@.asset_list;
        let mut r = pairs_new(&inv.env);
        let mut i: u32 = 0;
        while i < len
            invariant
                self.wf(),
                list == self@.asset_list,
                len == list.len(),
                i <= len,
                sdk::pairs_typed(r),
                sdk::pair_items(r).len() <= i,
                sdk::pair_items(r) == self@.holdings(user, list.take(i as int)),
            decreases len - i,
        {
            let id: u32 = match ids_get(&self.asset_list, i) {
                Some(id) => id,
                None => 0,
            };
            proof {
                assert(list.take(i + 1).drop_last() =~= list.take(i as int));
                assert(list.take(i + 1).last() == id);
            }
            let balance: i128 = self.balance(user, Address { id });
            if balance > 0 {
                pairs_push_back(&mut r, (id, balance));
            }
            i = i + 1;
        }
        proof {
            assert(list.take(len as int) =~= list);
        }
        r
    }

    /// Health factor scaled by RATE_PRECISION (1e7 = 1.0). Uses liquidation threshold.
    pub fn health_factor(&self, user: Address) -> (r: Result<i128, LendingError>)
        requires
            self.wf(),
        ensures
            r == self@.health_factor(user),
    {
        let debt: i128 = self.debt(user);
        if debt == 0 {
            return Ok(i128::MAX);
        }
        match self.total_weighted_collateral(user, Weighing::LiquidationThreshold) {
            Err(e) => Err(e),
            Ok(weighted) => match mul_div(weighted, RATE_PRECISION, debt) {
                None => Err(LendingError::Arithmetic),
                Some(hf) => Ok(hf),
            },
        }
    }

    /// Maximum XLM that `user` can borrow given current multi-asset collateral and collateral factors.
    pub fn max_borrow_amount(&self, user: Address) -> (r: Result<i128, LendingError>)
        requires
            self.wf(),
        ensures
            r == self@.max_borrow_amount(user),
    {
        let debt: i128 = self.debt(user);
        match self.total_weighted_collateral(user, Weighing::CollateralFactor) {
            Err(e) => Err(e),
            Ok(capacity) => if capacity <= debt {
                Ok(0)
            } else {
                match capacity.checked_sub(debt) {
                    None => Err(LendingError::Arithmetic),
                    Some(left) => Ok(left),
                }
            },
        }
    }

    /// List all registered collateral assets.
    pub fn get_asset_list(&self) -> (r: Vec<Address>)
        requires
            self.wf(),
        ensures
            r@ == self@.asset_list.map_values(|id: u32| Address { id }),
    {
        let len: u32 = ids_len(&self.asset_list);
        let ghost all = self@.asset_list.map_values(|id: u32| Address { id });
        let mut r: Vec<Address> = Vec::new();
        let mut i: u32 = 0;
        while i < len
            invariant
                self.wf(),
                all == self@.asset_list.map_values(|id: u32| Address { id }),
                len == self@.asset_list.len(),
                i <= len,
                r@ == all.take(i as int),
            decreases len - i,
        {
            match ids_get(&self.asset_list, i) {
                Some(id) => {
                    proof {
                        assert(all.take(i + 1) =~= all.take(i as int).push(Address { id }));
                    }
                    r.push(Address { id });
                },
                None => {},
            }
            i = i + 1;
        }
        proof {
            assert(all.take(len as int) =~= all);
        }
        r
    }

    /// Per-asset config: (cf_bps, price, enabled).
    pub fn get_asset_config(&self, asset: Address) -> (r: Result<(i128, i128, bool), LendingError>)
        ensures
            match self@.asset_price(asset) {
                Some(price) => r == Ok::<(i128, i128, bool), LendingError>(
                    (self@.asset(asset).cf_bps, price, self@.asset(asset).enabled),
                ),
                None => r == Err::<(i128, i128, bool), LendingError>(LendingError::NotInitialized),
            },
            self@.asset_price(asset) is None <==> self@.config is None,
    {
        let record: AssetConfig = self.asset(asset);
        match self.asset_price(asset) {
            None => Err(LendingError::NotInitialized),
            Some(price) => Ok((record.cf_bps, price, record.enabled)),
        }
    }

    pub fn total_borrowed(&self) -> (r: i128)
        ensures
            r == self@.total_borrowed,
    {
        self.total_borrowed
    }

    pub fn total_asset_collateral(&self, asset: Address) -> (r: i128)
        ensures
            r == self@.asset(asset).total_collateral,
    {
        self.asset(asset).total_collateral
    }

    pub fn get_exchange_rate(&self) -> (r: i128)
        ensures
            r == self@.exchange_rate,
    {
        self.exchange_rate
    }

    pub fn get_collateral_factor(&self) -> (r: Result<i128, LendingError>)
        ensures
            match self@.config {
                Some(c) => r == Ok::<i128, LendingError>(self@.asset(c.sxlm_token).cf_bps),
                None => r == Err::<i128, LendingError>(LendingError::NotInitialized),
            },
    {
        match self.config {
            None => Err(LendingError::NotInitialized),
            Some(c) => Ok(self.asset(c.sxlm_token).cf_bps),
        }
    }

    pub fn get_liquidation_threshold(&self) -> (r: i128)
        ensures
            r == self@.liquidation_threshold_bps,
    {
        self.liquidation_threshold_bps
    }

    pub fn get_borrow_rate(&self) -> (r: i128)
        ensures
            r == self@.borrow_rate_bps,
    {
        self.borrow_rate_bps
    }

    pub fn get_liquidation_bonus(&self) -> (r: i128)
        ensures
            r == self@.liquidation_bonus_bps,
    {
        self.liquidation_bonus_bps
    }

    pub fn total_accrued_interest(&self) -> (r: i128)
        ensures
            r == self@.total_accrued_interest,
    {
        self.total_accrued_interest
    }

    /// Hand over the accrued interest. Admin-only. Returns the amount.
    pub fn harvest_interest(&mut self) -> (r: LendingResult<i128>)
        requires
            old(self).wf(),
        ensures
            final(self).wf(),
            match model::harvest_interest_step(old(self)@) {
                Ok((next, out)) => r is Ok && r->Ok_0@ == out && final(self)@ == next,
                Err(e) => r == LendingResult::<i128>::Err(e) && *final(self) == *old(self),
            },
    {
        let config: LendingConfig = match self.config {
            None => return Err(LendingError::NotInitialized),
            Some(c) => c,
        };
        let accrued: i128 = self.total_accrued_interest;
        self.total_accrued_interest = 0;
        Ok(
            Receipt {
                value: accrued,
                auth: Some(config.admin),
                transfers: none_of(),
                events: none_of(),
            },
        )
    }

    // -----------------------------------------------------------------------
    // Upkeep
    // -----------------------------------------------------------------------

    /// The token and the holder whose balance is the market's XLM.
    pub fn get_pool_balance(&self, inv: &Invocation) -> (r: Result<(Address, Address), LendingError>)
        ensures
            match self@.config {
                Some(c) => r == Ok::<(Address, Address), LendingError>(
                    (c.native_token, inv.contract),
                ),
                None => r == Err::<(Address, Address), LendingError>(LendingError::NotInitialized),
            },
    {
        match self.config {
            None => Err(LendingError::NotInitialized),
            Some(c) => Ok((c.native_token, inv.contract)),
        }
    }

    /// Upgrade the contract WASM. Admin-only. Returns the hash of the code to install.
    pub fn upgrade(&self, new_wasm_hash: [u8; 32]) -> (r: LendingResult<[u8; 32]>)
        ensures
            match self@.config {
                Some(c) => r is Ok && r->Ok_0.value == new_wasm_hash && r->Ok_0.auth == Some(
                    c.admin,
                ) && r->Ok_0.transfers@.len() == 0 && r->Ok_0.events@.len() == 0,
                None => r == LendingResult::<[u8; 32]>::Err(LendingError::NotInitialized),
            },
    {
        match self.config {
            None => Err(LendingError::NotInitialized),
            Some(c) => Ok(
                Receipt {
                    value: new_wasm_hash,
                    auth: Some(c.admin),
                    transfers: none_of(),
                    events: none_of(),
                },
            ),
        }
    }

    /// The extension of the instance storage that keeps the contract alive. Anyone may ask
    /// for it.
    pub fn bump_instance(&self) -> (r: Extension)
        ensures
            r.threshold == host::INSTANCE_LIFETIME_THRESHOLD,
            r.extend_to == host::INSTANCE_BUMP_AMOUNT,
    {
        Extension {
            threshold: host::INSTANCE_LIFETIME_THRESHOLD,
            extend_to: host::INSTANCE_BUMP_AMOUNT,
        }
    }
}

} // verus!
