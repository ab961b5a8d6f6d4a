//! What the market's calls do, as functions on a mathematical state.

use vstd::prelude::*;
use crate::arith;
use crate::arith::{mul_div, mul_mul_div, BPS_DENOMINATOR, RATE_PRECISION};
use crate::host::{Address, Outcome, Transfer};

verus! {

/// The bonus on seized collateral, in basis points.
pub const DEFAULT_LIQUIDATION_BONUS_BPS: i128 = 500;

/// The liquidation threshold before initialization, in basis points.
pub const DEFAULT_LIQUIDATION_THRESHOLD_BPS: i128 = 8000;

/// The collateral factor of an asset for which none was set, in basis points.
pub const DEFAULT_CF_BPS: i128 = 7000;

/// Maximum number of supported collateral assets.
pub const MAX_ASSETS: u32 = 16;

/// The scale of an amount times a price times a factor in basis points.
pub const VALUE_SCALE: i128 = 100_000_000_000;

/// What `initialize` fixes for the life of the market.
#[derive(Clone, Copy, PartialEq, Eq, Structural, Debug)]
pub struct LendingConfig {
    pub admin: Address,
    /// The sXLM token, the first supported collateral.
    pub sxlm_token: Address,
    pub native_token: Address,
}

/// What the market keeps of one collateral asset.
#[derive(Clone, Copy, PartialEq, Eq, Structural, Debug)]
pub struct AssetConfig {
    /// Whether new deposits are accepted.
    pub enabled: bool,
    /// The collateral factor in basis points.
    pub cf_bps: i128,
    /// The price of one unit in XLM, scaled by `RATE_PRECISION`. sXLM is priced by the
    /// exchange rate instead.
    pub price: i128,
    /// The collateral of all users.
    pub total_collateral: i128,
}

/// An asset that nobody registered.
pub open spec fn unknown_asset() -> AssetConfig {
    AssetConfig {
        enabled: false,
        cf_bps: DEFAULT_CF_BPS,
        price: RATE_PRECISION,
        total_collateral: 0,
    }
}

/// Why the market rejects a call.
#[derive(Clone, Copy, PartialEq, Eq, Structural, Debug)]
pub enum LendingError {
    AlreadyInitialized,
    NotInitialized,
    OnlyAdmin,
    InvalidCfBps,
    InvalidCf,
    InvalidLt,
    PriceNotPositive,
    RateNotPositive,
    AssetAlreadyRegistered,
    AssetNotRegistered,
    MaxAssetsReached,
    PricedByExchangeRate,
    CannotDisableSxlm,
    AmountNotPositive,
    AssetNotEnabled,
    InsufficientCollateral,
    WithdrawalUnhealthy,
    BorrowExceedsLimit,
    InsufficientPoolLiquidity,
    NoDebt,
    PositionHealthy,
    /// An intermediate result does not fit, or a divisor is zero.
    Arithmetic,
}

/// What the market reports.
#[derive(Clone, Copy, PartialEq, Eq, Structural, Debug)]
pub enum LendingEvent {
    AssetAdded { asset: Address, cf_bps: u32, price: i128 },
    PriceUpdated { asset: Address, price: i128 },
    ExchangeRateUpdated { rate: i128 },
    CollateralFactorUpdated { cf_bps: u32 },
    Deposited { user: Address, asset: Address, amount: i128 },
    Withdrawn { user: Address, asset: Address, amount: i128 },
    Borrowed { user: Address, amount: i128 },
    Repaid { user: Address, amount: i128 },
    Liquidated { liquidator: Address, borrower: Address, asset: Address, amount: i128 },
}

impl LendingError {
    /// What is said when a call is rejected.
    pub open spec fn text(self) -> Seq<char> {
        match self {
            LendingError::AlreadyInitialized => "already initialized"@,
            LendingError::NotInitialized => "not initialized"@,
            LendingError::OnlyAdmin => "only admin"@,
            LendingError::InvalidCfBps => "invalid cf_bps"@,
            LendingError::InvalidCf => "invalid cf"@,
            LendingError::InvalidLt => "invalid lt"@,
            LendingError::PriceNotPositive => "price must be positive"@,
            LendingError::RateNotPositive => "rate must be positive"@,
            LendingError::AssetAlreadyRegistered => "asset already registered"@,
            LendingError::AssetNotRegistered => "asset not registered"@,
            LendingError::MaxAssetsReached => "max collateral assets reached"@,
            LendingError::PricedByExchangeRate => "use update_exchange_rate for sXLM"@,
            LendingError::CannotDisableSxlm => "cannot disable sXLM"@,
            LendingError::AmountNotPositive => "amount must be positive"@,
            LendingError::AssetNotEnabled => "collateral asset not enabled"@,
            LendingError::InsufficientCollateral => "insufficient collateral balance"@,
            LendingError::WithdrawalUnhealthy => "withdrawal would make position unhealthy"@,
            LendingError::BorrowExceedsLimit => "borrow exceeds collateral limit"@,
            LendingError::InsufficientPoolLiquidity => "insufficient pool liquidity"@,
            LendingError::NoDebt => "no debt to liquidate"@,
            LendingError::PositionHealthy => "position is healthy, cannot liquidate"@,
            LendingError::Arithmetic => "arithmetic overflow or division by zero"@,
        }
    }

    /// What to say when a call is rejected.
    pub fn message(self) -> (r: &'static str)
        ensures
            r@ == self.text(),
    {
        match self {
            LendingError::AlreadyInitialized => "already initialized",
            LendingError::NotInitialized => "not initialized",
            LendingError::OnlyAdmin => "only admin",
            LendingError::InvalidCfBps => "invalid cf_bps",
            LendingError::InvalidCf => "invalid cf",
            LendingError::InvalidLt => "invalid lt",
            LendingError::PriceNotPositive => "price must be positive",
            LendingError::RateNotPositive => "rate must be positive",
            LendingError::AssetAlreadyRegistered => "asset already registered",
            LendingError::AssetNotRegistered => "asset not registered",
            LendingError::MaxAssetsReached => "max collateral assets reached",
            LendingError::PricedByExchangeRate => "use update_exchange_rate for sXLM",
            LendingError::CannotDisableSxlm => "cannot disable sXLM",
            LendingError::AmountNotPositive => "amount must be positive",
            LendingError::AssetNotEnabled => "collateral asset not enabled",
            LendingError::InsufficientCollateral => "insufficient collateral balance",
            LendingError::WithdrawalUnhealthy => "withdrawal would make position unhealthy",
            LendingError::BorrowExceedsLimit => "borrow exceeds collateral limit",
            LendingError::InsufficientPoolLiquidity => "insufficient pool liquidity",
            LendingError::NoDebt => "no debt to liquidate",
            LendingError::PositionHealthy => "position is healthy, cannot liquidate",
            LendingError::Arithmetic => "arithmetic overflow or division by zero",
        }
    }
}

impl LendingEvent {
    /// The topic under which the event is published.
    pub open spec fn topic_text(self) -> Seq<char> {
        match self {
            LendingEvent::AssetAdded { .. } => "add_ast"@,
            LendingEvent::PriceUpdated { .. } => "pr_upd"@,
            LendingEvent::ExchangeRateUpdated { .. } => "er_upd"@,
            LendingEvent::CollateralFactorUpdated { .. } => "cf_upd"@,
            LendingEvent::Deposited { .. } => "deposit"@,
            LendingEvent::Withdrawn { .. } => "withdraw"@,
            LendingEvent::Borrowed { .. } => "borrow"@,
            LendingEvent::Repaid { .. } => "repay"@,
            LendingEvent::Liquidated { .. } => "liq"@,
        }
    }

    /// The topic under which to publish the event.
    pub fn topic(self) -> (r: &'static str)
        ensures
            r@ == self.topic_text(),
    {
        match self {
            LendingEvent::AssetAdded { .. } => "add_ast",
            LendingEvent::PriceUpdated { .. } => "pr_upd",
            LendingEvent::ExchangeRateUpdated { .. } => "er_upd",
            LendingEvent::CollateralFactorUpdated { .. } => "cf_upd",
            LendingEvent::Deposited { .. } => "deposit",
            LendingEvent::Withdrawn { .. } => "withdraw",
            LendingEvent::Borrowed { .. } => "borrow",
            LendingEvent::Repaid { .. } => "repay",
            LendingEvent::Liquidated { .. } => "liq",
        }
    }
}

/// The factor by which collateral is weighed.
#[derive(Clone, Copy, PartialEq, Eq, Structural, Debug)]
pub enum Weighing {
    /// The collateral factor of the asset: what may be borrowed against it.
    CollateralFactor,
    /// The global liquidation threshold: when a position may be liquidated.
    LiquidationThreshold,
    /// Nothing but the price: what the collateral is worth, scaled by `RATE_PRECISION`.
    Price,
}

impl Weighing {
    /// By what a balance times its price times its factor is divided.
    pub open spec fn spec_scale(self) -> i128 {
        match self {
            Weighing::Price => 1,
            _ => VALUE_SCALE,
        }
    }

    /// By what a balance times its price times its factor is divided.
    #[verifier::when_used_as_spec(spec_scale)]
    pub fn scale(self) -> (r: i128)
        ensures
            r == self.scale(),
    {
        match self {
            Weighing::Price => 1,
            _ => VALUE_SCALE,
        }
    }
}

/// What a liquidator asks of a borrower's collateral.
#[derive(Clone, Copy, PartialEq, Eq, Structural, Debug)]
pub struct Claim {
    /// The debt that the liquidator repays, in XLM.
    pub debt: i128,
    /// The worth of all collateral, scaled by `RATE_PRECISION`.
    pub total: i128,
}

/// What is taken of a holding of `balance` where `units` of the asset at `price` pay for the
/// debt and the bonus, and all collateral is worth `total`: the holding's part of the `units`,
/// and no more than there is. Where the holding is all collateral, its part is the whole.
pub open spec fn spec_share(balance: i128, units: i128, price: i128, total: i128) -> i128 {
    if balance <= 0 || units <= 0 || price <= 0 {
        0
    } else if units * price >= total {
        balance
    } else {
        (balance * (units * price) / (total as int)) as i128
    }
}

/// What is taken of a holding of `balance` where `units` of the asset at `price` pay for the
/// debt and the bonus, and all collateral is worth `total`.
#[verifier::when_used_as_spec(spec_share)]
pub fn share(balance: i128, units: i128, price: i128, total: i128) -> (r: i128)
    ensures
        r == share(balance, units, price, total),
        0 <= r,
        r > 0 ==> r <= balance,
{
    if balance <= 0 || units <= 0 || price <= 0 {
        return 0;
    }
    proof {
        assert(units * price > 0) by (nonlinear_arith)
            requires
                units > 0,
                price > 0,
        ;
    }
    match units.checked_mul(price) {
        None => balance,
        Some(owed) => if owed >= total {
            balance
        } else {
            arith::portion(balance, owed, total)
        },
    }
}

/// Collateral taken from a borrower.
#[derive(Clone, Copy, PartialEq, Eq, Structural, Debug)]
pub struct Seizure {
    pub asset: Address,
    pub amount: i128,
}

/// The mathematical state of the market.
#[verifier::ext_equal]
pub struct LendingState {
    pub config: Option<LendingConfig>,
    pub exchange_rate: i128,
    pub liquidation_threshold_bps: i128,
    pub borrow_rate_bps: i128,
    pub liquidation_bonus_bps: i128,
    pub total_borrowed: i128,
    pub total_accrued_interest: i128,
    /// The registered collateral assets, in order of registration.
    pub asset_list: Seq<u32>,
    pub assets: Map<u32, AssetConfig>,
    /// Collateral by `position_key`.
    pub balances: Map<u64, i128>,
    /// Debts by address index.
    pub debts: Map<u32, i128>,
}

/// What a call makes of a state: the next state and what it asks of the host, or an error.
pub type LendingStep<T> = Result<(LendingState, Outcome<T, LendingEvent>), LendingError>;

/// The key of the collateral that `user` holds of `asset`.
pub open spec fn spec_position_key(user: Address, asset: Address) -> u64 {
    (user.id * 0x1_0000_0000 + asset.id) as u64
}

/// The key of the collateral that `user` holds of `asset`.
#[verifier::when_used_as_spec(spec_position_key)]
pub fn position_key(user: Address, asset: Address) -> (key: u64)
    ensures
        key == position_key(user, asset),
{
    user.id as u64 * 0x1_0000_0000 + asset.id as u64
}

/// Different positions have different keys.
pub proof fn lemma_position_key_injective(u1: Address, a1: Address, u2: Address, a2: Address)
    ensures
        position_key(u1, a1) == position_key(u2, a2) ==> u1 == u2 && a1 == a2,
{
}

impl LendingState {
    /// The market before it is initialized.
    pub open spec fn blank() -> LendingState {
        LendingState {
            config: None,
            exchange_rate: RATE_PRECISION,
            liquidation_threshold_bps: DEFAULT_LIQUIDATION_THRESHOLD_BPS,
            borrow_rate_bps: 0,
            liquidation_bonus_bps: DEFAULT_LIQUIDATION_BONUS_BPS,
            total_borrowed: 0,
            total_accrued_interest: 0,
            asset_list: Seq::empty(),
            assets: Map::empty(),
            balances: Map::empty(),
            debts: Map::empty(),
        }
    }

    /// What the market keeps of `asset`.
    pub open spec fn asset(self, asset: Address) -> AssetConfig {
        if self.assets.contains_key(asset.id) {
            self.assets[asset.id]
        } else {
            unknown_asset()
        }
    }

    /// The collateral that `user` holds of `asset`.
    pub open spec fn balance(self, user: Address, asset: Address) -> i128 {
        if self.balances.contains_key(position_key(user, asset)) {
            self.balances[position_key(user, asset)]
        } else {
            0
        }
    }

    /// The debt of `user`.
    pub open spec fn debt(self, user: Address) -> i128 {
        if self.debts.contains_key(user.id) {
            self.debts[user.id]
        } else {
            0
        }
    }

    /// The market with another record of `asset`.
    pub open spec fn with_asset(self, asset: Address, record: AssetConfig) -> LendingState {
        LendingState { assets: self.assets.insert(asset.id, record), ..self }
    }

    /// The market with another balance of `user` in `asset`.
    pub open spec fn with_balance(self, user: Address, asset: Address, amount: i128) -> LendingState {
        LendingState { balances: self.balances.insert(position_key(user, asset), amount), ..self }
    }

    /// The market with another debt of `user`.
    pub open spec fn with_debt(self, user: Address, amount: i128) -> LendingState {
        LendingState { debts: self.debts.insert(user.id, amount), ..self }
    }

    /// The market with another total collateral of `asset`.
    pub open spec fn with_total_collateral(self, asset: Address, amount: i128) -> LendingState {
        self.with_asset(asset, AssetConfig { total_collateral: amount, ..self.asset(asset) })
    }

    /// The price of `asset` in XLM, scaled by `RATE_PRECISION`. sXLM is priced by the
    /// exchange rate. Without a configuration there is no price.
    pub open spec fn asset_price(self, asset: Address) -> Option<i128> {
        match self.config {
            None => None,
            Some(c) => if asset == c.sxlm_token {
                Some(self.exchange_rate)
            } else {
                Some(self.asset(asset).price)
            },
        }
    }

    /// The factor by which `asset` is weighed: in basis points, but one for the price alone.
    pub open spec fn factor(self, asset: Address, weighing: Weighing) -> i128 {
        match weighing {
            Weighing::CollateralFactor => self.asset(asset).cf_bps,
            Weighing::LiquidationThreshold => self.liquidation_threshold_bps,
            Weighing::Price => 1,
        }
    }

    /// The weighed value in XLM of what `user` holds of `asset`.
    pub open spec fn weighted_value(self, user: Address, asset: Address, weighing: Weighing) -> Result<
        i128,
        LendingError,
    > {
        let balance = self.balance(user, asset);
        if balance <= 0 {
            Ok(0)
        } else {
            match self.asset_price(asset) {
                None => Err(LendingError::NotInitialized),
                Some(price) => match mul_mul_div(
                    balance,
                    price,
                    self.factor(asset, weighing),
                    weighing.scale(),
                ) {
                    None => Err(LendingError::Arithmetic),
                    Some(value) => Ok(value),
                },
            }
        }
    }

    /// The weighed value in XLM of what `user` holds of the assets in `list`.
    pub open spec fn weighted_sum(self, user: Address, list: Seq<u32>, weighing: Weighing) -> Result<
        i128,
        LendingError,
    >
        decreases list.len(),
    {
        if list.len() == 0 {
            Ok(0)
        } else {
            match self.weighted_sum(user, list.drop_last(), weighing) {
                Err(e) => Err(e),
                Ok(sum) => match self.weighted_value(user, Address { id: list.last() }, weighing) {
                    Err(e) => Err(e),
                    Ok(value) => if arith::fits(sum + value) {
                        Ok((sum + value) as i128)
                    } else {
                        Err(LendingError::Arithmetic)
                    },
                },
            }
        }
    }

    /// The weighed value in XLM of all collateral of `user`.
    pub open spec fn weighted_collateral(self, user: Address, weighing: Weighing) -> Result<
        i128,
        LendingError,
    > {
        self.weighted_sum(user, self.asset_list, weighing)
    }

    /// The health factor of `user`, scaled by `RATE_PRECISION`: collateral at the
    /// liquidation threshold over debt. Without debt it is the largest number.
    pub open spec fn health_factor(self, user: Address) -> Result<i128, LendingError> {
        if self.debt(user) == 0 {
            Ok(i128::MAX)
        } else {
            match self.weighted_collateral(user, Weighing::LiquidationThreshold) {
                Err(e) => Err(e),
                Ok(weighted) => match mul_div(weighted, RATE_PRECISION, self.debt(user)) {
                    None => Err(LendingError::Arithmetic),
                    Some(hf) => Ok(hf),
                },
            }
        }
    }

    /// What `user` may owe at most: the collateral at its collateral factors.
    pub open spec fn max_borrow(self, user: Address) -> Result<i128, LendingError> {
        self.weighted_collateral(user, Weighing::CollateralFactor)
    }

    /// What `user` may still borrow.
    pub open spec fn max_borrow_amount(self, user: Address) -> Result<i128, LendingError> {
        match self.max_borrow(user) {
            Err(e) => Err(e),
            Ok(capacity) => if capacity <= self.debt(user) {
                Ok(0)
            } else if arith::fits(capacity - self.debt(user)) {
                Ok((capacity - self.debt(user)) as i128)
            } else {
                Err(LendingError::Arithmetic)
            },
        }
    }

    /// The holdings of `user` among the assets in `list`, as pairs of asset and balance.
    pub open spec fn holdings(self, user: Address, list: Seq<u32>) -> Seq<(u32, i128)>
        decreases list.len(),
    {
        if list.len() == 0 {
            Seq::empty()
        } else {
            let rest = self.holdings(user, list.drop_last());
            let balance = self.balance(user, Address { id: list.last() });
            if balance > 0 {
                rest.push((list.last(), balance))
            } else {
                rest
            }
        }
    }

    /// What a liquidator who repays the whole debt of `borrower` asks of the collateral.
    pub open spec fn claim(self, borrower: Address) -> Result<Claim, LendingError> {
        match self.weighted_collateral(borrower, Weighing::Price) {
            Err(e) => Err(e),
            Ok(total) => Ok(Claim { debt: self.debt(borrower), total }),
        }
    }

    /// The units of an asset at `price` that pay for `debt` XLM, and the bonus on them.
    pub open spec fn units_for(self, debt: i128, price: i128) -> Option<i128> {
        match (
            mul_div(debt, RATE_PRECISION, price),
            BPS_DENOMINATOR.checked_add(self.liquidation_bonus_bps),
        ) {
            (Some(debt_in_asset), Some(with_bonus_bps)) => mul_div(
                debt_in_asset,
                with_bonus_bps,
                BPS_DENOMINATOR,
            ),
            _ => None,
        }
    }

    /// What the claim takes of `asset`.
    pub open spec fn seizable(self, borrower: Address, claim: Claim, asset: Address) -> Result<
        i128,
        LendingError,
    > {
        let balance = self.balance(borrower, asset);
        if balance <= 0 {
            Ok(0)
        } else {
            match self.asset_price(asset) {
                None => Err(LendingError::NotInitialized),
                Some(price) => match self.units_for(claim.debt, price) {
                    None => Err(LendingError::Arithmetic),
                    Some(units) => Ok(share(balance, units, price, claim.total)),
                },
            }
        }
    }

    /// The market after `amount` of `asset` was taken from `borrower`.
    pub open spec fn after_seizure(self, borrower: Address, asset: Address, amount: i128) -> LendingState {
        self.with_balance(
            borrower,
            asset,
            (self.balance(borrower, asset) - amount) as i128,
        ).with_total_collateral(asset, (self.asset(asset).total_collateral - amount) as i128)
    }

    /// The market after the claim took its share of the assets in `list` from `borrower`, one
    /// after the other, and what was seized.
    pub open spec fn seize(self, borrower: Address, claim: Claim, list: Seq<u32>) -> Result<
        (LendingState, Seq<Seizure>),
        LendingError,
    >
        decreases list.len(),
    {
        if list.len() == 0 {
            Ok((self, Seq::empty()))
        } else {
            match self.seize(borrower, claim, list.drop_last()) {
                Err(e) => Err(e),
                Ok((s, seized)) => {
                    let asset = Address { id: list.last() };
                    match s.seizable(borrower, claim, asset) {
                        Err(e) => Err(e),
                        Ok(amount) => if amount == 0 {
                            Ok((s, seized))
                        } else if arith::fits(s.asset(asset).total_collateral - amount) {
                            Ok(
                                (
                                    s.after_seizure(borrower, asset, amount),
                                    seized.push(Seizure { asset, amount }),
                                ),
                            )
                        } else {
                            Err(LendingError::Arithmetic)
                        },
                    }
                },
            }
        }
    }
}

impl LendingState {
    /// A weighed sum that fails on some of the assets fails on all of them, for the same
    /// reason.
    pub proof fn lemma_weighted_sum_fails(
        self,
        user: Address,
        list: Seq<u32>,
        i: int,
        weighing: Weighing,
    )
        requires
            0 <= i <= list.len(),
            self.weighted_sum(user, list.take(i), weighing) is Err,
        ensures
            self.weighted_sum(user, list, weighing) == self.weighted_sum(
                user,
                list.take(i),
                weighing,
            ),
        decreases list.len() - i,
    {
        if i == list.len() {
            assert(list.take(i) =~= list);
        } else {
            assert(list.take(i + 1).drop_last() =~= list.take(i));
            self.lemma_weighted_sum_fails(user, list, i + 1, weighing);
        }
    }

    /// A seizure that fails on some of the assets fails on all of them, for the same reason.
    pub proof fn lemma_seize_fails(self, borrower: Address, claim: Claim, list: Seq<u32>, i: int)
        requires
            0 <= i <= list.len(),
            self.seize(borrower, claim, list.take(i)) is Err,
        ensures
            self.seize(borrower, claim, list) == self.seize(borrower, claim, list.take(i)),
        decreases list.len() - i,
    {
        if i == list.len() {
            assert(list.take(i) =~= list);
        } else {
            assert(list.take(i + 1).drop_last() =~= list.take(i));
            self.lemma_seize_fails(borrower, claim, list, i + 1);
        }
    }
}

/// A receipt that only names who has to authorize the call.
pub open spec fn authorized_by(auth: Address) -> Outcome<(), LendingEvent> {
    Outcome { value: (), auth: Some(auth), transfers: Seq::empty(), events: Seq::empty() }
}

/// A receipt with an event.
pub open spec fn reported(auth: Address, event: LendingEvent) -> Outcome<(), LendingEvent> {
    Outcome { value: (), auth: Some(auth), transfers: Seq::empty(), events: seq![event] }
}

/// A receipt with a transfer and an event.
pub open spec fn moved(auth: Address, transfer: Transfer, event: LendingEvent) -> Outcome<
    (),
    LendingEvent,
> {
    Outcome { value: (), auth: Some(auth), transfers: seq![transfer], events: seq![event] }
}

// ---------------------------------------------------------------------------
// Calls
// ---------------------------------------------------------------------------

/// `initialize`: sXLM becomes the first collateral asset.
pub open spec fn initialize_step(
    s: LendingState,
    admin: Address,
    sxlm_token: Address,
    native_token: Address,
    collateral_factor_bps: u32,
    liquidation_threshold_bps: u32,
    borrow_rate_bps: u32,
) -> LendingStep<()> {
    if s.config is Some {
        Err(LendingError::AlreadyInitialized)
    } else {
        Ok(
            (
                LendingState {
                    config: Some(LendingConfig { admin, sxlm_token, native_token }),
                    exchange_rate: RATE_PRECISION,
                    liquidation_threshold_bps: liquidation_threshold_bps as i128,
                    borrow_rate_bps: borrow_rate_bps as i128,
                    liquidation_bonus_bps: DEFAULT_LIQUIDATION_BONUS_BPS,
                    total_borrowed: 0,
                    asset_list: seq![sxlm_token.id],
                    assets: s.assets.insert(
                        sxlm_token.id,
                        AssetConfig {
                            enabled: true,
                            cf_bps: collateral_factor_bps as i128,
                            price: s.asset(sxlm_token).price,
                            total_collateral: 0,
                        },
                    ),
                    ..s
                },
                Outcome { value: (), auth: None, transfers: Seq::empty(), events: Seq::empty() },
            ),
        )
    }
}

/// The configuration, if `admin` is the admin.
pub open spec fn checked_admin(s: LendingState, admin: Address) -> Result<LendingConfig, LendingError> {
    match s.config {
        None => Err(LendingError::NotInitialized),
        Some(c) => if admin != c.admin {
            Err(LendingError::OnlyAdmin)
        } else {
            Ok(c)
        },
    }
}

/// `add_collateral_asset`.
pub open spec fn add_collateral_asset_step(
    s: LendingState,
    admin: Address,
    asset: Address,
    cf_bps: u32,
    initial_price: i128,
) -> LendingStep<()> {
    match checked_admin(s, admin) {
        Err(e) => Err(e),
        Ok(c) => if !(0 < cf_bps <= BPS_DENOMINATOR) {
            Err(LendingError::InvalidCfBps)
        } else if initial_price <= 0 {
            Err(LendingError::PriceNotPositive)
        } else if s.asset(asset).enabled {
            Err(LendingError::AssetAlreadyRegistered)
        } else if s.asset_list.len() >= MAX_ASSETS {
            Err(LendingError::MaxAssetsReached)
        } else {
            Ok(
                (
                    LendingState {
                        asset_list: s.asset_list.push(asset.id),
                        assets: s.assets.insert(
                            asset.id,
                            AssetConfig {
                                enabled: true,
                                cf_bps: cf_bps as i128,
                                price: initial_price,
                                total_collateral: 0,
                            },
                        ),
                        ..s
                    },
                    reported(
                        admin,
                        LendingEvent::AssetAdded { asset, cf_bps, price: initial_price },
                    ),
                ),
            )
        },
    }
}

/// `update_asset_price`.
pub open spec fn update_asset_price_step(
    s: LendingState,
    admin: Address,
    asset: Address,
    price: i128,
) -> LendingStep<()> {
    match checked_admin(s, admin) {
        Err(e) => Err(e),
        Ok(c) => if price <= 0 {
            Err(LendingError::PriceNotPositive)
        } else if asset == c.sxlm_token {
            Err(LendingError::PricedByExchangeRate)
        } else {
            Ok(
                (
                    s.with_asset(asset, AssetConfig { price, ..s.asset(asset) }),
                    reported(admin, LendingEvent::PriceUpdated { asset, price }),
                ),
            )
        },
    }
}

/// `update_asset_cf`.
pub open spec fn update_asset_cf_step(
    s: LendingState,
    admin: Address,
    asset: Address,
    new_cf_bps: u32,
) -> LendingStep<()> {
    match checked_admin(s, admin) {
        Err(e) => Err(e),
        Ok(c) => if !(0 < new_cf_bps <= BPS_DENOMINATOR) {
            Err(LendingError::InvalidCfBps)
        } else if !s.asset(asset).enabled {
            Err(LendingError::AssetNotRegistered)
        } else {
            Ok(
                (
                    s.with_asset(
                        asset,
                        AssetConfig { cf_bps: new_cf_bps as i128, ..s.asset(asset) },
                    ),
                    authorized_by(admin),
                ),
            )
        },
    }
}

/// `disable_collateral_asset`.
pub open spec fn disable_collateral_asset_step(s: LendingState, admin: Address, asset: Address) -> LendingStep<
    (),
> {
    match checked_admin(s, admin) {
        Err(e) => Err(e),
        Ok(c) => if asset == c.sxlm_token {
            Err(LendingError::CannotDisableSxlm)
        } else {
            Ok(
                (
                    s.with_asset(asset, AssetConfig { enabled: false, ..s.asset(asset) }),
                    authorized_by(admin),
                ),
            )
        },
    }
}

/// `update_exchange_rate`.
pub open spec fn update_exchange_rate_step(s: LendingState, rate: i128) -> LendingStep<()> {
    match s.config {
        None => Err(LendingError::NotInitialized),
        Some(c) => if rate <= 0 {
            Err(LendingError::RateNotPositive)
        } else {
            Ok(
                (
                    LendingState { exchange_rate: rate, ..s },
                    reported(c.admin, LendingEvent::ExchangeRateUpdated { rate }),
                ),
            )
        },
    }
}

/// `update_collateral_factor`.
pub open spec fn update_collateral_factor_step(s: LendingState, new_cf_bps: u32) -> LendingStep<()> {
    match s.config {
        None => Err(LendingError::NotInitialized),
        Some(c) => if !(0 < new_cf_bps <= BPS_DENOMINATOR) {
            Err(LendingError::InvalidCf)
        } else {
            Ok(
                (
                    s.with_asset(
                        c.sxlm_token,
                        AssetConfig { cf_bps: new_cf_bps as i128, ..s.asset(c.sxlm_token) },
                    ),
                    reported(
                        c.admin,
                        LendingEvent::CollateralFactorUpdated { cf_bps: new_cf_bps },
                    ),
                ),
            )
        },
    }
}

/// `update_liquidation_threshold`.
pub open spec fn update_liquidation_threshold_step(s: LendingState, new_lt_bps: u32) -> LendingStep<
    (),
> {
    match s.config {
        None => Err(LendingError::NotInitialized),
        Some(c) => if !(0 < new_lt_bps <= BPS_DENOMINATOR) {
            Err(LendingError::InvalidLt)
        } else {
            Ok(
                (
                    LendingState { liquidation_threshold_bps: new_lt_bps as i128, ..s },
                    authorized_by(c.admin),
                ),
            )
        },
    }
}

/// `update_borrow_rate`.
pub open spec fn update_borrow_rate_step(s: LendingState, new_rate_bps: u32) -> LendingStep<()> {
    match s.config {
        None => Err(LendingError::NotInitialized),
        Some(c) => Ok(
            (
                LendingState { borrow_rate_bps: new_rate_bps as i128, ..s },
                authorized_by(c.admin),
            ),
        ),
    }
}

/// `deposit_collateral`.
pub open spec fn deposit_collateral_step(
    s: LendingState,
    contract: Address,
    user: Address,
    asset: Address,
    amount: i128,
) -> LendingStep<()> {
    if amount <= 0 {
        Err(LendingError::AmountNotPositive)
    } else if !s.asset(asset).enabled {
        Err(LendingError::AssetNotEnabled)
    } else if !arith::fits(s.balance(user, asset) + amount) || !arith::fits(
        s.asset(asset).total_collateral + amount,
    ) {
        Err(LendingError::Arithmetic)
    } else {
        Ok(
            (
                s.with_balance(
                    user,
                    asset,
                    (s.balance(user, asset) + amount) as i128,
                ).with_total_collateral(
                    asset,
                    (s.asset(asset).total_collateral + amount) as i128,
                ),
                moved(
                    user,
                    Transfer { token: asset, from: user, to: contract, amount },
                    LendingEvent::Deposited { user, asset, amount },
                ),
            ),
        )
    }
}

/// Whether `user` may leave with the collateral that `s` holds: a debtor has to stay healthy.
pub open spec fn withdrawal_check(s: LendingState, user: Address) -> Result<(), LendingError> {
    if s.debt(user) > 0 {
        match s.health_factor(user) {
            Err(e) => Err(e),
            Ok(hf) => if hf < RATE_PRECISION {
                Err(LendingError::WithdrawalUnhealthy)
            } else {
                Ok(())
            },
        }
    } else {
        Ok(())
    }
}

/// `withdraw_collateral`: the position has to be healthy after the withdrawal.
pub open spec fn withdraw_collateral_step(
    s: LendingState,
    contract: Address,
    user: Address,
    asset: Address,
    amount: i128,
) -> LendingStep<()> {
    if amount <= 0 {
        Err(LendingError::AmountNotPositive)
    } else if s.balance(user, asset) < amount {
        Err(LendingError::InsufficientCollateral)
    } else {
        let t = s.with_balance(user, asset, (s.balance(user, asset) - amount) as i128);
        match withdrawal_check(t, user) {
            Err(e) => Err(e),
            Ok(_) => if !arith::fits(s.asset(asset).total_collateral - amount) {
                Err(LendingError::Arithmetic)
            } else {
                Ok(
                    (
                        t.with_total_collateral(
                            asset,
                            (s.asset(asset).total_collateral - amount) as i128,
                        ),
                        moved(
                            user,
                            Transfer { token: asset, from: contract, to: user, amount },
                            LendingEvent::Withdrawn { user, asset, amount },
                        ),
                    ),
                )
            },
        }
    }
}

/// `borrow`, with `pool_balance` XLM in the market.
pub open spec fn borrow_step(
    s: LendingState,
    contract: Address,
    user: Address,
    xlm_amount: i128,
    pool_balance: i128,
) -> LendingStep<()> {
    if xlm_amount <= 0 {
        Err(LendingError::AmountNotPositive)
    } else if !arith::fits(s.debt(user) + xlm_amount) {
        Err(LendingError::Arithmetic)
    } else {
        match s.max_borrow(user) {
            Err(e) => Err(e),
            Ok(max) => if s.debt(user) + xlm_amount > max {
                Err(LendingError::BorrowExceedsLimit)
            } else {
                match s.config {
                    None => Err(LendingError::NotInitialized),
                    Some(c) => if pool_balance < xlm_amount {
                        Err(LendingError::InsufficientPoolLiquidity)
                    } else if !arith::fits(s.total_borrowed + xlm_amount) {
                        Err(LendingError::Arithmetic)
                    } else {
                        Ok(
                            (
                                LendingState {
                                    total_borrowed: (s.total_borrowed + xlm_amount) as i128,
                                    ..s.with_debt(user, (s.debt(user) + xlm_amount) as i128)
                                },
                                moved(
                                    user,
                                    Transfer {
                                        token: c.native_token,
                                        from: contract,
                                        to: user,
                                        amount: xlm_amount,
                                    },
                                    LendingEvent::Borrowed { user, amount: xlm_amount },
                                ),
                            ),
                        )
                    },
                }
            },
        }
    }
}

/// `repay`: no more than the debt is taken.
pub open spec fn repay_step(
    s: LendingState,
    contract: Address,
    user: Address,
    xlm_amount: i128,
) -> LendingStep<()> {
    if xlm_amount <= 0 {
        Err(LendingError::AmountNotPositive)
    } else {
        let amount = if xlm_amount > s.debt(user) {
            s.debt(user)
        } else {
            xlm_amount
        };
        match s.config {
            None => Err(LendingError::NotInitialized),
            Some(c) => if !arith::fits(s.total_borrowed - amount) {
                Err(LendingError::Arithmetic)
            } else {
                Ok(
                    (
                        LendingState {
                            total_borrowed: (s.total_borrowed - amount) as i128,
                            ..s.with_debt(user, (s.debt(user) - amount) as i128)
                        },
                        moved(
                            user,
                            Transfer {
                                token: c.native_token,
                                from: user,
                                to: contract,
                                amount,
                            },
                            LendingEvent::Repaid { user, amount },
                        ),
                    ),
                )
            },
        }
    }
}

/// The market after the debt of `borrower` was paid and before collateral is seized.
pub open spec fn cleared(s: LendingState, borrower: Address) -> LendingState {
    LendingState {
        total_borrowed: (s.total_borrowed - s.debt(borrower)) as i128,
        ..s.with_debt(borrower, 0)
    }
}

/// The transfer of seized collateral to the liquidator.
pub open spec fn seizure_transfer(contract: Address, liquidator: Address, x: Seizure) -> Transfer {
    Transfer { token: x.asset, from: contract, to: liquidator, amount: x.amount }
}

/// The report of seized collateral.
pub open spec fn seizure_event(liquidator: Address, borrower: Address, x: Seizure) -> LendingEvent {
    LendingEvent::Liquidated { liquidator, borrower, asset: x.asset, amount: x.amount }
}

/// `liquidate`: the liquidator repays the whole debt of an unhealthy position and receives the
/// worth of the debt and the bonus, taken pro rata of every asset that the borrower holds.
pub open spec fn liquidate_step(
    s: LendingState,
    contract: Address,
    liquidator: Address,
    borrower: Address,
) -> LendingStep<i128> {
    let debt = s.debt(borrower);
    if debt <= 0 {
        Err(LendingError::NoDebt)
    } else {
        match s.health_factor(borrower) {
            Err(e) => Err(e),
            Ok(hf) => if hf >= RATE_PRECISION {
                Err(LendingError::PositionHealthy)
            } else {
                match s.config {
                    None => Err(LendingError::NotInitialized),
                    Some(c) => if !arith::fits(s.total_borrowed - debt) {
                        Err(LendingError::Arithmetic)
                    } else {
                        match s.claim(borrower) {
                            Err(e) => Err(e),
                            Ok(claim) => match cleared(s, borrower).seize(
                                borrower,
                                claim,
                                s.asset_list,
                            ) {
                                Err(e) => Err(e),
                                Ok((next, seized)) => Ok(
                                    (
                                        next,
                                        Outcome {
                                            value: debt,
                                            auth: Some(liquidator),
                                            transfers: seq![
                                                Transfer {
                                                    token: c.native_token,
                                                    from: liquidator,
                                                    to: contract,
                                                    amount: debt,
                                                },
                                            ] + seized.map_values(
                                                |x: Seizure| seizure_transfer(
                                                    contract,
                                                    liquidator,
                                                    x,
                                                ),
                                            ),
                                            events: seized.map_values(
                                                |x: Seizure| seizure_event(
                                                    liquidator,
                                                    borrower,
                                                    x,
                                                ),
                                            ),
                                        },
                                    ),
                                ),
                            },
                        }
                    },
                }
            },
        }
    }
}

/// `harvest_interest`: the accrued interest is handed over and starts again at zero.
pub open spec fn harvest_interest_step(s: LendingState) -> LendingStep<i128> {
    match s.config {
        None => Err(LendingError::NotInitialized),
        Some(c) => Ok(
            (
                LendingState { total_accrued_interest: 0, ..s },
                Outcome {
                    value: s.total_accrued_interest,
                    auth: Some(c.admin),
                    transfers: Seq::empty(),
                    events: Seq::empty(),
                },
            ),
        ),
    }
}

} // verus!
