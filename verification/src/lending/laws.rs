//! What holds of the market whatever calls it receives.

use vstd::prelude::*;
use crate::arith;
use crate::host::{Address, Transfer};
use crate::sums;
use super::model;
use super::model::{position_key, AssetConfig, Claim, LendingState, LendingStep, MAX_ASSETS};

verus! {

/// A call that may change the market.
pub enum LendingCall {
    Initialize {
        admin: Address,
        sxlm_token: Address,
        native_token: Address,
        collateral_factor_bps: u32,
        liquidation_threshold_bps: u32,
        borrow_rate_bps: u32,
    },
    AddCollateralAsset { admin: Address, asset: Address, cf_bps: u32, initial_price: i128 },
    UpdateAssetPrice { admin: Address, asset: Address, price: i128 },
    UpdateAssetCf { admin: Address, asset: Address, new_cf_bps: u32 },
    DisableCollateralAsset { admin: Address, asset: Address },
    UpdateExchangeRate { rate: i128 },
    UpdateCollateralFactor { new_cf_bps: u32 },
    UpdateLiquidationThreshold { new_lt_bps: u32 },
    UpdateBorrowRate { new_rate_bps: u32 },
    DepositCollateral { user: Address, asset: Address, amount: i128 },
    WithdrawCollateral { user: Address, asset: Address, amount: i128 },
    Borrow { user: Address, xlm_amount: i128, pool_balance: i128 },
    Repay { user: Address, xlm_amount: i128 },
    Liquidate { liquidator: Address, borrower: Address },
    HarvestInterest,
}

/// The state after a step: the next one if the call was accepted, else the one before.
pub open spec fn settled<T>(s: LendingState, step: LendingStep<T>) -> LendingState {
    match step {
        Ok((next, _)) => next,
        Err(_) => s,
    }
}

/// The transfers of a step; none if the call was rejected.
pub open spec fn moves<T>(step: LendingStep<T>) -> Seq<Transfer> {
    match step {
        Ok((_, out)) => out.transfers,
        Err(_) => Seq::empty(),
    }
}

/// The state after a step and the transfers of the step.
pub open spec fn result_of<T>(s: LendingState, step: LendingStep<T>) -> (
    LendingState,
    Seq<Transfer>,
) {
    (settled(s, step), moves(step))
}

/// The state after a call to the market at address `contract`, and the transfers of the call.
pub open spec fn after_call(s: LendingState, contract: Address, call: LendingCall) -> (
    LendingState,
    Seq<Transfer>,
) {
    match call {
        LendingCall::Initialize {
            admin,
            sxlm_token,
            native_token,
            collateral_factor_bps,
            liquidation_threshold_bps,
            borrow_rate_bps,
        } => result_of(
            s,
            model::initialize_step(
                s,
                admin,
                sxlm_token,
                native_token,
                collateral_factor_bps,
                liquidation_threshold_bps,
                borrow_rate_bps,
            ),
        ),
        LendingCall::AddCollateralAsset { admin, asset, cf_bps, initial_price } => result_of(
            s,
            model::add_collateral_asset_step(s, admin, asset, cf_bps, initial_price),
        ),
        LendingCall::UpdateAssetPrice { admin, asset, price } => result_of(
            s,
            model::update_asset_price_step(s, admin, asset, price),
        ),
        LendingCall::UpdateAssetCf { admin, asset, new_cf_bps } => result_of(
            s,
            model::update_asset_cf_step(s, admin, asset, new_cf_bps),
        ),
        LendingCall::DisableCollateralAsset { admin, asset } => result_of(
            s,
            model::disable_collateral_asset_step(s, admin, asset),
        ),
        LendingCall::UpdateExchangeRate { rate } => result_of(
            s,
            model::update_exchange_rate_step(s, rate),
        ),
        LendingCall::UpdateCollateralFactor { new_cf_bps } => result_of(
            s,
            model::update_collateral_factor_step(s, new_cf_bps),
        ),
        LendingCall::UpdateLiquidationThreshold { new_lt_bps } => result_of(
            s,
            model::update_liquidation_threshold_step(s, new_lt_bps),
        ),
        LendingCall::UpdateBorrowRate { new_rate_bps } => result_of(
            s,
            model::update_borrow_rate_step(s, new_rate_bps),
        ),
        LendingCall::DepositCollateral { user, asset, amount } => result_of(
            s,
            model::deposit_collateral_step(s, contract, user, asset, amount),
        ),
        LendingCall::WithdrawCollateral { user, asset, amount } => result_of(
            s,
            model::withdraw_collateral_step(s, contract, user, asset, amount),
        ),
        LendingCall::Borrow { user, xlm_amount, pool_balance } => result_of(
            s,
            model::borrow_step(s, contract, user, xlm_amount, pool_balance),
        ),
        LendingCall::Repay { user, xlm_amount } => result_of(
            s,
            model::repay_step(s, contract, user, xlm_amount),
        ),
        LendingCall::Liquidate { liquidator, borrower } => result_of(
            s,
            model::liquidate_step(s, contract, liquidator, borrower),
        ),
        LendingCall::HarvestInterest => result_of(s, model::harvest_interest_step(s)),
    }
}

/// Whether a call registers no asset that has collateral: registering a disabled asset again
/// forgets the total of its collateral.
pub open spec fn registers_empty(s: LendingState, call: LendingCall) -> bool {
    match call {
        LendingCall::AddCollateralAsset { admin, asset, cf_bps, initial_price } => {
            model::add_collateral_asset_step(s, admin, asset, cf_bps, initial_price) is Ok ==> s.asset(
                asset,
            ).total_collateral == 0
        },
        _ => true,
    }
}

/// Whether a call registers no asset that is on the list already: registering a disabled
/// asset again lists it twice.
pub open spec fn registers_once(s: LendingState, call: LendingCall) -> bool {
    match call {
        LendingCall::AddCollateralAsset { admin, asset, cf_bps, initial_price } => {
            model::add_collateral_asset_step(s, admin, asset, cf_bps, initial_price) is Ok
                ==> !s.asset_list.contains(asset.id)
        },
        _ => true,
    }
}

// ---------------------------------------------------------------------------
// What every call keeps
// ---------------------------------------------------------------------------

/// A debt.
pub open spec fn debt_of() -> spec_fn(u32, i128) -> int {
    |id: u32, debt: i128| debt as int
}

/// The balance of a position in `asset`, and zero for a position in another asset.
pub open spec fn held_in(asset: Address) -> spec_fn(u64, i128) -> int {
    |key: u64, balance: i128|
        if key as int % 0x1_0000_0000 == asset.id {
            balance as int
        } else {
            0
        }
}

/// Whether no balance is negative.
pub open spec fn balances_sound(s: LendingState) -> bool {
    forall|key: u64| #[trigger] s.balances.contains_key(key) ==> s.balances[key] >= 0
}

/// Whether the collateral of all users adds up to the total of each asset, and none of it is
/// negative.
pub open spec fn collateral_sound(s: LendingState) -> bool {
    &&& s.balances.dom().finite()
    &&& balances_sound(s)
    &&& forall|asset: Address|
        sums::total(s.balances, #[trigger] held_in(asset)) == s.asset(asset).total_collateral
}

/// Whether the debts of all users add up to the total, and none of them is negative.
pub open spec fn debts_sound(s: LendingState) -> bool {
    &&& s.debts.dom().finite()
    &&& forall|id: u32| #[trigger] s.debts.contains_key(id) ==> s.debts[id] >= 0
    &&& sums::total(s.debts, debt_of()) == s.total_borrowed
}

/// Whether nobody has deposited `asset` or may do so.
pub open spec fn untouched(s: LendingState, asset: Address) -> bool {
    !s.asset(asset).enabled && s.asset(asset).total_collateral == 0
}

/// Whether collateral and debts add up, and there are none before initialization.
pub open spec fn totals_sound(s: LendingState) -> bool {
    &&& collateral_sound(s)
    &&& debts_sound(s)
    &&& s.config is None ==> s.total_borrowed == 0 && forall|asset: Address| #[trigger]
        untouched(s, asset)
}

/// Whether an asset has a positive price.
pub open spec fn priced(s: LendingState, asset: Address) -> bool {
    s.asset(asset).price > 0
}

/// Whether every price is positive, and neither the bonus nor the threshold is negative.
pub open spec fn prices_sound(s: LendingState) -> bool {
    &&& s.exchange_rate > 0
    &&& s.liquidation_bonus_bps >= 0
    &&& s.liquidation_threshold_bps >= 0
    &&& forall|asset: Address| #[trigger] priced(s, asset)
}

/// Whether an asset is listed if it takes deposits or has collateral.
pub open spec fn listed(s: LendingState, asset: Address) -> bool {
    s.asset(asset).enabled || s.asset(asset).total_collateral != 0 ==> s.asset_list.contains(
        asset.id,
    )
}

/// Whether the list has room for its assets, names none of them twice and none in vain.
pub open spec fn listing_sound(s: LendingState) -> bool {
    &&& s.asset_list.len() <= MAX_ASSETS
    &&& s.asset_list.no_duplicates()
    &&& forall|asset: Address| #[trigger] listed(s, asset)
    &&& s.config is None ==> s.asset_list.len() == 0
}

/// Whether totals, prices and the list of assets are sound.
pub open spec fn sound(s: LendingState) -> bool {
    &&& totals_sound(s)
    &&& prices_sound(s)
    &&& listing_sound(s)
}

/// A position of `user` is kept under a key that tells its asset.
proof fn lemma_position_asset(user: Address, asset: Address)
    ensures
        position_key(user, asset) as int % 0x1_0000_0000 == asset.id,
{
}

/// A balance is not negative, and part of the total.
pub(super) proof fn lemma_balance(s: LendingState, user: Address, asset: Address)
    requires
        collateral_sound(s),
    ensures
        0 <= s.balance(user, asset) <= s.asset(asset).total_collateral,
{
    lemma_position_asset(user, asset);
    assert forall|key: u64| #[trigger] s.balances.contains_key(key) implies held_in(asset)(
        key,
        s.balances[key],
    ) >= 0 by {}
    sums::lemma_total_bounds(s.balances, held_in(asset), position_key(user, asset));
    assert(sums::total(s.balances, held_in(asset)) == s.asset(asset).total_collateral);
}

/// A debt is not negative, and part of the total.
pub(super) proof fn lemma_debt(s: LendingState, user: Address)
    requires
        debts_sound(s),
    ensures
        0 <= s.debt(user) <= s.total_borrowed,
{
    assert forall|id: u32| #[trigger] s.debts.contains_key(id) implies debt_of()(id, s.debts[id])
        >= 0 by {}
    sums::lemma_total_bounds(s.debts, debt_of(), user.id);
}

/// Changing a balance and the total of its asset by the same amount keeps the collateral
/// adding up.
proof fn lemma_balance_set(s: LendingState, user: Address, asset: Address, amount: i128)
    requires
        collateral_sound(s),
        amount >= 0,
        arith::fits(s.asset(asset).total_collateral + amount - s.balance(user, asset)),
    ensures
        collateral_sound(
            s.with_balance(user, asset, amount).with_total_collateral(
                asset,
                (s.asset(asset).total_collateral + amount - s.balance(user, asset)) as i128,
            ),
        ),
{
    let key = position_key(user, asset);
    let t = s.with_balance(user, asset, amount).with_total_collateral(
        asset,
        (s.asset(asset).total_collateral + amount - s.balance(user, asset)) as i128,
    );
    lemma_position_asset(user, asset);
    sums::lemma_total_insert(s.balances, held_in(asset), key, amount);
    assert forall|other: Address| sums::total(t.balances, #[trigger] held_in(other)) == t.asset(
        other,
    ).total_collateral by {
        sums::lemma_total_insert(s.balances, held_in(other), key, amount);
        assert(sums::total(s.balances, held_in(other)) == s.asset(other).total_collateral);
    }
}

/// Changing a debt and the total by the same amount keeps the debts adding up.
proof fn lemma_debt_set(s: LendingState, t: LendingState, user: Address, amount: i128)
    requires
        debts_sound(s),
        amount >= 0,
        t.debts == s.debts.insert(user.id, amount),
        t.total_borrowed == s.total_borrowed + amount - s.debt(user),
    ensures
        debts_sound(t),
{
    sums::lemma_total_insert(s.debts, debt_of(), user.id, amount);
}

/// Where no balance and no total of collateral changes, the collateral goes on adding up.
pub(super) proof fn lemma_collateral_kept(s: LendingState, t: LendingState)
    requires
        collateral_sound(s),
        t.balances == s.balances,
        forall|asset: Address| #[trigger]
            t.asset(asset).total_collateral == s.asset(asset).total_collateral,
    ensures
        collateral_sound(t),
{
    assert forall|asset: Address| sums::total(t.balances, #[trigger] held_in(asset)) == t.asset(
        asset,
    ).total_collateral by {
        assert(sums::total(s.balances, held_in(asset)) == s.asset(asset).total_collateral);
    }
}

// ---------------------------------------------------------------------------
// Seizures
// ---------------------------------------------------------------------------

/// A share is part of the balance.
pub(super) proof fn lemma_share(balance: i128, units: i128, price: i128, total: i128)
    ensures
        0 <= model::share(balance, units, price, total),
        balance > 0 ==> model::share(balance, units, price, total) <= balance,
        balance > 0 && units > 0 && price > 0 && units * price < total ==> model::share(
            balance,
            units,
            price,
            total,
        ) == balance * (units * price) / (total as int),
{
    let owed = units * price;
    if balance > 0 && units > 0 && price > 0 && owed < total {
        let q = balance * owed / (total as int);
        assert(owed > 0) by (nonlinear_arith)
            requires
                units > 0,
                price > 0,
                owed == units * price,
        ;
        assert(0 <= q <= balance) by (nonlinear_arith)
            requires
                balance > 0,
                0 < owed < total,
                q == balance * owed / (total as int),
        ;
    }
}

/// What is seized is part of the balance.
pub(super) proof fn lemma_seizable(
    s: LendingState,
    borrower: Address,
    claim: Claim,
    asset: Address,
)
    requires
        s.seizable(borrower, claim, asset) is Ok,
    ensures
        0 <= s.seizable(borrower, claim, asset)->Ok_0,
        s.seizable(borrower, claim, asset)->Ok_0 > 0 ==> s.seizable(borrower, claim, asset)->Ok_0
            <= s.balance(borrower, asset),
{
    if s.balance(borrower, asset) > 0 {
        let price = s.asset_price(asset)->Some_0;
        let units = s.units_for(claim.debt, price)->Some_0;
        lemma_share(s.balance(borrower, asset), units, price, claim.total);
    }
}

/// A seizure leaves everything but balances and totals of collateral alone.
pub(super) proof fn lemma_seize_frame(
    s: LendingState,
    borrower: Address,
    claim: Claim,
    list: Seq<u32>,
)
    requires
        s.seize(borrower, claim, list) is Ok,
    ensures
        ({
            let t = s.seize(borrower, claim, list)->Ok_0.0;
            &&& t == (LendingState { assets: t.assets, balances: t.balances, ..s })
            &&& forall|asset: Address|
                #![trigger t.asset(asset)]
                t.asset(asset) == (AssetConfig {
                    total_collateral: t.asset(asset).total_collateral,
                    ..s.asset(asset)
                })
        }),
    decreases list.len(),
{
    if list.len() > 0 {
        lemma_seize_frame(s, borrower, claim, list.drop_last());
        let u = s.seize(borrower, claim, list.drop_last())->Ok_0.0;
        let t = s.seize(borrower, claim, list)->Ok_0.0;
        assert forall|asset: Address|
            #![trigger t.asset(asset)]
            t.asset(asset) == (AssetConfig {
                total_collateral: t.asset(asset).total_collateral,
                ..s.asset(asset)
            }) by {
            assert(u.asset(asset).price == s.asset(asset).price);
        }
    }
}

/// A seizure takes only from the borrower, and no more than there is.
pub(super) proof fn lemma_seize_balances(
    s: LendingState,
    borrower: Address,
    claim: Claim,
    list: Seq<u32>,
)
    requires
        balances_sound(s),
        s.seize(borrower, claim, list) is Ok,
    ensures
        ({
            let t = s.seize(borrower, claim, list)->Ok_0.0;
            &&& balances_sound(t)
            &&& forall|user: Address, asset: Address|
                #![trigger t.balance(user, asset)]
                if user == borrower {
                    0 <= t.balance(user, asset) <= s.balance(user, asset)
                } else {
                    t.balance(user, asset) == s.balance(user, asset)
                }
        }),
    decreases list.len(),
{
    if list.len() > 0 {
        let rest = list.drop_last();
        lemma_seize_balances(s, borrower, claim, rest);
        let u = s.seize(borrower, claim, rest)->Ok_0.0;
        let t = s.seize(borrower, claim, list)->Ok_0.0;
        let asset = Address { id: list.last() };
        let amount = u.seizable(borrower, claim, asset)->Ok_0;
        lemma_seizable(u, borrower, claim, asset);
        assert(u.balance(borrower, asset) <= s.balance(borrower, asset));
        if amount > 0 {
            assert forall|user: Address, other: Address|
                #![trigger t.balance(user, other)]
                if user == borrower {
                    0 <= t.balance(user, other) <= s.balance(user, other)
                } else {
                    t.balance(user, other) == s.balance(user, other)
                } by {
                model::lemma_position_key_injective(user, other, borrower, asset);
                assert(u.balance(user, other) <= s.balance(user, other));
            }
        }
    }
}

/// A seizure keeps the collateral adding up and adds to no total.
pub(super) proof fn lemma_seize_sound(
    s: LendingState,
    borrower: Address,
    claim: Claim,
    list: Seq<u32>,
)
    requires
        collateral_sound(s),
        s.seize(borrower, claim, list) is Ok,
    ensures
        ({
            let t = s.seize(borrower, claim, list)->Ok_0.0;
            &&& collateral_sound(t)
            &&& forall|asset: Address|
                #![trigger t.asset(asset)]
                0 <= t.asset(asset).total_collateral <= s.asset(asset).total_collateral
        }),
    decreases list.len(),
{
    if list.len() == 0 {
        assert forall|asset: Address|
            #![trigger s.asset(asset)]
            0 <= s.asset(asset).total_collateral by {
            lemma_balance(s, borrower, asset);
        }
    } else {
        let rest = list.drop_last();
        lemma_seize_sound(s, borrower, claim, rest);
        let u = s.seize(borrower, claim, rest)->Ok_0.0;
        let t = s.seize(borrower, claim, list)->Ok_0.0;
        let asset = Address { id: list.last() };
        let amount = u.seizable(borrower, claim, asset)->Ok_0;
        lemma_seizable(u, borrower, claim, asset);
        if amount > 0 {
            lemma_balance(u, borrower, asset);
            lemma_balance_set(
                u,
                borrower,
                asset,
                (u.balance(borrower, asset) - amount) as i128,
            );
            assert forall|other: Address|
                #![trigger t.asset(other)]
                0 <= t.asset(other).total_collateral <= s.asset(other).total_collateral by {
                assert(u.asset(other).total_collateral <= s.asset(other).total_collateral);
            }
        }
    }
}

/// What is known of the market after a liquidation.
pub(super) proof fn lemma_liquidated(
    s: LendingState,
    contract: Address,
    liquidator: Address,
    borrower: Address,
)
    requires
        model::liquidate_step(s, contract, liquidator, borrower) is Ok,
    ensures
        ({
            let u = model::cleared(s, borrower);
            let t = settled(s, model::liquidate_step(s, contract, liquidator, borrower));
            &&& s.config is Some
            &&& s.claim(borrower) is Ok
            &&& u.seize(borrower, s.claim(borrower)->Ok_0, s.asset_list) is Ok
            &&& t == u.seize(borrower, s.claim(borrower)->Ok_0, s.asset_list)->Ok_0.0
            &&& t == (LendingState { assets: t.assets, balances: t.balances, ..u })
            &&& forall|asset: Address|
                #![trigger t.asset(asset)]
                t.asset(asset) == (AssetConfig {
                    total_collateral: t.asset(asset).total_collateral,
                    ..s.asset(asset)
                })
            &&& collateral_sound(s) ==> collateral_sound(u)
        }),
{
    let u = model::cleared(s, borrower);
    let t = settled(s, model::liquidate_step(s, contract, liquidator, borrower));
    lemma_seize_frame(u, borrower, s.claim(borrower)->Ok_0, s.asset_list);
    assert forall|asset: Address|
        #![trigger t.asset(asset)]
        t.asset(asset) == (AssetConfig {
            total_collateral: t.asset(asset).total_collateral,
            ..s.asset(asset)
        }) by {
        assert(u.asset(asset) == s.asset(asset));
    }
    if collateral_sound(s) {
        lemma_collateral_kept(s, u);
    }
}

// ---------------------------------------------------------------------------
// Totals
// ---------------------------------------------------------------------------

/// Every call keeps collateral and debts adding up, if no asset is registered while it has
/// collateral.
pub proof fn law_totals_kept(s: LendingState, contract: Address, call: LendingCall)
    requires
        totals_sound(s),
        registers_empty(s, call),
    ensures
        totals_sound(after_call(s, contract, call).0),
{
    let t = after_call(s, contract, call).0;
    match call {
        LendingCall::Initialize { sxlm_token, .. } => {
            if s.config is None {
                assert(untouched(s, sxlm_token));
                lemma_collateral_kept(s, t);
            }
        },
        LendingCall::AddCollateralAsset { .. } => {
            lemma_collateral_kept(s, t);
        },
        LendingCall::DepositCollateral { user, asset, amount } => {
            if model::deposit_collateral_step(s, contract, user, asset, amount) is Ok {
                lemma_balance(s, user, asset);
                lemma_balance_set(s, user, asset, (s.balance(user, asset) + amount) as i128);
                if s.config is None {
                    assert(untouched(s, asset));
                }
            }
        },
        LendingCall::WithdrawCollateral { user, asset, amount } => {
            if model::withdraw_collateral_step(s, contract, user, asset, amount) is Ok {
                lemma_balance(s, user, asset);
                lemma_balance_set(s, user, asset, (s.balance(user, asset) - amount) as i128);
                if s.config is None {
                    assert(untouched(s, asset));
                }
            }
        },
        LendingCall::Borrow { user, xlm_amount, pool_balance } => {
            if model::borrow_step(s, contract, user, xlm_amount, pool_balance) is Ok {
                lemma_debt(s, user);
                lemma_debt_set(s, t, user, (s.debt(user) + xlm_amount) as i128);
                lemma_collateral_kept(s, t);
            }
        },
        LendingCall::Repay { user, xlm_amount } => {
            if model::repay_step(s, contract, user, xlm_amount) is Ok {
                lemma_debt(s, user);
                lemma_debt_set(s, t, user, t.debt(user));
                lemma_collateral_kept(s, t);
            }
        },
        LendingCall::Liquidate { liquidator, borrower } => {
            if model::liquidate_step(s, contract, liquidator, borrower) is Ok {
                let u = model::cleared(s, borrower);
                lemma_liquidated(s, contract, liquidator, borrower);
                lemma_debt_set(s, u, borrower, 0);
                lemma_seize_sound(u, borrower, s.claim(borrower)->Ok_0, s.asset_list);
            }
        },
        _ => {
            lemma_collateral_kept(s, t);
        },
    }
}

/// Changing the record of an asset keeps prices positive if the asset keeps its price or gets
/// a positive one.
proof fn lemma_record_prices(s: LendingState, t: LendingState, asset: Address)
    requires
        prices_sound(s),
        t.exchange_rate > 0,
        t.liquidation_bonus_bps >= 0,
        t.liquidation_threshold_bps >= 0,
        t.assets == s.assets || t.assets == s.assets.insert(asset.id, t.asset(asset)),
        t.asset(asset).price == s.asset(asset).price || t.asset(asset).price > 0,
    ensures
        prices_sound(t),
{
    assert forall|other: Address| #[trigger] priced(t, other) by {
        assert(priced(s, other));
        if other == asset {
            assert(priced(s, asset));
        }
    }
}

/// A liquidation keeps prices positive.
proof fn lemma_liquidate_prices(
    s: LendingState,
    contract: Address,
    liquidator: Address,
    borrower: Address,
)
    requires
        prices_sound(s),
        model::liquidate_step(s, contract, liquidator, borrower) is Ok,
    ensures
        prices_sound(settled(s, model::liquidate_step(s, contract, liquidator, borrower))),
{
    let t = settled(s, model::liquidate_step(s, contract, liquidator, borrower));
    lemma_liquidated(s, contract, liquidator, borrower);
    assert forall|asset: Address| #[trigger] priced(t, asset) by {
        assert(priced(s, asset));
        assert(t.asset(asset).price == s.asset(asset).price);
    }
}

/// Whether the debts of all users add up to the total, which is zero before initialization.
pub open spec fn debts_add_up(s: LendingState) -> bool {
    &&& debts_sound(s)
    &&& s.config is None ==> s.total_borrowed == 0
}

/// Every call keeps the debts adding up to the total.
pub proof fn law_debts_kept(s: LendingState, contract: Address, call: LendingCall)
    requires
        debts_add_up(s),
    ensures
        debts_add_up(after_call(s, contract, call).0),
{
    let t = after_call(s, contract, call).0;
    match call {
        LendingCall::Borrow { user, xlm_amount, pool_balance } => {
            if model::borrow_step(s, contract, user, xlm_amount, pool_balance) is Ok {
                lemma_debt(s, user);
                lemma_debt_set(s, t, user, (s.debt(user) + xlm_amount) as i128);
            }
        },
        LendingCall::Repay { user, xlm_amount } => {
            if model::repay_step(s, contract, user, xlm_amount) is Ok {
                lemma_debt(s, user);
                lemma_debt_set(s, t, user, t.debt(user));
            }
        },
        LendingCall::Liquidate { liquidator, borrower } => {
            if model::liquidate_step(s, contract, liquidator, borrower) is Ok {
                lemma_liquidated(s, contract, liquidator, borrower);
                lemma_debt_set(s, model::cleared(s, borrower), borrower, 0);
            }
        },
        _ => {},
    }
}

/// The debts of all users add up to the total after any calls.
pub proof fn law_debts_always_add_up(contract: Address, calls: Seq<LendingCall>)
    ensures
        debts_add_up(after_calls(contract, calls)),
    decreases calls.len(),
{
    if calls.len() == 0 {
        lemma_blank_sound();
    } else {
        let rest = calls.drop_last();
        law_debts_always_add_up(contract, rest);
        law_debts_kept(after_calls(contract, rest), contract, calls.last());
    }
}

/// Whether a market that is not initialized holds nothing.
pub open spec fn empty_before_start(s: LendingState) -> bool {
    s.config is None ==> {
        &&& s.total_borrowed == 0
        &&& s.balances == Map::<u64, i128>::empty()
        &&& forall|asset: Address| #[trigger] untouched(s, asset)
    }
}

/// A market holds nothing before it is initialized, whatever it is called with.
pub proof fn law_empty_until_initialized(contract: Address, calls: Seq<LendingCall>)
    ensures
        empty_before_start(after_calls(contract, calls)),
    decreases calls.len(),
{
    if calls.len() > 0 {
        let s = after_calls(contract, calls.drop_last());
        let t = after_calls(contract, calls);
        law_empty_until_initialized(contract, calls.drop_last());
        if s.config is Some {
            law_configuration_is_fixed(s, contract, calls.last());
        } else if t.config is None {
            match calls.last() {
                LendingCall::DepositCollateral { asset, .. } => {
                    assert(untouched(s, asset));
                },
                _ => {},
            }
            assert forall|asset: Address| #[trigger] untouched(t, asset) by {
                assert(untouched(s, asset));
            }
        }
    }
}

/// No call makes a balance negative.
pub proof fn law_balances_kept(s: LendingState, contract: Address, call: LendingCall)
    requires
        balances_sound(s),
    ensures
        balances_sound(after_call(s, contract, call).0),
{
    match call {
        LendingCall::Liquidate { liquidator, borrower } => {
            if model::liquidate_step(s, contract, liquidator, borrower) is Ok {
                lemma_liquidated(s, contract, liquidator, borrower);
                lemma_seize_balances(
                    model::cleared(s, borrower),
                    borrower,
                    s.claim(borrower)->Ok_0,
                    s.asset_list,
                );
            }
        },
        _ => {},
    }
}

/// No balance is negative and every price is positive after any calls.
pub proof fn law_balances_and_prices_always_sound(contract: Address, calls: Seq<LendingCall>)
    ensures
        balances_sound(after_calls(contract, calls)),
        prices_sound(after_calls(contract, calls)),
    decreases calls.len(),
{
    if calls.len() > 0 {
        let rest = calls.drop_last();
        law_balances_and_prices_always_sound(contract, rest);
        law_balances_kept(after_calls(contract, rest), contract, calls.last());
        law_prices_kept(after_calls(contract, rest), contract, calls.last());
    }
}

/// Every call keeps prices positive.
pub proof fn law_prices_kept(s: LendingState, contract: Address, call: LendingCall)
    requires
        prices_sound(s),
    ensures
        prices_sound(after_call(s, contract, call).0),
{
    let t = after_call(s, contract, call).0;
    match call {
        LendingCall::Initialize { sxlm_token, .. } => {
            lemma_record_prices(s, t, sxlm_token);
        },
        LendingCall::AddCollateralAsset { asset, .. } => {
            lemma_record_prices(s, t, asset);
        },
        LendingCall::UpdateAssetPrice { asset, .. } => {
            lemma_record_prices(s, t, asset);
        },
        LendingCall::UpdateAssetCf { asset, .. } => {
            lemma_record_prices(s, t, asset);
        },
        LendingCall::DisableCollateralAsset { asset, .. } => {
            lemma_record_prices(s, t, asset);
        },
        LendingCall::UpdateCollateralFactor { .. } => {
            if s.config is Some {
                lemma_record_prices(s, t, s.config->Some_0.sxlm_token);
            }
        },
        LendingCall::DepositCollateral { asset, .. } => {
            lemma_record_prices(s, t, asset);
        },
        LendingCall::WithdrawCollateral { asset, .. } => {
            lemma_record_prices(s, t, asset);
        },
        LendingCall::Liquidate { liquidator, borrower } => {
            if model::liquidate_step(s, contract, liquidator, borrower) is Ok {
                lemma_liquidate_prices(s, contract, liquidator, borrower);
            }
        },
        _ => {
            assert(t.assets == s.assets);
            lemma_record_prices(s, t, contract);
        },
    }
}

// ---------------------------------------------------------------------------
// Soundness
// ---------------------------------------------------------------------------

/// Whether `t` has the list of `s`, and no unlisted asset takes deposits or has collateral.
spec fn listing_follows(s: LendingState, t: LendingState) -> bool {
    &&& t.asset_list == s.asset_list
    &&& t.config == s.config
    &&& forall|asset: Address|
        #![trigger t.asset(asset)]
        t.asset(asset).enabled || t.asset(asset).total_collateral != 0 ==> s.asset_list.contains(
            asset.id,
        )
}

/// A list that follows a sound one is sound.
proof fn lemma_listing_follows(s: LendingState, t: LendingState)
    requires
        listing_sound(s),
        listing_follows(s, t),
    ensures
        listing_sound(t),
{
    assert forall|asset: Address| #[trigger] listed(t, asset) by {
        let record = t.asset(asset);
        assert(record.enabled || record.total_collateral != 0 ==> s.asset_list.contains(asset.id));
    }
}

/// Changing the record of an asset keeps the list sound, unless the asset is not listed and
/// gets deposits or collateral.
proof fn lemma_record_listing(s: LendingState, t: LendingState, asset: Address)
    requires
        listing_sound(s),
        t.asset_list == s.asset_list,
        t.config == s.config,
        t.assets == s.assets.insert(asset.id, t.asset(asset)),
        t.asset(asset).enabled || t.asset(asset).total_collateral != 0 ==> s.asset_list.contains(
            asset.id,
        ),
    ensures
        listing_sound(t),
{
    assert forall|other: Address|
        #![trigger t.asset(other)]
        t.asset(other).enabled || t.asset(other).total_collateral != 0 implies s.asset_list.contains(
        other.id,
    ) by {
        assert(listed(s, other));
    }
    lemma_listing_follows(s, t);
}

/// Where the assets do not change, the list stays sound.
proof fn lemma_same_listing(s: LendingState, t: LendingState)
    requires
        listing_sound(s),
        t.asset_list == s.asset_list,
        t.config == s.config,
        t.assets == s.assets,
    ensures
        listing_sound(t),
{
    assert forall|asset: Address| #[trigger] listed(t, asset) by {
        assert(listed(s, asset));
    }
}

/// Initialization lists sXLM.
proof fn lemma_initialize_listing(s: LendingState, t: LendingState, sxlm_token: Address)
    requires
        totals_sound(s),
        s.config is None,
        t.config is Some,
        t.asset_list == seq![sxlm_token.id],
        t.assets == s.assets.insert(sxlm_token.id, t.asset(sxlm_token)),
    ensures
        listing_sound(t),
{
    assert(t.asset_list[0] == sxlm_token.id);
    assert forall|asset: Address| #[trigger] listed(t, asset) by {
        assert(untouched(s, asset));
    }
}

/// Registering an asset lists it.
proof fn lemma_add_listing(s: LendingState, t: LendingState, asset: Address)
    requires
        listing_sound(s),
        s.config is Some,
        t.config == s.config,
        s.asset_list.len() < MAX_ASSETS,
        !s.asset_list.contains(asset.id),
        t.asset_list == s.asset_list.push(asset.id),
        t.assets == s.assets.insert(asset.id, t.asset(asset)),
    ensures
        listing_sound(t),
{
    assert(t.asset_list.last() == asset.id);
    assert forall|other: Address| #[trigger] listed(t, other) by {
        assert(listed(s, other));
        if s.asset_list.contains(other.id) {
            let i = s.asset_list.index_of(other.id);
            assert(t.asset_list[i] == other.id);
        } else if other == asset {
            assert(t.asset_list.contains(t.asset_list.last()));
        }
    }
}

/// A liquidation keeps the list sound.
proof fn lemma_liquidate_listing(
    s: LendingState,
    contract: Address,
    liquidator: Address,
    borrower: Address,
)
    requires
        collateral_sound(s),
        listing_sound(s),
        model::liquidate_step(s, contract, liquidator, borrower) is Ok,
    ensures
        listing_sound(settled(s, model::liquidate_step(s, contract, liquidator, borrower))),
{
    let t = settled(s, model::liquidate_step(s, contract, liquidator, borrower));
    let u = model::cleared(s, borrower);
    lemma_liquidated(s, contract, liquidator, borrower);
    lemma_seize_sound(u, borrower, s.claim(borrower)->Ok_0, s.asset_list);
    assert forall|asset: Address|
        #![trigger t.asset(asset)]
        t.asset(asset).enabled || t.asset(asset).total_collateral != 0 implies s.asset_list.contains(
        asset.id,
    ) by {
        assert(listed(s, asset));
        assert(u.asset(asset) == s.asset(asset));
    }
    lemma_listing_follows(s, t);
}

/// Every call keeps the list sound, if no asset is registered twice.
proof fn lemma_listing_kept(s: LendingState, contract: Address, call: LendingCall)
    requires
        totals_sound(s),
        listing_sound(s),
        registers_once(s, call),
    ensures
        listing_sound(after_call(s, contract, call).0),
{
    let t = after_call(s, contract, call).0;
    match call {
        LendingCall::Initialize { sxlm_token, .. } => {
            if s.config is None {
                lemma_initialize_listing(s, t, sxlm_token);
            }
        },
        LendingCall::AddCollateralAsset { admin, asset, cf_bps, initial_price } => {
            if model::add_collateral_asset_step(s, admin, asset, cf_bps, initial_price) is Ok {
                lemma_add_listing(s, t, asset);
            }
        },
        LendingCall::UpdateAssetPrice { admin, asset, price } => {
            assert(listed(s, asset));
            if model::update_asset_price_step(s, admin, asset, price) is Ok {
                lemma_record_listing(s, t, asset);
            }
        },
        LendingCall::UpdateAssetCf { admin, asset, new_cf_bps } => {
            assert(listed(s, asset));
            if model::update_asset_cf_step(s, admin, asset, new_cf_bps) is Ok {
                lemma_record_listing(s, t, asset);
            }
        },
        LendingCall::DisableCollateralAsset { admin, asset } => {
            assert(listed(s, asset));
            if model::disable_collateral_asset_step(s, admin, asset) is Ok {
                lemma_record_listing(s, t, asset);
            }
        },
        LendingCall::UpdateCollateralFactor { new_cf_bps } => {
            if model::update_collateral_factor_step(s, new_cf_bps) is Ok {
                let sxlm_token = s.config->Some_0.sxlm_token;
                assert(listed(s, sxlm_token));
                lemma_record_listing(s, t, sxlm_token);
            }
        },
        LendingCall::DepositCollateral { user, asset, amount } => {
            assert(listed(s, asset));
            if model::deposit_collateral_step(s, contract, user, asset, amount) is Ok {
                lemma_record_listing(s, t, asset);
            }
        },
        LendingCall::WithdrawCollateral { user, asset, amount } => {
            assert(listed(s, asset));
            lemma_balance(s, user, asset);
            if model::withdraw_collateral_step(s, contract, user, asset, amount) is Ok {
                lemma_record_listing(s, t, asset);
            }
        },
        LendingCall::Liquidate { liquidator, borrower } => {
            if model::liquidate_step(s, contract, liquidator, borrower) is Ok {
                lemma_liquidate_listing(s, contract, liquidator, borrower);
            }
        },
        _ => {
            lemma_same_listing(s, t);
        },
    }
}

/// Every call keeps the market sound, if no asset is registered twice.
pub proof fn law_sound_kept(s: LendingState, contract: Address, call: LendingCall)
    requires
        sound(s),
        registers_once(s, call),
    ensures
        sound(after_call(s, contract, call).0),
{
    assert(registers_empty(s, call)) by {
        if call is AddCollateralAsset {
            assert(listed(s, call->AddCollateralAsset_asset));
        }
    }
    law_totals_kept(s, contract, call);
    law_prices_kept(s, contract, call);
    lemma_listing_kept(s, contract, call);
}

/// The market after calls, one after the other, from the start.
pub open spec fn after_calls(contract: Address, calls: Seq<LendingCall>) -> LendingState
    decreases calls.len(),
{
    if calls.len() == 0 {
        LendingState::blank()
    } else {
        after_call(after_calls(contract, calls.drop_last()), contract, calls.last()).0
    }
}

/// A market that was not called yet is sound.
proof fn lemma_blank_sound()
    ensures
        sound(LendingState::blank()),
{
    let s = LendingState::blank();
    sums::lemma_total_empty::<u32, i128>(debt_of());
    assert forall|asset: Address| sums::total(s.balances, #[trigger] held_in(asset)) == s.asset(
        asset,
    ).total_collateral by {
        sums::lemma_total_empty::<u64, i128>(held_in(asset));
    }
}

/// Collateral and debts add up after any calls, if no asset is registered while it has
/// collateral.
pub proof fn law_totals_always_add_up(contract: Address, calls: Seq<LendingCall>)
    requires
        forall|i: int|
            0 <= i < calls.len() ==> registers_empty(
                after_calls(contract, calls.take(i)),
                #[trigger] calls[i],
            ),
    ensures
        totals_sound(after_calls(contract, calls)),
    decreases calls.len(),
{
    if calls.len() == 0 {
        lemma_blank_sound();
    } else {
        let n = calls.len() - 1;
        let rest = calls.drop_last();
        assert(calls.take(n) =~= rest);
        assert forall|i: int| 0 <= i < rest.len() implies registers_empty(
            after_calls(contract, rest.take(i)),
            #[trigger] rest[i],
        ) by {
            assert(rest.take(i) =~= calls.take(i));
            assert(rest[i] == calls[i]);
        }
        law_totals_always_add_up(contract, rest);
        assert(registers_empty(after_calls(contract, calls.take(n)), calls[n]));
        law_totals_kept(after_calls(contract, rest), contract, calls[n]);
    }
}

/// The market is sound after any calls, if no asset is registered twice.
pub proof fn law_always_sound(contract: Address, calls: Seq<LendingCall>)
    requires
        forall|i: int|
            0 <= i < calls.len() ==> registers_once(
                after_calls(contract, calls.take(i)),
                #[trigger] calls[i],
            ),
    ensures
        sound(after_calls(contract, calls)),
    decreases calls.len(),
{
    if calls.len() == 0 {
        lemma_blank_sound();
    } else {
        let n = calls.len() - 1;
        let rest = calls.drop_last();
        assert(calls.take(n) =~= rest);
        assert forall|i: int| 0 <= i < rest.len() implies registers_once(
            after_calls(contract, rest.take(i)),
            #[trigger] rest[i],
        ) by {
            assert(rest.take(i) =~= calls.take(i));
            assert(rest[i] == calls[i]);
        }
        law_always_sound(contract, rest);
        assert(registers_once(after_calls(contract, calls.take(n)), calls[n]));
        law_sound_kept(after_calls(contract, rest), contract, calls[n]);
    }
}

/// Whether sXLM is the first asset on the list of an initialized market.
pub open spec fn sxlm_first(s: LendingState) -> bool {
    s.config matches Some(c) ==> s.asset_list.len() > 0 && s.asset_list[0] == c.sxlm_token.id
}

/// sXLM stays the first collateral asset.
pub proof fn law_sxlm_stays_first(s: LendingState, contract: Address, call: LendingCall)
    requires
        sxlm_first(s),
    ensures
        sxlm_first(after_call(s, contract, call).0),
{
    match call {
        LendingCall::Liquidate { liquidator, borrower } => {
            if model::liquidate_step(s, contract, liquidator, borrower) is Ok {
                lemma_liquidated(s, contract, liquidator, borrower);
            }
        },
        _ => {},
    }
}

/// sXLM is the first collateral asset after any calls.
pub proof fn law_sxlm_always_first(contract: Address, calls: Seq<LendingCall>)
    ensures
        sxlm_first(after_calls(contract, calls)),
    decreases calls.len(),
{
    if calls.len() > 0 {
        let rest = calls.drop_last();
        law_sxlm_always_first(contract, rest);
        law_sxlm_stays_first(after_calls(contract, rest), contract, calls.last());
    }
}

/// No call changes the admin or the tokens of an initialized market.
pub proof fn law_configuration_is_fixed(s: LendingState, contract: Address, call: LendingCall)
    requires
        s.config is Some,
    ensures
        after_call(s, contract, call).0.config == s.config,
{
    match call {
        LendingCall::Liquidate { liquidator, borrower } => {
            if model::liquidate_step(s, contract, liquidator, borrower) is Ok {
                lemma_liquidated(s, contract, liquidator, borrower);
            }
        },
        _ => {},
    }
}

/// A harvest hands over the accrued interest and leaves none; no other call changes it.
pub proof fn law_interest_is_harvested(s: LendingState, contract: Address, call: LendingCall)
    ensures
        match call {
            LendingCall::HarvestInterest => match model::harvest_interest_step(s) {
                Ok((t, out)) => out.value == s.total_accrued_interest && t.total_accrued_interest
                    == 0,
                Err(_) => s.config is None,
            },
            _ => after_call(s, contract, call).0.total_accrued_interest
                == s.total_accrued_interest,
        },
{
    match call {
        LendingCall::Liquidate { liquidator, borrower } => {
            if model::liquidate_step(s, contract, liquidator, borrower) is Ok {
                lemma_liquidated(s, contract, liquidator, borrower);
            }
        },
        _ => {},
    }
}

} // verus!
