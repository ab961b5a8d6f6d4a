//! What holds of single positions: health, borrowing, repayment and liquidation.

use vstd::prelude::*;
use crate::arith;
use crate::arith::{mul_div, mul_mul_div, BPS_DENOMINATOR, RATE_PRECISION};
use crate::host::{Address, Transfer};
use super::laws;
use super::model;
use super::model::{
    AssetConfig, Claim, LendingError, LendingState, LendingStep, Seizure, Weighing, VALUE_SCALE,
};

verus! {

// ---------------------------------------------------------------------------
// Weighed collateral
// ---------------------------------------------------------------------------

/// Weighed sums of the same values are the same.
pub(super) proof fn lemma_weighted_sum_same(
    s: LendingState,
    t: LendingState,
    user: Address,
    list: Seq<u32>,
    weighing: Weighing,
)
    requires
        forall|asset: Address| #[trigger]
            s.weighted_value(user, asset, weighing) == t.weighted_value(user, asset, weighing),
    ensures
        s.weighted_sum(user, list, weighing) == t.weighted_sum(user, list, weighing),
    decreases list.len(),
{
    if list.len() > 0 {
        lemma_weighted_sum_same(s, t, user, list.drop_last(), weighing);
        let asset = Address { id: list.last() };
        assert(s.weighted_value(user, asset, weighing) == t.weighted_value(user, asset, weighing));
    }
}

/// A weighed sum of values none of which is larger is not larger.
proof fn lemma_weighted_sum_le(
    s: LendingState,
    v: Weighing,
    t: LendingState,
    w: Weighing,
    user: Address,
    list: Seq<u32>,
)
    requires
        forall|i: int|
            #![trigger list[i]]
            0 <= i < list.len() ==> {
                let asset = Address { id: list[i] };
                s.weighted_value(user, asset, v) is Ok && t.weighted_value(user, asset, w) is Ok
                    ==> s.weighted_value(user, asset, v)->Ok_0 <= t.weighted_value(
                    user,
                    asset,
                    w,
                )->Ok_0
            },
        s.weighted_sum(user, list, v) is Ok,
        t.weighted_sum(user, list, w) is Ok,
    ensures
        s.weighted_sum(user, list, v)->Ok_0 <= t.weighted_sum(user, list, w)->Ok_0,
    decreases list.len(),
{
    if list.len() > 0 {
        let rest = list.drop_last();
        assert forall|i: int|
            #![trigger rest[i]]
            0 <= i < rest.len() implies ({
                let asset = Address { id: rest[i] };
                s.weighted_value(user, asset, v) is Ok && t.weighted_value(user, asset, w) is Ok
                    ==> s.weighted_value(user, asset, v)->Ok_0 <= t.weighted_value(
                    user,
                    asset,
                    w,
                )->Ok_0
            }) by {
            assert(rest[i] == list[i]);
        }
        lemma_weighted_sum_le(s, v, t, w, user, rest);
        assert(list.last() == list[list.len() - 1]);
    }
}

/// The value of a balance grows with the balance, with the price and with the factor.
proof fn lemma_value_grows(
    balance: i128,
    price: i128,
    factor: i128,
    higher_balance: i128,
    higher_price: i128,
    higher_factor: i128,
)
    requires
        0 < balance <= higher_balance,
        0 <= price <= higher_price,
        0 <= factor <= higher_factor,
        mul_mul_div(balance, price, factor, VALUE_SCALE) is Some,
        mul_mul_div(higher_balance, higher_price, higher_factor, VALUE_SCALE) is Some,
    ensures
        0 <= mul_mul_div(balance, price, factor, VALUE_SCALE)->Some_0 <= mul_mul_div(
            higher_balance,
            higher_price,
            higher_factor,
            VALUE_SCALE,
        )->Some_0,
{
    let a = balance * price;
    let b = higher_balance * higher_price;
    assert(0 <= a <= b) by (nonlinear_arith)
        requires
            0 < balance <= higher_balance,
            0 <= price <= higher_price,
            a == balance * price,
            b == higher_balance * higher_price,
    ;
    assert(0 <= a * factor <= b * higher_factor) by (nonlinear_arith)
        requires
            0 <= a <= b,
            0 <= factor <= higher_factor,
    ;
}

/// A health factor is at least one where the collateral at the liquidation threshold is worth
/// the debt.
proof fn lemma_covered_is_healthy(weighted: i128, debt: i128)
    requires
        0 < debt <= weighted,
        mul_div(weighted, RATE_PRECISION, debt) is Some,
    ensures
        mul_div(weighted, RATE_PRECISION, debt)->Some_0 >= RATE_PRECISION,
{
    arith::lemma_mul_div(weighted, RATE_PRECISION, debt);
    let hf = mul_div(weighted, RATE_PRECISION, debt)->Some_0;
    assert(hf >= RATE_PRECISION) by (nonlinear_arith)
        requires
            weighted * RATE_PRECISION < (hf + 1) * debt,
            0 < debt <= weighted,
            RATE_PRECISION == 10_000_000,
    ;
}

// ---------------------------------------------------------------------------
// Deposits and withdrawals
// ---------------------------------------------------------------------------

/// A total of collateral has no influence on health.
proof fn lemma_total_spares_health(s: LendingState, user: Address, asset: Address, amount: i128)
    ensures
        s.with_total_collateral(asset, amount).health_factor(user) == s.health_factor(user),
{
    let t = s.with_total_collateral(asset, amount);
    let w = Weighing::LiquidationThreshold;
    assert forall|other: Address| #[trigger]
        s.weighted_value(user, other, w) == t.weighted_value(user, other, w) by {}
    lemma_weighted_sum_same(s, t, user, s.asset_list, w);
}

/// After a withdrawal, a position with debt is healthy.
pub proof fn law_withdrawal_leaves_health(
    s: LendingState,
    contract: Address,
    user: Address,
    asset: Address,
    amount: i128,
)
    requires
        model::withdraw_collateral_step(s, contract, user, asset, amount) is Ok,
    ensures
        ({
            let t = laws::settled(
                s,
                model::withdraw_collateral_step(s, contract, user, asset, amount),
            );
            &&& t.balance(user, asset) == s.balance(user, asset) - amount
            &&& t.debt(user) > 0 ==> (t.health_factor(user) matches Ok(hf) && hf >= RATE_PRECISION)
        }),
{
    let u = s.with_balance(user, asset, (s.balance(user, asset) - amount) as i128);
    lemma_total_spares_health(
        u,
        user,
        asset,
        (s.asset(asset).total_collateral - amount) as i128,
    );
}

/// Whether `user` owes nothing or is in good health.
pub open spec fn in_good_health(s: LendingState, user: Address) -> bool {
    s.debt(user) > 0 ==> (s.health_factor(user) matches Ok(hf) && hf >= RATE_PRECISION)
}

/// Whoever owes nothing or is in good health gets back what they deposit, and the market is as
/// it was before the deposit.
pub proof fn law_deposit_comes_back(
    s: LendingState,
    contract: Address,
    user: Address,
    asset: Address,
    amount: i128,
    other_user: Address,
    other_asset: Address,
)
    requires
        laws::balances_sound(s),
        in_good_health(s, user),
        model::deposit_collateral_step(s, contract, user, asset, amount) is Ok,
    ensures
        ({
            let t = laws::settled(
                s,
                model::deposit_collateral_step(s, contract, user, asset, amount),
            );
            let back = model::withdraw_collateral_step(t, contract, user, asset, amount);
            let u = laws::settled(t, back);
            &&& back is Ok
            &&& back->Ok_0.1.transfers[0].amount == amount
            &&& back->Ok_0.1.transfers[0].to == user
            &&& u.balance(other_user, other_asset) == s.balance(other_user, other_asset)
            &&& u.asset(other_asset) == s.asset(other_asset)
            &&& u == (LendingState { assets: u.assets, balances: u.balances, ..s })
        }),
{
    let t = laws::settled(s, model::deposit_collateral_step(s, contract, user, asset, amount));
    let v = t.with_balance(user, asset, (t.balance(user, asset) - amount) as i128);
    let w = Weighing::LiquidationThreshold;
    assert(s.balance(user, asset) >= 0);
    assert forall|other: Address| #[trigger]
        s.weighted_value(user, other, w) == v.weighted_value(user, other, w) by {
        model::lemma_position_key_injective(user, asset, user, other);
    }
    lemma_weighted_sum_same(s, v, user, s.asset_list, w);
    assert(v.health_factor(user) == s.health_factor(user));
    model::lemma_position_key_injective(user, asset, other_user, other_asset);
}

/// A disabled asset takes no more deposits; withdrawals of it go on as before.
pub proof fn law_disabled_asset_pays_back(
    s: LendingState,
    contract: Address,
    admin: Address,
    asset: Address,
    user: Address,
    amount: i128,
)
    requires
        model::disable_collateral_asset_step(s, admin, asset) is Ok,
    ensures
        ({
            let t = laws::settled(s, model::disable_collateral_asset_step(s, admin, asset));
            let before = model::withdraw_collateral_step(s, contract, user, asset, amount);
            let after = model::withdraw_collateral_step(t, contract, user, asset, amount);
            &&& amount > 0 ==> model::deposit_collateral_step(t, contract, user, asset, amount)
                == LendingStep::<()>::Err(LendingError::AssetNotEnabled)
            &&& after is Ok <==> before is Ok
            &&& after is Ok ==> after->Ok_0.1 == before->Ok_0.1
            &&& t.balance(user, asset) == s.balance(user, asset)
            &&& t.health_factor(user) == s.health_factor(user)
        }),
{
    let t = laws::settled(s, model::disable_collateral_asset_step(s, admin, asset));
    let w = Weighing::LiquidationThreshold;
    assert forall|other: Address| #[trigger]
        s.weighted_value(user, other, w) == t.weighted_value(user, other, w) by {}
    lemma_weighted_sum_same(s, t, user, s.asset_list, w);
    let left = (s.balance(user, asset) - amount) as i128;
    let u = s.with_balance(user, asset, left);
    let v = t.with_balance(user, asset, left);
    assert forall|other: Address| #[trigger]
        u.weighted_value(user, other, w) == v.weighted_value(user, other, w) by {
        model::lemma_position_key_injective(user, asset, user, other);
    }
    lemma_weighted_sum_same(u, v, user, s.asset_list, w);
}

// ---------------------------------------------------------------------------
// Borrowing
// ---------------------------------------------------------------------------

/// Debts have no influence on what collateral is worth.
proof fn lemma_debts_spare_value(
    s: LendingState,
    t: LendingState,
    user: Address,
    weighing: Weighing,
)
    requires
        t == (LendingState { debts: t.debts, total_borrowed: t.total_borrowed, ..s }),
    ensures
        t.weighted_collateral(user, weighing) == s.weighted_collateral(user, weighing),
{
    assert forall|asset: Address| #[trigger]
        s.weighted_value(user, asset, weighing) == t.weighted_value(user, asset, weighing) by {}
    lemma_weighted_sum_same(s, t, user, s.asset_list, weighing);
}

/// A loan adds to the debt what is paid out, which the market has, and leaves the debt within
/// what the collateral allows.
pub proof fn law_borrowing_stays_within_limit(
    s: LendingState,
    contract: Address,
    user: Address,
    xlm_amount: i128,
    pool_balance: i128,
)
    requires
        model::borrow_step(s, contract, user, xlm_amount, pool_balance) is Ok,
    ensures
        ({
            let (t, out) = model::borrow_step(
                s,
                contract,
                user,
                xlm_amount,
                pool_balance,
            )->Ok_0;
            &&& t.debt(user) == s.debt(user) + xlm_amount
            &&& (t.max_borrow(user) matches Ok(max) && t.debt(user) <= max)
            &&& out.transfers[0].amount == xlm_amount
            &&& xlm_amount <= pool_balance
        }),
{
    let t = laws::settled(s, model::borrow_step(s, contract, user, xlm_amount, pool_balance));
    lemma_debts_spare_value(s, t, user, Weighing::CollateralFactor);
}

/// A loan of up to the reported maximum is accepted, and a larger one is refused, as long as
/// the market has the XLM.
pub proof fn law_maximum_can_be_borrowed(
    s: LendingState,
    contract: Address,
    user: Address,
    xlm_amount: i128,
    pool_balance: i128,
)
    requires
        laws::debts_sound(s),
        s.config is Some,
        s.max_borrow_amount(user) is Ok,
        0 < xlm_amount <= pool_balance,
        arith::fits(s.total_borrowed + xlm_amount),
    ensures
        xlm_amount <= s.max_borrow_amount(user)->Ok_0 <==> model::borrow_step(
            s,
            contract,
            user,
            xlm_amount,
            pool_balance,
        ) is Ok,
{
    laws::lemma_debt(s, user);
}

/// Whether no listed asset counts for more in borrowing than in liquidation.
pub open spec fn factors_below_threshold(s: LendingState) -> bool {
    forall|i: int|
        #![trigger s.asset_list[i]]
        0 <= i < s.asset_list.len() ==> 0 <= s.asset(Address { id: s.asset_list[i] }).cf_bps
            <= s.liquidation_threshold_bps
}

/// A fresh loan is healthy where no collateral factor is above the liquidation threshold.
pub proof fn law_fresh_loan_is_healthy(
    s: LendingState,
    contract: Address,
    user: Address,
    xlm_amount: i128,
    pool_balance: i128,
)
    requires
        laws::debts_sound(s),
        laws::prices_sound(s),
        factors_below_threshold(s),
        model::borrow_step(s, contract, user, xlm_amount, pool_balance) is Ok,
    ensures
        ({
            let t = laws::settled(
                s,
                model::borrow_step(s, contract, user, xlm_amount, pool_balance),
            );
            t.health_factor(user) matches Ok(hf) ==> hf >= RATE_PRECISION
        }),
{
    let t = laws::settled(s, model::borrow_step(s, contract, user, xlm_amount, pool_balance));
    let v = Weighing::CollateralFactor;
    let w = Weighing::LiquidationThreshold;
    laws::lemma_debt(s, user);
    lemma_debts_spare_value(s, t, user, w);
    if t.health_factor(user) is Ok {
        let list = s.asset_list;
        assert forall|i: int|
            #![trigger list[i]]
            0 <= i < list.len() implies ({
                let asset = Address { id: list[i] };
                s.weighted_value(user, asset, v) is Ok && s.weighted_value(user, asset, w) is Ok
                    ==> s.weighted_value(user, asset, v)->Ok_0 <= s.weighted_value(
                    user,
                    asset,
                    w,
                )->Ok_0
            }) by {
            let asset = Address { id: list[i] };
            assert(laws::priced(s, asset));
            let balance = s.balance(user, asset);
            if balance > 0 && s.weighted_value(user, asset, v) is Ok && s.weighted_value(
                user,
                asset,
                w,
            ) is Ok {
                let price = s.asset_price(asset)->Some_0;
                lemma_value_grows(
                    balance,
                    price,
                    s.asset(asset).cf_bps,
                    balance,
                    price,
                    s.liquidation_threshold_bps,
                );
            }
        }
        lemma_weighted_sum_le(s, v, s, w, user, list);
        lemma_covered_is_healthy(s.weighted_collateral(user, w)->Ok_0, t.debt(user));
    }
}

/// A repayment takes no more than the debt and lowers the debt by what it takes; paying the
/// debt or more clears it.
pub proof fn law_repayment_lowers_debt(
    s: LendingState,
    contract: Address,
    user: Address,
    xlm_amount: i128,
    other: Address,
)
    requires
        laws::debts_sound(s),
        model::repay_step(s, contract, user, xlm_amount) is Ok,
    ensures
        ({
            let (t, out) = model::repay_step(s, contract, user, xlm_amount)->Ok_0;
            let taken = out.transfers[0].amount;
            &&& taken == (if xlm_amount < s.debt(user) {
                xlm_amount
            } else {
                s.debt(user)
            })
            &&& t.debt(user) == s.debt(user) - taken
            &&& xlm_amount >= s.debt(user) ==> t.debt(user) == 0 && t.health_factor(user) == Ok::<
                i128,
                LendingError,
            >(i128::MAX)
            &&& other != user ==> t.debt(other) == s.debt(other)
        }),
{
    laws::lemma_debt(s, user);
}

// ---------------------------------------------------------------------------
// Liquidation
// ---------------------------------------------------------------------------

/// A position is liquidated exactly where it has debt and its health factor is below one,
/// unless some number does not fit.
pub proof fn law_only_unhealthy_positions_are_liquidated(
    s: LendingState,
    contract: Address,
    liquidator: Address,
    borrower: Address,
)
    requires
        laws::debts_sound(s),
    ensures
        ({
            let step = model::liquidate_step(s, contract, liquidator, borrower);
            let unhealthy = s.debt(borrower) > 0 && (s.health_factor(borrower) matches Ok(hf) && hf
                < RATE_PRECISION);
            &&& step is Ok ==> unhealthy
            &&& unhealthy && s.config is Some ==> step is Ok || step == LendingStep::<i128>::Err(
                LendingError::Arithmetic,
            )
        }),
{
    laws::lemma_debt(s, borrower);
    if s.debt(borrower) > 0 && s.config is Some {
        let w = Weighing::Price;
        lemma_weighted_sum_errors(s, borrower, s.asset_list, w);
        if s.claim(borrower) is Ok {
            lemma_seize_errors(
                model::cleared(s, borrower),
                borrower,
                s.claim(borrower)->Ok_0,
                s.asset_list,
            );
        }
    }
}

/// With a configuration, collateral is weighed unless a number does not fit.
proof fn lemma_weighted_sum_errors(s: LendingState, user: Address, list: Seq<u32>, w: Weighing)
    requires
        s.config is Some,
    ensures
        s.weighted_sum(user, list, w) matches Err(e) ==> e == LendingError::Arithmetic,
    decreases list.len(),
{
    if list.len() > 0 {
        lemma_weighted_sum_errors(s, user, list.drop_last(), w);
    }
}

/// With a configuration, a seizure fails only on a number that does not fit.
proof fn lemma_seize_errors(s: LendingState, borrower: Address, claim: Claim, list: Seq<u32>)
    requires
        s.config is Some,
    ensures
        match s.seize(borrower, claim, list) {
            Ok((t, _)) => t.config == s.config,
            Err(e) => e == LendingError::Arithmetic,
        },
    decreases list.len(),
{
    if list.len() > 0 {
        lemma_seize_errors(s, borrower, claim, list.drop_last());
    }
}

/// The price of `asset` in XLM, scaled by `RATE_PRECISION`; zero without a configuration.
pub open spec fn price_of(s: LendingState, asset: Address) -> int {
    match s.asset_price(asset) {
        Some(price) => price as int,
        None => 0,
    }
}

/// What transferred collateral is worth in XLM, scaled by `RATE_PRECISION`.
pub open spec fn worth(s: LendingState, transfers: Seq<Transfer>) -> int
    decreases transfers.len(),
{
    if transfers.len() == 0 {
        0
    } else {
        worth(s, transfers.drop_last()) + transfers.last().amount * price_of(
            s,
            transfers.last().token,
        )
    }
}

/// What a holding of `user` is worth in XLM, scaled by `RATE_PRECISION`.
pub open spec fn holding_worth(s: LendingState, user: Address, asset: Address) -> int {
    if s.balance(user, asset) > 0 {
        s.balance(user, asset) * price_of(s, asset)
    } else {
        0
    }
}

/// What the holdings of `user` among the assets in `list` are worth in XLM, scaled by
/// `RATE_PRECISION`.
pub open spec fn holdings_worth(s: LendingState, user: Address, list: Seq<u32>) -> int
    decreases list.len(),
{
    if list.len() == 0 {
        0
    } else {
        holdings_worth(s, user, list.drop_last()) + holding_worth(
            s,
            user,
            Address { id: list.last() },
        )
    }
}

/// The prices of the assets in `list` that `user` holds, added up.
pub open spec fn held_prices(s: LendingState, user: Address, list: Seq<u32>) -> int
    decreases list.len(),
{
    if list.len() == 0 {
        0
    } else {
        held_prices(s, user, list.drop_last()) + (if s.balance(user, Address { id: list.last() })
            > 0 {
            price_of(s, Address { id: list.last() })
        } else {
            0
        })
    }
}

/// Collateral weighed by nothing but the price is what it is worth.
proof fn lemma_priced_collateral(s: LendingState, user: Address, list: Seq<u32>)
    requires
        s.weighted_sum(user, list, Weighing::Price) is Ok,
    ensures
        s.weighted_sum(user, list, Weighing::Price)->Ok_0 == holdings_worth(s, user, list),
    decreases list.len(),
{
    if list.len() > 0 {
        lemma_priced_collateral(s, user, list.drop_last());
    }
}

/// The debt and the bonus, scaled by `RATE_PRECISION` and by `BPS_DENOMINATOR`.
pub open spec fn due(s: LendingState, debt: i128) -> int {
    debt * RATE_PRECISION * (BPS_DENOMINATOR + s.liquidation_bonus_bps)
}

/// The units that pay for a debt and the bonus are worth no more than both, and less by no more
/// than two units and the bonus on one.
proof fn lemma_units_worth(s: LendingState, debt: i128, price: i128)
    requires
        debt >= 0,
        s.liquidation_bonus_bps >= 0,
        price > 0,
        s.units_for(debt, price) is Some,
    ensures
        ({
            let units = s.units_for(debt, price)->Some_0;
            &&& units >= 0
            &&& units * price * BPS_DENOMINATOR <= due(s, debt)
            &&& due(s, debt) <= units * price * BPS_DENOMINATOR + price * (2 * BPS_DENOMINATOR
                + s.liquidation_bonus_bps)
        }),
{
    let units = s.units_for(debt, price)->Some_0;
    let part = mul_div(debt, RATE_PRECISION, price)->Some_0;
    let bonus = (BPS_DENOMINATOR + s.liquidation_bonus_bps) as i128;
    arith::lemma_mul_div(debt, RATE_PRECISION, price);
    arith::lemma_mul_div(part, bonus, BPS_DENOMINATOR);
    let d = debt * RATE_PRECISION;
    assert(units * price * BPS_DENOMINATOR <= d * bonus) by (nonlinear_arith)
        requires
            units * BPS_DENOMINATOR <= part * bonus,
            part * price <= d,
            price > 0,
            bonus > 0,
            part >= 0,
            units >= 0,
    ;
    assert(d * bonus <= units * price * BPS_DENOMINATOR + price * (BPS_DENOMINATOR + bonus))
        by (nonlinear_arith)
        requires
            d < (part + 1) * price,
            part * bonus < (units + 1) * BPS_DENOMINATOR,
            price > 0,
            bonus > 0,
    ;
}

/// What is seized of a holding is worth no more than its part of the debt and the bonus, nor
/// than the holding.
proof fn lemma_seizable_worth(
    u: LendingState,
    borrower: Address,
    claim: Claim,
    asset: Address,
    full: int,
)
    requires
        claim.debt >= 0,
        claim.total >= 0,
        u.liquidation_bonus_bps >= 0,
        u.asset_price(asset) is Some,
        price_of(u, asset) > 0,
        u.balance(borrower, asset) <= full,
        0 <= full,
        u.seizable(borrower, claim, asset) is Ok,
    ensures
        ({
            let amount = u.seizable(borrower, claim, asset)->Ok_0;
            let price = price_of(u, asset);
            &&& 0 <= amount * price <= full * price
            &&& amount * price * claim.total * BPS_DENOMINATOR <= due(u, claim.debt) * (full
                * price)
        }),
{
    let amount = u.seizable(borrower, claim, asset)->Ok_0 as int;
    let price = price_of(u, asset);
    let total = claim.total as int;
    let balance = u.balance(borrower, asset);
    let d = due(u, claim.debt);
    let b = BPS_DENOMINATOR as int;
    laws::lemma_seizable(u, borrower, claim, asset);
    assert(d >= 0) by (nonlinear_arith)
        requires
            claim.debt >= 0,
            u.liquidation_bonus_bps >= 0,
            d == claim.debt * RATE_PRECISION * (BPS_DENOMINATOR + u.liquidation_bonus_bps),
            RATE_PRECISION == 10_000_000,
            BPS_DENOMINATOR == 10_000,
    ;
    if amount > 0 {
        let units = u.units_for(claim.debt, price as i128)->Some_0;
        let owed = units * price;
        lemma_units_worth(u, claim.debt, price as i128);
        laws::lemma_share(balance, units, price as i128, claim.total);
        assert(owed > 0) by (nonlinear_arith)
            requires
                units > 0,
                price > 0,
                owed == units * price,
        ;
        if owed >= total {
            assert(amount * total <= full * owed) by (nonlinear_arith)
                requires
                    0 < amount <= full,
                    0 <= total <= owed,
            ;
        } else {
            assert(amount * total <= full * owed) by (nonlinear_arith)
                requires
                    amount == balance * owed / total,
                    0 < balance <= full,
                    0 < owed < total,
            ;
        }
        assert(amount * total * b <= full * d) by (nonlinear_arith)
            requires
                amount * total <= full * owed,
                owed * b <= d,
                full >= 0,
                b > 0,
        ;
    } else {
        assert(amount * total * b == 0) by (nonlinear_arith)
            requires
                amount == 0,
        ;
        assert(0 <= full * d) by (nonlinear_arith)
            requires
                full >= 0,
                d >= 0,
        ;
    }
    assert(amount * price * total * b <= d * (full * price)) by (nonlinear_arith)
        requires
            amount * total * b <= full * d,
            price > 0,
    ;
    assert(0 <= amount * price <= full * price) by (nonlinear_arith)
        requires
            0 <= amount <= full,
            price > 0,
    ;
}

/// What is seized over a list is worth no more than its part of the debt and the bonus, nor
/// than the holdings.
proof fn lemma_worth_bounded(
    s: LendingState,
    contract: Address,
    liquidator: Address,
    borrower: Address,
    claim: Claim,
    list: Seq<u32>,
)
    requires
        laws::balances_sound(s),
        laws::prices_sound(s),
        s.config is Some,
        claim.debt >= 0,
        claim.total >= 0,
        s.seize(borrower, claim, list) is Ok,
    ensures
        ({
            let seized = s.seize(borrower, claim, list)->Ok_0.1;
            let w = worth(
                s,
                seized.map_values(|x: Seizure| model::seizure_transfer(contract, liquidator, x)),
            );
            let held = holdings_worth(s, borrower, list);
            &&& 0 <= w <= held
            &&& w * claim.total * BPS_DENOMINATOR <= due(s, claim.debt) * held
        }),
    decreases list.len(),
{
    let f = |x: Seizure| model::seizure_transfer(contract, liquidator, x);
    let seized = s.seize(borrower, claim, list)->Ok_0.1;
    let total = claim.total as int;
    let d = due(s, claim.debt);
    let b = BPS_DENOMINATOR as int;
    if list.len() == 0 {
        assert(seized.map_values(f) =~= Seq::empty());
        assert(0 * total * b <= d * 0) by (nonlinear_arith);
    } else {
        let rest = list.drop_last();
        let (u, before) = s.seize(borrower, claim, rest)->Ok_0;
        let asset = Address { id: list.last() };
        let amount = u.seizable(borrower, claim, asset)->Ok_0;
        let price = price_of(s, asset);
        let moved = before.map_values(f);
        let full = s.balance(borrower, asset);
        lemma_worth_bounded(s, contract, liquidator, borrower, claim, rest);
        laws::lemma_seize_balances(s, borrower, claim, rest);
        laws::lemma_seize_frame(s, borrower, claim, rest);
        laws::lemma_seizable(u, borrower, claim, asset);
        assert(laws::priced(s, asset));
        assert(u.asset(asset).price == s.asset(asset).price);
        assert(u.balance(borrower, asset) <= full);
        lemma_seizable_worth(u, borrower, claim, asset, full as int);
        let w0 = worth(s, moved);
        let h0 = holdings_worth(s, borrower, rest);
        let h1 = holding_worth(s, borrower, asset);
        assert(h1 == full * price) by {
            if full == 0 {
                assert(0 * price == 0) by (nonlinear_arith);
            }
        }
        let x = amount * price;
        assert((w0 + x) * total * b == w0 * total * b + x * total * b) by (nonlinear_arith);
        assert(d * (h0 + h1) == d * h0 + d * h1) by (nonlinear_arith);
        if amount > 0 {
            let last = f(Seizure { asset, amount });
            assert(seized.map_values(f) =~= moved.push(last));
            assert(moved.push(last).drop_last() =~= moved);
        } else {
            assert(x == 0) by (nonlinear_arith)
                requires
                    amount == 0,
                    x == amount * price,
            ;
        }
    }
}

/// Whether the claim's share of a holding of `s` was taken in `t`.
pub open spec fn took_share(
    s: LendingState,
    t: LendingState,
    borrower: Address,
    claim: Claim,
    asset: Address,
) -> bool {
    match s.seizable(borrower, claim, asset) {
        Ok(amount) => t.balance(borrower, asset) == s.balance(borrower, asset) - amount,
        Err(_) => false,
    }
}

/// What is not on the list is not touched. Of distinct assets on the list the share is taken.
proof fn lemma_shares_taken(s: LendingState, borrower: Address, claim: Claim, list: Seq<u32>)
    requires
        laws::balances_sound(s),
        s.seize(borrower, claim, list) is Ok,
    ensures
        ({
            let t = s.seize(borrower, claim, list)->Ok_0.0;
            &&& forall|asset: Address|
                !list.contains(asset.id) ==> #[trigger] t.balance(borrower, asset) == s.balance(
                    borrower,
                    asset,
                )
            &&& list.no_duplicates() ==> forall|asset: Address|
                list.contains(asset.id) ==> #[trigger] took_share(s, t, borrower, claim, asset)
        }),
    decreases list.len(),
{
    if list.len() > 0 {
        let rest = list.drop_last();
        let u = s.seize(borrower, claim, rest)->Ok_0.0;
        let t = s.seize(borrower, claim, list)->Ok_0.0;
        let asset = Address { id: list.last() };
        lemma_shares_taken(s, borrower, claim, rest);
        laws::lemma_seize_balances(s, borrower, claim, rest);
        laws::lemma_seize_frame(s, borrower, claim, rest);
        laws::lemma_seizable(u, borrower, claim, asset);
        assert(u.asset(asset).price == s.asset(asset).price);
        assert forall|id: u32| list.contains(id) == (rest.contains(id) || #[trigger] is_last(
            list,
            id,
        )) by {
            if rest.contains(id) {
                let i = rest.index_of(id);
                assert(list[i] == id);
            }
            if list.contains(id) && id != list.last() {
                let i = list.index_of(id);
                assert(rest[i] == id);
            }
            assert(list[list.len() - 1] == list.last());
        }
        assert(is_last(list, asset.id));
        assert forall|other: Address| !list.contains(other.id) implies #[trigger] t.balance(
            borrower,
            other,
        ) == s.balance(borrower, other) by {
            assert(!is_last(list, other.id));
            model::lemma_position_key_injective(borrower, asset, borrower, other);
            assert(u.balance(borrower, other) == s.balance(borrower, other));
        }
        if list.no_duplicates() {
            lemma_rest_apart(list);
            assert(u.balance(borrower, asset) == s.balance(borrower, asset));
            assert(u.seizable(borrower, claim, asset) == s.seizable(borrower, claim, asset));
            assert forall|other: Address| list.contains(other.id) implies #[trigger] took_share(
                s,
                t,
                borrower,
                claim,
                other,
            ) by {
                model::lemma_position_key_injective(borrower, asset, borrower, other);
                if other != asset {
                    assert(!is_last(list, other.id));
                    assert(took_share(s, u, borrower, claim, other));
                }
            }
        }
    }
}

/// Whether `id` is the last of `list`.
spec fn is_last(list: Seq<u32>, id: u32) -> bool {
    id == list.last()
}

/// Without its last, a list of distinct assets is one that does not hold the last.
proof fn lemma_rest_apart(list: Seq<u32>)
    requires
        list.len() > 0,
        list.no_duplicates(),
    ensures
        list.drop_last().no_duplicates(),
        !list.drop_last().contains(list.last()),
{
    let rest = list.drop_last();
    assert forall|i: int, j: int|
        0 <= i < rest.len() && 0 <= j < rest.len() && i != j implies rest[i] != rest[j] by {
        assert(rest[i] == list[i] && rest[j] == list[j]);
    }
    if rest.contains(list.last()) {
        let i = rest.index_of(list.last());
        assert(list[i] == list[list.len() - 1]);
    }
}

/// The smaller of two numbers.
pub open spec fn smaller(a: int, b: int) -> int {
    if a < b {
        a
    } else {
        b
    }
}

/// What is seized of a holding falls short of its part of the debt and the bonus, or of the
/// holding, by no more than three units of the asset and the bonus on one.
proof fn lemma_seizable_reaches(s: LendingState, borrower: Address, claim: Claim, asset: Address)
    requires
        claim.debt >= 0,
        s.liquidation_bonus_bps >= 0,
        s.asset_price(asset) is Some,
        price_of(s, asset) > 0,
        s.balance(borrower, asset) > 0,
        holding_worth(s, borrower, asset) <= claim.total,
        s.seizable(borrower, claim, asset) is Ok,
    ensures
        ({
            let price = price_of(s, asset);
            smaller(due(s, claim.debt), claim.total * BPS_DENOMINATOR) * holding_worth(
                s,
                borrower,
                asset,
            ) <= (s.seizable(borrower, claim, asset)->Ok_0 * price * BPS_DENOMINATOR + price * (3
                * BPS_DENOMINATOR + s.liquidation_bonus_bps)) * claim.total
        }),
{
    let balance = s.balance(borrower, asset);
    let price = price_of(s, asset);
    let total = claim.total as int;
    let amount = s.seizable(borrower, claim, asset)->Ok_0 as int;
    let units = s.units_for(claim.debt, price as i128)->Some_0;
    let owed = units * price;
    let held = balance * price;
    let d = due(s, claim.debt);
    let b = BPS_DENOMINATOR as int;
    let slack = 2 * BPS_DENOMINATOR + s.liquidation_bonus_bps;
    let m = smaller(d, total * b);
    lemma_units_worth(s, claim.debt, price as i128);
    laws::lemma_share(balance, units, price as i128, claim.total);
    assert(held > 0) by (nonlinear_arith)
        requires
            balance > 0,
            price > 0,
            held == balance * price,
    ;
    if owed >= total && units > 0 {
        assert(amount == balance);
        assert(m * held <= (amount * price * b + price * (slack + b)) * total) by (nonlinear_arith)
            requires
                m <= total * b,
                held > 0,
                held == balance * price,
                amount == balance,
                price > 0,
                slack > 0,
                b > 0,
                total > 0,
        ;
    } else {
        assert(owed >= 0) by (nonlinear_arith)
            requires
                units >= 0,
                price > 0,
                owed == units * price,
        ;
        assert(balance * owed <= (amount + 1) * total) by {
            if units > 0 {
                assert(balance * owed <= (amount + 1) * total) by (nonlinear_arith)
                    requires
                        total > 0,
                        amount == balance * owed / total,
                ;
            } else {
                assert(owed == 0) by (nonlinear_arith)
                    requires
                        units == 0,
                        owed == units * price,
                ;
                assert(balance * 0 <= (amount + 1) * total) by (nonlinear_arith)
                    requires
                        amount >= 0,
                        total > 0,
                ;
            }
        }
        // Per stroop of worth, and in two parts: what the units fall short of the debt and the
        // bonus, and what the share falls short of its part of the units.
        assert(d * held <= (owed * b + price * slack) * held) by (nonlinear_arith)
            requires
                d <= owed * b + price * slack,
                held > 0,
        ;
        assert((owed * b + price * slack) * held == (balance * owed) * (price * b) + price * slack
            * held) by (nonlinear_arith)
            requires
                held == balance * price,
        ;
        assert((balance * owed) * (price * b) <= ((amount + 1) * total) * (price * b))
            by (nonlinear_arith)
            requires
                balance * owed <= (amount + 1) * total,
                price > 0,
                b > 0,
        ;
        assert(price * slack * held <= price * slack * total) by (nonlinear_arith)
            requires
                held <= total,
                price > 0,
                slack > 0,
        ;
        assert(((amount + 1) * total) * (price * b) + price * slack * total == (amount * price * b
            + price * (slack + b)) * total) by (nonlinear_arith);
        assert(m * held <= d * held) by (nonlinear_arith)
            requires
                m <= d,
                held > 0,
        ;
    }
}

/// What is seized of distinct assets falls short of their part of the debt and the bonus, or of
/// all collateral, by no more than three units of each and the bonus on one.
proof fn lemma_worth_reaches(
    s: LendingState,
    contract: Address,
    liquidator: Address,
    borrower: Address,
    claim: Claim,
    list: Seq<u32>,
)
    requires
        laws::balances_sound(s),
        laws::prices_sound(s),
        s.config is Some,
        claim.debt >= 0,
        holdings_worth(s, borrower, list) <= claim.total,
        list.no_duplicates(),
        s.seize(borrower, claim, list) is Ok,
    ensures
        ({
            let seized = s.seize(borrower, claim, list)->Ok_0.1;
            let w = worth(
                s,
                seized.map_values(|x: Seizure| model::seizure_transfer(contract, liquidator, x)),
            );
            let m = smaller(due(s, claim.debt), claim.total * BPS_DENOMINATOR);
            m * holdings_worth(s, borrower, list) <= (w * BPS_DENOMINATOR + held_prices(
                s,
                borrower,
                list,
            ) * (3 * BPS_DENOMINATOR + s.liquidation_bonus_bps)) * claim.total
        }),
    decreases list.len(),
{
    let f = |x: Seizure| model::seizure_transfer(contract, liquidator, x);
    let seized = s.seize(borrower, claim, list)->Ok_0.1;
    let total = claim.total as int;
    let b = BPS_DENOMINATOR as int;
    let slack = 3 * BPS_DENOMINATOR + s.liquidation_bonus_bps;
    let m = smaller(due(s, claim.debt), total * b);
    if list.len() == 0 {
        assert(seized.map_values(f) =~= Seq::empty());
        assert(m * 0 <= (0 * b + 0 * slack) * total) by (nonlinear_arith);
    } else {
        let rest = list.drop_last();
        let (u, before) = s.seize(borrower, claim, rest)->Ok_0;
        let asset = Address { id: list.last() };
        let price = price_of(s, asset);
        let moved = before.map_values(f);
        let balance = s.balance(borrower, asset);
        let amount = u.seizable(borrower, claim, asset)->Ok_0;
        lemma_rest_apart(list);
        lemma_worth_not_negative(s, borrower, rest);
        assert(laws::priced(s, asset));
        assert(balance > 0 ==> balance * price >= 0) by (nonlinear_arith)
            requires
                price > 0,
        ;
        lemma_worth_reaches(s, contract, liquidator, borrower, claim, rest);
        lemma_shares_taken(s, borrower, claim, rest);
        laws::lemma_seize_frame(s, borrower, claim, rest);
        laws::lemma_seizable(u, borrower, claim, asset);
        assert(u.asset(asset).price == s.asset(asset).price);
        assert(u.balance(borrower, asset) == balance);
        assert(u.seizable(borrower, claim, asset) == s.seizable(borrower, claim, asset));
        let w0 = worth(s, moved);
        let h0 = holdings_worth(s, borrower, rest);
        let h1 = holding_worth(s, borrower, asset);
        let p0 = held_prices(s, borrower, rest);
        let x = amount * price;
        if amount > 0 {
            let last = f(Seizure { asset, amount });
            assert(seized.map_values(f) =~= moved.push(last));
            assert(moved.push(last).drop_last() =~= moved);
        } else {
            assert(x == 0) by (nonlinear_arith)
                requires
                    amount == 0,
                    x == amount * price,
            ;
        }
        assert(worth(s, seized.map_values(f)) == w0 + x);
        assert(m * (h0 + h1) == m * h0 + m * h1) by (nonlinear_arith);
        if balance > 0 {
            lemma_seizable_reaches(s, borrower, claim, asset);
            assert(((w0 + x) * b + (p0 + price) * slack) * total == (w0 * b + p0 * slack) * total
                + (x * b + price * slack) * total) by (nonlinear_arith);
        } else {
            assert(m * 0 == 0) by (nonlinear_arith);
        }
    }
}

/// What a liquidation reads off the market before it, and what it does to it.
proof fn lemma_liquidation(
    s: LendingState,
    contract: Address,
    liquidator: Address,
    borrower: Address,
)
    requires
        laws::balances_sound(s),
        laws::prices_sound(s),
        model::liquidate_step(s, contract, liquidator, borrower) is Ok,
    ensures
        ({
            let (t, out) = model::liquidate_step(s, contract, liquidator, borrower)->Ok_0;
            let u = model::cleared(s, borrower);
            let claim = s.claim(borrower)->Ok_0;
            let seized = u.seize(borrower, claim, s.asset_list)->Ok_0.1;
            &&& u.seize(borrower, claim, s.asset_list) is Ok
            &&& t == u.seize(borrower, claim, s.asset_list)->Ok_0.0
            &&& out.transfers.skip(1) == seized.map_values(
                |x: Seizure| model::seizure_transfer(contract, liquidator, x),
            )
            &&& laws::balances_sound(u)
            &&& laws::prices_sound(u)
            &&& u.config is Some
            &&& claim.debt == s.debt(borrower)
            &&& claim.debt > 0
            &&& due(u, claim.debt) == due(s, claim.debt)
            &&& claim.total == holdings_worth(u, borrower, s.asset_list)
            &&& claim.total >= 0
            &&& forall|transfers: Seq<Transfer>| #[trigger] worth(u, transfers) == worth(s, transfers)
            &&& holdings_worth(u, borrower, s.asset_list) == holdings_worth(
                s,
                borrower,
                s.asset_list,
            )
            &&& held_prices(u, borrower, s.asset_list) == held_prices(s, borrower, s.asset_list)
            &&& t.debts == s.debts.insert(borrower.id, 0)
        }),
{
    let (t, out) = model::liquidate_step(s, contract, liquidator, borrower)->Ok_0;
    let u = model::cleared(s, borrower);
    let claim = s.claim(borrower)->Ok_0;
    let seized = u.seize(borrower, claim, s.asset_list)->Ok_0.1;
    let f = |x: Seizure| model::seizure_transfer(contract, liquidator, x);
    laws::lemma_liquidated(s, contract, liquidator, borrower);
    assert(out.transfers.skip(1) =~= seized.map_values(f));
    assert forall|a: Address| #[trigger] laws::priced(u, a) by {
        assert(laws::priced(s, a));
    }
    lemma_priced_collateral(s, borrower, s.asset_list);
    lemma_same_worth(s, u, borrower, s.asset_list);
    lemma_worth_not_negative(s, borrower, s.asset_list);
    assert forall|transfers: Seq<Transfer>| #[trigger]
        worth(u, transfers) == worth(s, transfers) by {
        lemma_same_transfer_worth(s, u, transfers);
    }
}

/// Clearing a debt leaves what transfers are worth alone.
proof fn lemma_same_transfer_worth(s: LendingState, u: LendingState, transfers: Seq<Transfer>)
    requires
        u == (LendingState { debts: u.debts, total_borrowed: u.total_borrowed, ..s }),
    ensures
        worth(u, transfers) == worth(s, transfers),
    decreases transfers.len(),
{
    if transfers.len() > 0 {
        lemma_same_transfer_worth(s, u, transfers.drop_last());
    }
}

/// Clearing a debt leaves what holdings are worth alone.
proof fn lemma_same_worth(s: LendingState, u: LendingState, user: Address, list: Seq<u32>)
    requires
        u == (LendingState { debts: u.debts, total_borrowed: u.total_borrowed, ..s }),
    ensures
        holdings_worth(u, user, list) == holdings_worth(s, user, list),
        held_prices(u, user, list) == held_prices(s, user, list),
    decreases list.len(),
{
    if list.len() > 0 {
        lemma_same_worth(s, u, user, list.drop_last());
    }
}

/// Holdings are not worth less than nothing.
proof fn lemma_worth_not_negative(s: LendingState, user: Address, list: Seq<u32>)
    requires
        laws::prices_sound(s),
    ensures
        holdings_worth(s, user, list) >= 0,
    decreases list.len(),
{
    if list.len() > 0 {
        let asset = Address { id: list.last() };
        let balance = s.balance(user, asset);
        let price = price_of(s, asset);
        lemma_worth_not_negative(s, user, list.drop_last());
        assert(laws::priced(s, asset));
        assert(balance > 0 ==> balance * price >= 0) by (nonlinear_arith)
            requires
                price >= 0,
        ;
    }
}

/// A liquidation takes the whole debt from the liquidator and clears it. All that it seizes
/// together is worth no more than the debt and the bonus, and no more than the collateral. It
/// adds to no balance and leaves everybody else's positions alone.
pub proof fn law_liquidation_is_fair(
    s: LendingState,
    contract: Address,
    liquidator: Address,
    borrower: Address,
    other: Address,
    asset: Address,
)
    requires
        laws::balances_sound(s),
        laws::prices_sound(s),
        model::liquidate_step(s, contract, liquidator, borrower) is Ok,
    ensures
        ({
            let (t, out) = model::liquidate_step(s, contract, liquidator, borrower)->Ok_0;
            let debt = s.debt(borrower);
            let seized = worth(s, out.transfers.skip(1));
            &&& out.value == debt
            &&& out.transfers[0].amount == debt && out.transfers[0].from == liquidator
            &&& t.debt(borrower) == 0
            &&& t.health_factor(borrower) == Ok::<i128, LendingError>(i128::MAX)
            &&& 0 <= seized <= holdings_worth(s, borrower, s.asset_list)
            &&& seized * BPS_DENOMINATOR <= due(s, debt)
            &&& 0 <= t.balance(borrower, asset) <= s.balance(borrower, asset)
            &&& other != borrower ==> t.debt(other) == s.debt(other) && t.balance(other, asset)
                == s.balance(other, asset)
        }),
{
    let (t, out) = model::liquidate_step(s, contract, liquidator, borrower)->Ok_0;
    let u = model::cleared(s, borrower);
    let claim = s.claim(borrower)->Ok_0;
    let seized = worth(s, out.transfers.skip(1));
    let total = claim.total as int;
    let d = due(s, claim.debt);
    let b = BPS_DENOMINATOR as int;
    lemma_liquidation(s, contract, liquidator, borrower);
    lemma_worth_bounded(u, contract, liquidator, borrower, claim, s.asset_list);
    laws::lemma_seize_balances(u, borrower, claim, s.asset_list);
    assert(worth(u, out.transfers.skip(1)) == seized);
    assert(d >= 0) by (nonlinear_arith)
        requires
            claim.debt >= 0,
            s.liquidation_bonus_bps >= 0,
            d == claim.debt * RATE_PRECISION * (BPS_DENOMINATOR + s.liquidation_bonus_bps),
            RATE_PRECISION == 10_000_000,
            BPS_DENOMINATOR == 10_000,
    ;
    assert(seized * b <= d) by (nonlinear_arith)
        requires
            seized * total * b <= d * total,
            0 <= seized <= total,
            0 <= d,
            b > 0,
    ;
    assert(t.balance(borrower, asset) <= u.balance(borrower, asset));
    assert(other != borrower ==> t.balance(other, asset) == u.balance(other, asset));
}

/// A liquidation takes of every asset that the borrower holds its part of the units that pay
/// for the debt and the bonus: the part that the holding is of all collateral, and no more than
/// there is. Nothing else of theirs is touched. This is said of a list without duplicates: a
/// disabled asset that was registered again is on the list twice.
pub proof fn law_liquidation_is_pro_rata(
    s: LendingState,
    contract: Address,
    liquidator: Address,
    borrower: Address,
    asset: Address,
)
    requires
        laws::balances_sound(s),
        laws::prices_sound(s),
        s.asset_list.no_duplicates(),
        model::liquidate_step(s, contract, liquidator, borrower) is Ok,
    ensures
        ({
            let t = model::liquidate_step(s, contract, liquidator, borrower)->Ok_0.0;
            let claim = s.claim(borrower)->Ok_0;
            &&& s.claim(borrower) is Ok
            &&& claim.debt == s.debt(borrower)
            &&& claim.total == holdings_worth(s, borrower, s.asset_list)
            &&& s.asset_list.contains(asset.id) ==> took_share(s, t, borrower, claim, asset)
            &&& !s.asset_list.contains(asset.id) ==> t.balance(borrower, asset) == s.balance(
                borrower,
                asset,
            )
        }),
{
    let t = model::liquidate_step(s, contract, liquidator, borrower)->Ok_0.0;
    let u = model::cleared(s, borrower);
    let claim = s.claim(borrower)->Ok_0;
    lemma_liquidation(s, contract, liquidator, borrower);
    lemma_shares_taken(u, borrower, claim, s.asset_list);
    assert(u.balance(borrower, asset) == s.balance(borrower, asset));
    assert(u.seizable(borrower, claim, asset) == s.seizable(borrower, claim, asset));
    assert(s.asset_list.contains(asset.id) ==> took_share(u, t, borrower, claim, asset));
    assert(!s.asset_list.contains(asset.id) ==> t.balance(borrower, asset) == u.balance(
        borrower,
        asset,
    ));
}

/// Holdings of one asset only are worth what that asset is worth.
proof fn lemma_only_holding(s: LendingState, user: Address, list: Seq<u32>, asset: Address)
    requires
        list.no_duplicates(),
        forall|i: int|
            0 <= i < list.len() && list[i] != asset.id ==> s.balance(
                user,
                Address { id: #[trigger] list[i] },
            ) <= 0,
    ensures
        holdings_worth(s, user, list) == (if list.contains(asset.id) {
            holding_worth(s, user, asset)
        } else {
            0
        }),
    decreases list.len(),
{
    if list.len() > 0 {
        let rest = list.drop_last();
        lemma_rest_apart(list);
        assert forall|i: int| 0 <= i < rest.len() && rest[i] != asset.id implies s.balance(
            user,
            Address { id: #[trigger] rest[i] },
        ) <= 0 by {
            assert(rest[i] == list[i]);
        }
        lemma_only_holding(s, user, rest, asset);
        assert(list[list.len() - 1] == list.last());
        if rest.contains(asset.id) {
            let i = rest.index_of(asset.id);
            assert(list[i] == asset.id);
        }
        if list.contains(asset.id) && asset.id != list.last() {
            let i = list.index_of(asset.id);
            assert(rest[i] == asset.id);
        }
    }
}

/// Of a borrower who holds one asset only, a liquidation takes the units that pay for the debt
/// and the bonus, and no more than there is.
pub proof fn law_liquidation_of_one_asset(
    s: LendingState,
    contract: Address,
    liquidator: Address,
    borrower: Address,
    asset: Address,
)
    requires
        laws::balances_sound(s),
        laws::prices_sound(s),
        s.asset_list.no_duplicates(),
        s.asset_list.contains(asset.id),
        s.balance(borrower, asset) > 0,
        forall|i: int|
            0 <= i < s.asset_list.len() && s.asset_list[i] != asset.id ==> s.balance(
                borrower,
                Address { id: #[trigger] s.asset_list[i] },
            ) <= 0,
        model::liquidate_step(s, contract, liquidator, borrower) is Ok,
    ensures
        ({
            let t = model::liquidate_step(s, contract, liquidator, borrower)->Ok_0.0;
            let price = s.asset_price(asset)->Some_0;
            let units = s.units_for(s.debt(borrower), price)->Some_0;
            &&& s.units_for(s.debt(borrower), price) is Some
            &&& t.balance(borrower, asset) == s.balance(borrower, asset) - smaller(
                units as int,
                s.balance(borrower, asset) as int,
            )
        }),
{
    let claim = s.claim(borrower)->Ok_0;
    let price = price_of(s, asset);
    let balance = s.balance(borrower, asset);
    law_liquidation_is_pro_rata(s, contract, liquidator, borrower, asset);
    lemma_only_holding(s, borrower, s.asset_list, asset);
    assert(laws::priced(s, asset));
    let units = s.units_for(claim.debt, price as i128)->Some_0;
    let total = claim.total as int;
    let owed = units * price;
    lemma_units_worth(s, claim.debt, price as i128);
    laws::lemma_share(balance, units, price as i128, claim.total);
    if units > 0 {
        assert(owed >= total <==> units >= balance) by (nonlinear_arith)
            requires
                owed == units * price,
                total == balance * price,
                price > 0,
        ;
        if owed < total {
            assert(balance * owed / total == units) by (nonlinear_arith)
                requires
                    owed == units * price,
                    total == balance * price,
                    total > 0,
            ;
        }
    }
}

/// A liquidator receives what the debt and the bonus are worth or, where the collateral is not
/// worth as much, all of it, but for the rounding: at most three units of each asset and the
/// bonus on one.
pub proof fn law_liquidation_pays_what_is_owed(
    s: LendingState,
    contract: Address,
    liquidator: Address,
    borrower: Address,
)
    requires
        laws::balances_sound(s),
        laws::prices_sound(s),
        s.asset_list.no_duplicates(),
        model::liquidate_step(s, contract, liquidator, borrower) is Ok,
    ensures
        ({
            let out = model::liquidate_step(s, contract, liquidator, borrower)->Ok_0.1;
            smaller(
                due(s, s.debt(borrower)),
                holdings_worth(s, borrower, s.asset_list) * BPS_DENOMINATOR,
            ) <= worth(s, out.transfers.skip(1)) * BPS_DENOMINATOR + held_prices(
                s,
                borrower,
                s.asset_list,
            ) * (3 * BPS_DENOMINATOR + s.liquidation_bonus_bps)
        }),
{
    let out = model::liquidate_step(s, contract, liquidator, borrower)->Ok_0.1;
    let u = model::cleared(s, borrower);
    let claim = s.claim(borrower)->Ok_0;
    let seized = worth(s, out.transfers.skip(1));
    let total = claim.total as int;
    let b = BPS_DENOMINATOR as int;
    let m = smaller(due(s, claim.debt), total * b);
    let prices = held_prices(s, borrower, s.asset_list);
    let slack = 3 * BPS_DENOMINATOR + s.liquidation_bonus_bps;
    lemma_liquidation(s, contract, liquidator, borrower);
    lemma_worth_bounded(u, contract, liquidator, borrower, claim, s.asset_list);
    lemma_worth_reaches(u, contract, liquidator, borrower, claim, s.asset_list);
    lemma_prices_not_negative(s, borrower, s.asset_list);
    assert(worth(u, out.transfers.skip(1)) == seized);
    if total > 0 {
        assert(m <= seized * b + prices * slack) by (nonlinear_arith)
            requires
                m * total <= (seized * b + prices * slack) * total,
                total > 0,
        ;
    } else {
        assert(0 <= seized * b + prices * slack) by (nonlinear_arith)
            requires
                seized >= 0,
                b > 0,
                prices >= 0,
                slack > 0,
        ;
    }
}

/// Prices do not add up to less than nothing.
proof fn lemma_prices_not_negative(s: LendingState, user: Address, list: Seq<u32>)
    requires
        laws::prices_sound(s),
        s.config is Some,
    ensures
        held_prices(s, user, list) >= 0,
    decreases list.len(),
{
    if list.len() > 0 {
        lemma_prices_not_negative(s, user, list.drop_last());
        assert(laws::priced(s, Address { id: list.last() }));
    }
}

/// Whether two markets differ only in which assets take deposits.
spec fn same_but_enabled(s: LendingState, t: LendingState) -> bool {
    &&& t == (LendingState { assets: t.assets, ..s })
    &&& forall|asset: Address|
        #![trigger t.asset(asset)]
        #![trigger s.asset(asset)]
        t.asset(asset) == (AssetConfig { enabled: t.asset(asset).enabled, ..s.asset(asset) })
}

/// Seizures are the same whichever assets take deposits.
proof fn lemma_seize_same(
    s: LendingState,
    t: LendingState,
    borrower: Address,
    claim: Claim,
    list: Seq<u32>,
)
    requires
        same_but_enabled(s, t),
    ensures
        match (s.seize(borrower, claim, list), t.seize(borrower, claim, list)) {
            (Ok((u, seized)), Ok((v, also_seized))) => same_but_enabled(u, v) && seized
                == also_seized,
            (Err(e), Err(f)) => e == f,
            _ => false,
        },
    decreases list.len(),
{
    if list.len() > 0 {
        let rest = list.drop_last();
        let asset = Address { id: list.last() };
        lemma_seize_same(s, t, borrower, claim, rest);
        if s.seize(borrower, claim, rest) is Ok {
            let u = s.seize(borrower, claim, rest)->Ok_0.0;
            let v = t.seize(borrower, claim, rest)->Ok_0.0;
            assert(v.asset(asset).price == u.asset(asset).price);
            assert(u.seizable(borrower, claim, asset) == v.seizable(borrower, claim, asset));
            if s.seize(borrower, claim, list) is Ok {
                let amount = u.seizable(borrower, claim, asset)->Ok_0;
                let u2 = u.after_seizure(borrower, asset, amount);
                let v2 = v.after_seizure(borrower, asset, amount);
                assert forall|other: Address|
                    #![trigger v2.asset(other)]
                    #![trigger u2.asset(other)]
                    v2.asset(other) == (AssetConfig {
                        enabled: v2.asset(other).enabled,
                        ..u2.asset(other)
                    }) by {
                    assert(v.asset(other).price == u.asset(other).price);
                }
            }
        }
    }
}

/// A disabled asset is liquidated as before.
pub proof fn law_disabled_asset_is_liquidated(
    s: LendingState,
    contract: Address,
    admin: Address,
    asset: Address,
    liquidator: Address,
    borrower: Address,
)
    requires
        model::disable_collateral_asset_step(s, admin, asset) is Ok,
    ensures
        ({
            let t = laws::settled(s, model::disable_collateral_asset_step(s, admin, asset));
            match (
                model::liquidate_step(s, contract, liquidator, borrower),
                model::liquidate_step(t, contract, liquidator, borrower),
            ) {
                (Ok((_, before)), Ok((_, after))) => after == before,
                (Err(e), Err(f)) => e == f,
                _ => false,
            }
        }),
{
    let t = laws::settled(s, model::disable_collateral_asset_step(s, admin, asset));
    let w = Weighing::LiquidationThreshold;
    assert forall|other: Address| #[trigger]
        s.weighted_value(borrower, other, w) == t.weighted_value(borrower, other, w) by {}
    lemma_weighted_sum_same(s, t, borrower, s.asset_list, w);
    let p = Weighing::Price;
    assert forall|other: Address| #[trigger]
        s.weighted_value(borrower, other, p) == t.weighted_value(borrower, other, p) by {}
    lemma_weighted_sum_same(s, t, borrower, s.asset_list, p);
    if s.claim(borrower) is Ok {
        let u = model::cleared(s, borrower);
        let v = model::cleared(t, borrower);
        assert(same_but_enabled(u, v));
        lemma_seize_same(u, v, borrower, s.claim(borrower)->Ok_0, s.asset_list);
    }
}

// ---------------------------------------------------------------------------
// Health
// ---------------------------------------------------------------------------

/// Whether a change of the market from `s` to `t` takes nothing from the health of `user`: the
/// debt is the same, and no balance, no price and not the threshold is lower.
spec fn no_worse(s: LendingState, t: LendingState, user: Address) -> bool {
    &&& t.config == s.config
    &&& t.asset_list == s.asset_list
    &&& t.debt(user) == s.debt(user)
    &&& s.liquidation_threshold_bps <= t.liquidation_threshold_bps
    &&& s.exchange_rate <= t.exchange_rate
    &&& forall|asset: Address|
        #![trigger t.asset(asset)]
        s.asset(asset).price <= t.asset(asset).price
    &&& forall|asset: Address|
        #![trigger t.balance(user, asset)]
        s.balance(user, asset) <= t.balance(user, asset)
}

/// Health does not fall where nothing is worse.
proof fn lemma_health_kept(s: LendingState, t: LendingState, user: Address)
    requires
        laws::debts_sound(s),
        laws::prices_sound(s),
        no_worse(s, t, user),
        s.health_factor(user) is Ok,
        t.health_factor(user) is Ok,
    ensures
        t.health_factor(user)->Ok_0 >= s.health_factor(user)->Ok_0,
{
    let w = Weighing::LiquidationThreshold;
    laws::lemma_debt(s, user);
    if s.debt(user) > 0 {
        let list = s.asset_list;
        assert forall|i: int|
            #![trigger list[i]]
            0 <= i < list.len() implies ({
                let a = Address { id: list[i] };
                s.weighted_value(user, a, w) is Ok && t.weighted_value(user, a, w) is Ok
                    ==> s.weighted_value(user, a, w)->Ok_0 <= t.weighted_value(user, a, w)->Ok_0
            }) by {
            let a = Address { id: list[i] };
            assert(laws::priced(s, a));
            let balance = s.balance(user, a);
            let higher = t.balance(user, a);
            assert(s.asset(a).price <= t.asset(a).price);
            if s.weighted_value(user, a, w) is Ok && t.weighted_value(user, a, w) is Ok && higher
                > 0 {
                let price = t.asset_price(a)->Some_0;
                let factor = t.liquidation_threshold_bps;
                if balance > 0 {
                    lemma_value_grows(
                        balance,
                        s.asset_price(a)->Some_0,
                        s.liquidation_threshold_bps,
                        higher,
                        price,
                        factor,
                    );
                } else {
                    lemma_value_grows(higher, price, factor, higher, price, factor);
                }
            }
        }
        lemma_weighted_sum_le(s, w, t, w, user, list);
        let x = s.weighted_collateral(user, w)->Ok_0;
        let y = t.weighted_collateral(user, w)->Ok_0;
        lemma_health_grows(x, y, s.debt(user));
    }
}

/// A higher price of one asset lowers nobody's health.
pub proof fn law_higher_price_keeps_health(
    s: LendingState,
    admin: Address,
    asset: Address,
    price: i128,
    user: Address,
)
    requires
        laws::debts_sound(s),
        laws::prices_sound(s),
        model::update_asset_price_step(s, admin, asset, price) is Ok,
        price >= s.asset(asset).price,
        s.health_factor(user) is Ok,
    ensures
        ({
            let t = laws::settled(s, model::update_asset_price_step(s, admin, asset, price));
            t.health_factor(user) matches Ok(hf) ==> hf >= s.health_factor(user)->Ok_0
        }),
{
    let t = laws::settled(s, model::update_asset_price_step(s, admin, asset, price));
    if t.health_factor(user) is Ok {
        lemma_health_kept(s, t, user);
    }
}

/// A higher exchange rate lowers nobody's health.
pub proof fn law_higher_rate_keeps_health(s: LendingState, rate: i128, user: Address)
    requires
        laws::debts_sound(s),
        laws::prices_sound(s),
        model::update_exchange_rate_step(s, rate) is Ok,
        rate >= s.exchange_rate,
        s.health_factor(user) is Ok,
    ensures
        ({
            let t = laws::settled(s, model::update_exchange_rate_step(s, rate));
            t.health_factor(user) matches Ok(hf) ==> hf >= s.health_factor(user)->Ok_0
        }),
{
    let t = laws::settled(s, model::update_exchange_rate_step(s, rate));
    if t.health_factor(user) is Ok {
        lemma_health_kept(s, t, user);
    }
}

/// A higher liquidation threshold lowers nobody's health.
pub proof fn law_higher_threshold_keeps_health(s: LendingState, new_lt_bps: u32, user: Address)
    requires
        laws::debts_sound(s),
        laws::prices_sound(s),
        model::update_liquidation_threshold_step(s, new_lt_bps) is Ok,
        new_lt_bps >= s.liquidation_threshold_bps,
        s.health_factor(user) is Ok,
    ensures
        ({
            let t = laws::settled(s, model::update_liquidation_threshold_step(s, new_lt_bps));
            t.health_factor(user) matches Ok(hf) ==> hf >= s.health_factor(user)->Ok_0
        }),
{
    let t = laws::settled(s, model::update_liquidation_threshold_step(s, new_lt_bps));
    if t.health_factor(user) is Ok {
        lemma_health_kept(s, t, user);
    }
}

/// A deposit lowers nobody's health.
pub proof fn law_deposit_keeps_health(
    s: LendingState,
    contract: Address,
    depositor: Address,
    asset: Address,
    amount: i128,
    user: Address,
)
    requires
        laws::debts_sound(s),
        laws::prices_sound(s),
        model::deposit_collateral_step(s, contract, depositor, asset, amount) is Ok,
        s.health_factor(user) is Ok,
    ensures
        ({
            let t = laws::settled(
                s,
                model::deposit_collateral_step(s, contract, depositor, asset, amount),
            );
            t.health_factor(user) matches Ok(hf) ==> hf >= s.health_factor(user)->Ok_0
        }),
{
    let t = laws::settled(
        s,
        model::deposit_collateral_step(s, contract, depositor, asset, amount),
    );
    if t.health_factor(user) is Ok {
        assert forall|other: Address|
            #![trigger t.balance(user, other)]
            s.balance(user, other) <= t.balance(user, other) by {
            model::lemma_position_key_injective(depositor, asset, user, other);
        }
        lemma_health_kept(s, t, user);
    }
}

/// Collateral factors have no influence on health.
pub proof fn law_factors_spare_health(
    s: LendingState,
    admin: Address,
    asset: Address,
    new_cf_bps: u32,
    user: Address,
)
    ensures
        laws::settled(
            s,
            model::update_asset_cf_step(s, admin, asset, new_cf_bps),
        ).health_factor(user) == s.health_factor(user),
        laws::settled(s, model::update_collateral_factor_step(s, new_cf_bps)).health_factor(user)
            == s.health_factor(user),
{
    let w = Weighing::LiquidationThreshold;
    let t = laws::settled(s, model::update_asset_cf_step(s, admin, asset, new_cf_bps));
    assert forall|other: Address| #[trigger]
        s.weighted_value(user, other, w) == t.weighted_value(user, other, w) by {}
    lemma_weighted_sum_same(s, t, user, s.asset_list, w);
    let u = laws::settled(s, model::update_collateral_factor_step(s, new_cf_bps));
    assert forall|other: Address| #[trigger]
        s.weighted_value(user, other, w) == u.weighted_value(user, other, w) by {}
    lemma_weighted_sum_same(s, u, user, s.asset_list, w);
}

/// Health grows with the weighed collateral.
proof fn lemma_health_grows(x: i128, y: i128, debt: i128)
    requires
        x <= y,
        debt > 0,
        mul_div(x, RATE_PRECISION, debt) is Some,
        mul_div(y, RATE_PRECISION, debt) is Some,
    ensures
        mul_div(x, RATE_PRECISION, debt)->Some_0 <= mul_div(y, RATE_PRECISION, debt)->Some_0,
{
    let a = x * RATE_PRECISION;
    let b = y * RATE_PRECISION;
    let d = debt as int;
    assert(a <= b);
    assert(arith::quot(a, d) <= arith::quot(b, d)) by {
        if a >= 0 {
            assert(a / d <= b / d) by (nonlinear_arith)
                requires
                    0 <= a <= b,
                    d > 0,
            ;
        } else if b < 0 {
            assert((-b) / d <= (-a) / d) by (nonlinear_arith)
                requires
                    0 <= -b <= -a,
                    d > 0,
            ;
        } else {
            assert((-a) / d >= 0) by (nonlinear_arith)
                requires
                    -a >= 0,
                    d > 0,
            ;
            assert(b / d >= 0) by (nonlinear_arith)
                requires
                    b >= 0,
                    d > 0,
            ;
        }
    }
}

} // verus!
