//! What each call of the market takes, pays and leaves behind.

use vstd::prelude::*;
use crate::arith;
use crate::host::{Address, Transfer};
use crate::sums;
use super::laws;
use super::laws::LendingCall;
use super::model;
use super::model::{
    AssetConfig, Claim, LendingConfig, LendingError, LendingEvent, LendingState, Seizure, Weighing,
};
use super::position_laws;

verus! {

// ---------------------------------------------------------------------------
// Reading the market
// ---------------------------------------------------------------------------

/// The number under which the collateral of `user` in `asset` is kept.
pub open spec fn slot(user: Address, asset: Address) -> u64 {
    (user.id * 4_294_967_296 + asset.id) as u64
}

/// The collateral of `user` in `asset`.
pub open spec fn held(s: LendingState, user: Address, asset: Address) -> int {
    if s.balances.contains_key(slot(user, asset)) {
        s.balances[slot(user, asset)] as int
    } else {
        0
    }
}

/// What `user` owes.
pub open spec fn owes(s: LendingState, user: Address) -> int {
    if s.debts.contains_key(user.id) {
        s.debts[user.id] as int
    } else {
        0
    }
}

/// The price of `asset` in XLM, scaled by `10^7`: the exchange rate for sXLM, for others the
/// price that was set, and one where none was.
pub open spec fn quoted(s: LendingState, asset: Address) -> int {
    if s.config is Some && s.config->Some_0.sxlm_token == asset {
        s.exchange_rate as int
    } else if s.assets.contains_key(asset.id) {
        s.assets[asset.id].price as int
    } else {
        10_000_000
    }
}

/// The collateral factor of `asset` in basis points: 7000 where none was set.
pub open spec fn loan_factor(s: LendingState, asset: Address) -> int {
    if s.assets.contains_key(asset.id) {
        s.assets[asset.id].cf_bps as int
    } else {
        7_000
    }
}

/// The collateral of all users in `asset`.
pub open spec fn held_by_all(s: LendingState, asset: Address) -> int {
    if s.assets.contains_key(asset.id) {
        s.assets[asset.id].total_collateral as int
    } else {
        0
    }
}

/// Whether `asset` takes deposits.
pub open spec fn takes_deposits(s: LendingState, asset: Address) -> bool {
    s.assets.contains_key(asset.id) && s.assets[asset.id].enabled
}

/// What is read of positions, debts and assets is what is kept, and positions do not share a
/// slot.
pub proof fn law_positions_are_read_as_kept(
    s: LendingState,
    user: Address,
    asset: Address,
    other: Address,
    other_asset: Address,
)
    ensures
        s.balance(user, asset) == held(s, user, asset),
        s.debt(user) == owes(s, user),
        s.asset(asset).cf_bps == loan_factor(s, asset),
        s.asset(asset).total_collateral == held_by_all(s, asset),
        s.asset(asset).enabled == takes_deposits(s, asset),
        s.asset_price(asset) == (if s.config is Some {
            Some(quoted(s, asset) as i128)
        } else {
            None
        }),
        slot(user, asset) == slot(other, other_asset) ==> user == other && asset == other_asset,
{
}

/// The holdings that are reported of a user are the listed assets of which they hold something,
/// in the order of the list, each with the balance.
pub proof fn law_full_position(s: LendingState, user: Address, list: Seq<u32>)
    ensures
        s.holdings(user, list) == list.filter(|id: u32| held(s, user, Address { id }) > 0).map_values(
            |id: u32| (id, held(s, user, Address { id }) as i128),
        ),
    decreases list.len(),
{
    let f = |id: u32| held(s, user, Address { id }) > 0;
    let g = |id: u32| (id, held(s, user, Address { id }) as i128);
    reveal(Seq::filter);
    if list.len() > 0 {
        law_full_position(s, user, list.drop_last());
        let rest = list.drop_last().filter(f);
        assert(rest.push(list.last()).map_values(g) =~= rest.map_values(g).push(g(list.last())));
    } else {
        assert(s.holdings(user, list) =~= list.filter(f).map_values(g));
    }
}

/// Whether no collateral factor is negative.
pub open spec fn factors_sound(s: LendingState) -> bool {
    forall|id: u32| #[trigger] s.assets.contains_key(id) ==> s.assets[id].cf_bps >= 0
}

/// No collateral factor is negative after any calls.
pub proof fn law_factors_always_sound(contract: Address, calls: Seq<LendingCall>)
    ensures
        factors_sound(laws::after_calls(contract, calls)),
    decreases calls.len(),
{
    if calls.len() > 0 {
        let rest = calls.drop_last();
        let s = laws::after_calls(contract, rest);
        let t = laws::after_calls(contract, calls);
        law_factors_always_sound(contract, rest);
        match calls.last() {
            LendingCall::Liquidate { liquidator, borrower } => {
                if model::liquidate_step(s, contract, liquidator, borrower) is Ok {
                    laws::lemma_liquidated(s, contract, liquidator, borrower);
                    assert forall|id: u32| #[trigger] t.assets.contains_key(id) implies t.assets[id].cf_bps
                        >= 0 by {
                        let asset = Address { id };
                        assert(t.asset(asset).cf_bps == s.asset(asset).cf_bps);
                    }
                }
            },
            _ => {},
        }
    }
}

// ---------------------------------------------------------------------------
// The worth of collateral
// ---------------------------------------------------------------------------

/// Whether `value` is what a balance at a price counts for at a factor in basis points: the
/// product without the scales of price and factor, rounded down. What is not there counts for
/// nothing.
pub open spec fn counts_for(balance: int, price: int, factor: int, value: int) -> bool {
    if balance <= 0 {
        value == 0
    } else {
        value * 100_000_000_000 <= balance * price * factor < (value + 1) * 100_000_000_000
    }
}

/// Whether `values` are what the holdings of `user` in the assets of `list` count for towards
/// loans: at their collateral factors.
pub open spec fn count_for_loans(
    s: LendingState,
    user: Address,
    list: Seq<u32>,
    values: Seq<int>,
) -> bool {
    &&& values.len() == list.len()
    &&& forall|i: int|
        #![trigger values[i]]
        0 <= i < list.len() ==> {
            let asset = Address { id: list[i] };
            counts_for(held(s, user, asset), quoted(s, asset), loan_factor(s, asset), values[i])
        }
}

/// Whether `values` are what the holdings of `user` in the assets of `list` count for towards
/// health: at the liquidation threshold.
pub open spec fn count_for_health(
    s: LendingState,
    user: Address,
    list: Seq<u32>,
    values: Seq<int>,
) -> bool {
    &&& values.len() == list.len()
    &&& forall|i: int|
        #![trigger values[i]]
        0 <= i < list.len() ==> {
            let asset = Address { id: list[i] };
            counts_for(
                held(s, user, asset),
                quoted(s, asset),
                s.liquidation_threshold_bps as int,
                values[i],
            )
        }
}

/// Whether `values` are what the holdings of `user` in the assets of `list` are worth: balance
/// times price.
pub open spec fn are_worth(s: LendingState, user: Address, list: Seq<u32>, values: Seq<int>) -> bool {
    &&& values.len() == list.len()
    &&& forall|i: int|
        #![trigger values[i]]
        0 <= i < list.len() ==> {
            let asset = Address { id: list[i] };
            values[i] == (if held(s, user, asset) > 0 {
                held(s, user, asset) * quoted(s, asset)
            } else {
                0
            })
        }
}

/// Whether the products that the worth of a holding is computed with fit.
pub open spec fn product_fits(balance: int, price: int, factor: int) -> bool {
    balance > 0 ==> balance * price <= i128::MAX && balance * price * factor <= i128::MAX
}

/// Whether these products fit for all assets of `list`, at their collateral factors.
pub open spec fn loan_products_fit(s: LendingState, user: Address, list: Seq<u32>) -> bool {
    forall|i: int|
        0 <= i < list.len() ==> product_fits(
            held(s, user, Address { id: #[trigger] list[i] }),
            quoted(s, Address { id: list[i] }),
            loan_factor(s, Address { id: list[i] }),
        )
}

/// Whether these products fit for all assets of `list`, at the liquidation threshold.
pub open spec fn health_products_fit(s: LendingState, user: Address, list: Seq<u32>) -> bool {
    forall|i: int|
        0 <= i < list.len() ==> product_fits(
            held(s, user, Address { id: #[trigger] list[i] }),
            quoted(s, Address { id: list[i] }),
            s.liquidation_threshold_bps as int,
        )
}

/// What one holding counts for.
proof fn lemma_value(
    s: LendingState,
    user: Address,
    asset: Address,
    weighing: Weighing,
    factor: int,
    value: int,
)
    requires
        laws::prices_sound(s),
        s.config is Some,
        weighing != Weighing::Price,
        factor == s.factor(asset, weighing),
        factor >= 0,
        counts_for(held(s, user, asset), quoted(s, asset), factor, value),
    ensures
        value >= 0,
        match s.weighted_value(user, asset, weighing) {
            Ok(v) => v == value,
            Err(e) => e == LendingError::Arithmetic && !product_fits(
                held(s, user, asset),
                quoted(s, asset),
                factor,
            ),
        },
{
    let b = held(s, user, asset);
    let p = quoted(s, asset);
    assert(laws::priced(s, asset));
    if b > 0 {
        assert(b * p >= 0) by (nonlinear_arith)
            requires
                b > 0,
                p > 0,
        ;
        let bp = b * p;
        assert(bp * factor >= 0) by (nonlinear_arith)
            requires
                bp >= 0,
                factor >= 0,
        ;
        if bp <= i128::MAX && bp * factor <= i128::MAX {
            arith::lemma_mul_div_is(bp as i128, factor as i128, 100_000_000_000, value);
        }
    }
}

/// What holdings count for towards loans adds up, unless a number does not fit.
proof fn lemma_loan_values(s: LendingState, user: Address, list: Seq<u32>, values: Seq<int>)
    requires
        laws::prices_sound(s),
        factors_sound(s),
        s.config is Some,
        count_for_loans(s, user, list, values),
    ensures
        sums::sum(values) >= 0,
        match s.weighted_sum(user, list, Weighing::CollateralFactor) {
            Ok(v) => v == sums::sum(values),
            Err(e) => e == LendingError::Arithmetic && (sums::sum(values) > i128::MAX
                || !loan_products_fit(s, user, list)),
        },
    decreases list.len(),
{
    if list.len() > 0 {
        let n = list.len() - 1;
        let rest = list.drop_last();
        let before = values.drop_last();
        let asset = Address { id: list[n] };
        assert forall|i: int|
            #![trigger before[i]]
            0 <= i < rest.len() implies {
            let a = Address { id: rest[i] };
            counts_for(held(s, user, a), quoted(s, a), loan_factor(s, a), before[i])
        } by {
            assert(before[i] == values[i]);
        }
        lemma_loan_values(s, user, rest, before);
        assert(counts_for(held(s, user, asset), quoted(s, asset), loan_factor(s, asset), values[n]));
        lemma_value(
            s,
            user,
            asset,
            Weighing::CollateralFactor,
            loan_factor(s, asset),
            values[n],
        );
        if loan_products_fit(s, user, list) {
            assert forall|i: int| 0 <= i < rest.len() implies product_fits(
                held(s, user, Address { id: #[trigger] rest[i] }),
                quoted(s, Address { id: rest[i] }),
                loan_factor(s, Address { id: rest[i] }),
            ) by {
                assert(rest[i] == list[i]);
            }
            assert(list[n] == asset.id);
        }
    }
}

/// What holdings count for towards health adds up, unless a number does not fit.
proof fn lemma_health_values(s: LendingState, user: Address, list: Seq<u32>, values: Seq<int>)
    requires
        laws::prices_sound(s),
        s.config is Some,
        count_for_health(s, user, list, values),
    ensures
        sums::sum(values) >= 0,
        match s.weighted_sum(user, list, Weighing::LiquidationThreshold) {
            Ok(v) => v == sums::sum(values),
            Err(e) => e == LendingError::Arithmetic && (sums::sum(values) > i128::MAX
                || !health_products_fit(s, user, list)),
        },
    decreases list.len(),
{
    if list.len() > 0 {
        let n = list.len() - 1;
        let rest = list.drop_last();
        let before = values.drop_last();
        let asset = Address { id: list[n] };
        let factor = s.liquidation_threshold_bps as int;
        assert forall|i: int|
            #![trigger before[i]]
            0 <= i < rest.len() implies {
            let a = Address { id: rest[i] };
            counts_for(held(s, user, a), quoted(s, a), factor, before[i])
        } by {
            assert(before[i] == values[i]);
        }
        lemma_health_values(s, user, rest, before);
        assert(counts_for(held(s, user, asset), quoted(s, asset), factor, values[n]));
        lemma_value(s, user, asset, Weighing::LiquidationThreshold, factor, values[n]);
        if health_products_fit(s, user, list) {
            assert forall|i: int| 0 <= i < rest.len() implies product_fits(
                held(s, user, Address { id: #[trigger] rest[i] }),
                quoted(s, Address { id: rest[i] }),
                factor,
            ) by {
                assert(rest[i] == list[i]);
            }
            assert(list[n] == asset.id);
        }
    }
}

/// What the holdings of a user count for at the collateral factors is the sum, over the listed
/// assets, of balance times price times collateral factor, each without its scales and rounded
/// down. It is not reported only where a number does not fit.
pub proof fn law_collateral_counts_for_loans(s: LendingState, user: Address, values: Seq<int>)
    requires
        laws::prices_sound(s),
        factors_sound(s),
        s.config is Some,
        count_for_loans(s, user, s.asset_list, values),
    ensures
        match s.weighted_collateral(user, Weighing::CollateralFactor) {
            Ok(value) => value == sums::sum(values),
            Err(e) => e == LendingError::Arithmetic && (sums::sum(values) > i128::MAX
                || !loan_products_fit(s, user, s.asset_list)),
        },
{
    lemma_loan_values(s, user, s.asset_list, values);
}

/// What the holdings of a user count for at the liquidation threshold is the sum, over the listed
/// assets, of balance times price times threshold, each without its scales and rounded down. It
/// is not reported only where a number does not fit.
pub proof fn law_collateral_counts_for_health(s: LendingState, user: Address, values: Seq<int>)
    requires
        laws::prices_sound(s),
        s.config is Some,
        count_for_health(s, user, s.asset_list, values),
    ensures
        match s.weighted_collateral(user, Weighing::LiquidationThreshold) {
            Ok(value) => value == sums::sum(values),
            Err(e) => e == LendingError::Arithmetic && (sums::sum(values) > i128::MAX
                || !health_products_fit(s, user, s.asset_list)),
        },
{
    lemma_health_values(s, user, s.asset_list, values);
}

/// A user may still borrow what their collateral counts for at the collateral factors, less what
/// they owe.
pub proof fn law_borrow_limit(s: LendingState, user: Address, values: Seq<int>)
    requires
        laws::prices_sound(s),
        factors_sound(s),
        s.config is Some,
        owes(s, user) >= 0,
        count_for_loans(s, user, s.asset_list, values),
    ensures
        match s.max_borrow_amount(user) {
            Ok(limit) => limit == (if sums::sum(values) > owes(s, user) {
                sums::sum(values) - owes(s, user)
            } else {
                0
            }),
            Err(e) => e == LendingError::Arithmetic && (sums::sum(values) > i128::MAX
                || !loan_products_fit(s, user, s.asset_list)),
        },
{
    lemma_loan_values(s, user, s.asset_list, values);
}

/// The health factor of a debtor is what their collateral counts for at the liquidation threshold
/// over what they owe, scaled by `10^7` and rounded down. Whoever owes nothing has the largest
/// one, whatever they hold.
pub proof fn law_health_factor(s: LendingState, user: Address, values: Seq<int>)
    requires
        laws::prices_sound(s),
        s.config is Some,
        owes(s, user) >= 0,
        count_for_health(s, user, s.asset_list, values),
    ensures
        match s.health_factor(user) {
            Ok(health) => if owes(s, user) == 0 {
                health == i128::MAX
            } else {
                &&& health * owes(s, user) <= sums::sum(values) * 10_000_000
                &&& sums::sum(values) * 10_000_000 < (health + 1) * owes(s, user)
            },
            Err(e) => {
                &&& e == LendingError::Arithmetic && owes(s, user) > 0
                &&& sums::sum(values) * 10_000_000 > i128::MAX || !health_products_fit(
                    s,
                    user,
                    s.asset_list,
                )
            },
        },
{
    lemma_health_values(s, user, s.asset_list, values);
    if s.weighted_collateral(user, Weighing::LiquidationThreshold) is Ok && owes(s, user) > 0 {
        let w = s.weighted_collateral(user, Weighing::LiquidationThreshold)->Ok_0;
        let d = s.debt(user);
        if w * 10_000_000 <= i128::MAX {
            let p = w * 10_000_000;
            let q = p / d as int;
            assert(q * d <= p < (q + 1) * d) by (nonlinear_arith)
                requires
                    p >= 0,
                    d > 0,
                    q == p / d as int,
            ;
            arith::lemma_mul_div_is(w, 10_000_000, d, q);
        }
    }
}

// ---------------------------------------------------------------------------
// Collateral
// ---------------------------------------------------------------------------

/// What is kept of `asset`; an asset that nobody registered takes no deposits.
pub open spec fn record(s: LendingState, asset: Address) -> AssetConfig {
    if s.assets.contains_key(asset.id) {
        s.assets[asset.id]
    } else {
        AssetConfig { enabled: false, cf_bps: 7_000, price: 10_000_000, total_collateral: 0 }
    }
}

/// The market in which `user` holds `balance` of `asset` and all users together `total`, and which
/// is else `s`.
pub open spec fn with_holding(
    s: LendingState,
    user: Address,
    asset: Address,
    balance: int,
    total: int,
) -> LendingState {
    LendingState {
        balances: s.balances.insert(slot(user, asset), balance as i128),
        assets: s.assets.insert(
            asset.id,
            AssetConfig { total_collateral: total as i128, ..record(s, asset) },
        ),
        ..s
    }
}

/// A deposit of a positive amount is accepted exactly if the asset takes deposits and the new
/// balance and total fit. It is taken from the user and added to what they, and all users
/// together, hold of the asset. Nothing else changes.
pub proof fn law_deposit_adds_to_the_holding(
    s: LendingState,
    contract: Address,
    user: Address,
    asset: Address,
    amount: i128,
)
    ensures
        match model::deposit_collateral_step(s, contract, user, asset, amount) {
            Ok((t, out)) => {
                &&& amount > 0 && takes_deposits(s, asset)
                &&& held(s, user, asset) + amount <= i128::MAX
                &&& held_by_all(s, asset) + amount <= i128::MAX
                &&& t == with_holding(
                    s,
                    user,
                    asset,
                    held(s, user, asset) + amount,
                    held_by_all(s, asset) + amount,
                )
                &&& out.auth == Some(user)
                &&& out.transfers == seq![
                    Transfer { token: asset, from: user, to: contract, amount },
                ]
                &&& out.events == seq![LendingEvent::Deposited { user, asset, amount }]
            },
            Err(e) => if amount <= 0 {
                e == LendingError::AmountNotPositive
            } else if !takes_deposits(s, asset) {
                e == LendingError::AssetNotEnabled
            } else {
                &&& e == LendingError::Arithmetic
                &&& held(s, user, asset) + amount > i128::MAX || held_by_all(s, asset) + amount
                    > i128::MAX
            },
        },
{
}

/// A health factor is at least one exactly if the collateral counts for at least the debt.
proof fn lemma_healthy(health: int, weighted: int, debt: int)
    requires
        debt > 0,
        health * debt <= weighted * 10_000_000 < (health + 1) * debt,
    ensures
        health >= 10_000_000 <==> weighted >= debt,
{
    assert(weighted >= debt ==> health >= 10_000_000) by (nonlinear_arith)
        requires
            debt > 0,
            weighted * 10_000_000 < (health + 1) * debt,
    ;
    assert(health >= 10_000_000 ==> weighted >= debt) by (nonlinear_arith)
        requires
            debt > 0,
            health * debt <= weighted * 10_000_000,
    ;
}

/// A withdrawal of a positive amount that the user holds is accepted exactly if they owe nothing,
/// or what they keep counts for at least what they owe at the liquidation threshold. It is paid
/// to the user and taken off what they, and all users together, hold of the asset. Nothing else
/// changes. Besides, only a number that does not fit stops it.
pub proof fn law_withdrawal_keeps_the_debt_covered(
    s: LendingState,
    contract: Address,
    user: Address,
    asset: Address,
    amount: i128,
    values: Seq<int>,
)
    requires
        laws::prices_sound(s),
        s.config is Some,
        owes(s, user) >= 0,
        held_by_all(s, asset) >= 0,
        count_for_health(
            with_holding(
                s,
                user,
                asset,
                held(s, user, asset) - amount,
                held_by_all(s, asset) - amount,
            ),
            user,
            s.asset_list,
            values,
        ),
    ensures
        match model::withdraw_collateral_step(s, contract, user, asset, amount) {
            Ok((t, out)) => {
                &&& 0 < amount <= held(s, user, asset)
                &&& owes(s, user) == 0 || sums::sum(values) >= owes(s, user)
                &&& t == with_holding(
                    s,
                    user,
                    asset,
                    held(s, user, asset) - amount,
                    held_by_all(s, asset) - amount,
                )
                &&& out.auth == Some(user)
                &&& out.transfers == seq![
                    Transfer { token: asset, from: contract, to: user, amount },
                ]
                &&& out.events == seq![LendingEvent::Withdrawn { user, asset, amount }]
            },
            Err(e) => if amount <= 0 {
                e == LendingError::AmountNotPositive
            } else if held(s, user, asset) < amount {
                e == LendingError::InsufficientCollateral
            } else {
                ||| e == LendingError::WithdrawalUnhealthy && 0 <= sums::sum(values) < owes(s, user)
                ||| {
                    &&& e == LendingError::Arithmetic && owes(s, user) > 0
                    &&& sums::sum(values) * 10_000_000 > i128::MAX || !health_products_fit(
                        with_holding(
                            s,
                            user,
                            asset,
                            held(s, user, asset) - amount,
                            held_by_all(s, asset) - amount,
                        ),
                        user,
                        s.asset_list,
                    )
                }
            },
        },
{
    if 0 < amount <= held(s, user, asset) {
        let kept = s.with_balance(user, asset, (s.balance(user, asset) - amount) as i128);
        let t = with_holding(
            s,
            user,
            asset,
            held(s, user, asset) - amount,
            held_by_all(s, asset) - amount,
        );
        assert(kept.with_total_collateral(asset, t.asset(asset).total_collateral) == t);
        assert forall|a: Address| #[trigger] laws::priced(t, a) by {
            assert(laws::priced(s, a));
        }
        assert forall|a: Address| #[trigger]
            kept.weighted_value(user, a, Weighing::LiquidationThreshold) == t.weighted_value(
                user,
                a,
                Weighing::LiquidationThreshold,
            ) by {
            assert(kept.asset(a).price == t.asset(a).price);
        }
        position_laws::lemma_weighted_sum_same(
            kept,
            t,
            user,
            s.asset_list,
            Weighing::LiquidationThreshold,
        );
        assert(kept.health_factor(user) == t.health_factor(user));
        law_health_factor(t, user, values);
        lemma_health_values(t, user, s.asset_list, values);
        if t.health_factor(user) is Ok && owes(s, user) > 0 {
            lemma_healthy(
                t.health_factor(user)->Ok_0 as int,
                sums::sum(values),
                owes(s, user),
            );
        }
    }
}

// ---------------------------------------------------------------------------
// Debts
// ---------------------------------------------------------------------------

/// The market in which `user` owes `debt` and all users together `total`, and which is else `s`.
pub open spec fn with_owing(s: LendingState, user: Address, debt: int, total: int) -> LendingState {
    LendingState {
        debts: s.debts.insert(user.id, debt as i128),
        total_borrowed: total as i128,
        ..s
    }
}

/// A loan of a positive amount is accepted exactly if what the user then owes is no more than
/// their collateral counts for at the collateral factors, and the market has the XLM. It is paid
/// to the user and added to what they, and all users together, owe. Nothing else changes.
/// Besides, only a number that does not fit stops it.
pub proof fn law_loan_is_covered_by_collateral(
    s: LendingState,
    contract: Address,
    user: Address,
    xlm_amount: i128,
    pool_balance: i128,
    values: Seq<int>,
)
    requires
        laws::prices_sound(s),
        factors_sound(s),
        s.config is Some,
        owes(s, user) >= 0,
        count_for_loans(s, user, s.asset_list, values),
    ensures
        match model::borrow_step(s, contract, user, xlm_amount, pool_balance) {
            Ok((t, out)) => {
                &&& 0 < xlm_amount <= pool_balance
                &&& owes(s, user) + xlm_amount <= sums::sum(values)
                &&& t == with_owing(
                    s,
                    user,
                    owes(s, user) + xlm_amount,
                    s.total_borrowed + xlm_amount,
                )
                &&& s.total_borrowed + xlm_amount <= i128::MAX
                &&& out.auth == Some(user)
                &&& out.transfers == seq![
                    Transfer {
                        token: s.config->Some_0.native_token,
                        from: contract,
                        to: user,
                        amount: xlm_amount,
                    },
                ]
                &&& out.events == seq![LendingEvent::Borrowed { user, amount: xlm_amount }]
            },
            Err(e) => if xlm_amount <= 0 {
                e == LendingError::AmountNotPositive
            } else {
                ||| e == LendingError::BorrowExceedsLimit && owes(s, user) + xlm_amount
                    > sums::sum(values)
                ||| {
                    &&& e == LendingError::InsufficientPoolLiquidity
                    &&& pool_balance < xlm_amount
                    &&& owes(s, user) + xlm_amount <= sums::sum(values)
                }
                ||| {
                    &&& e == LendingError::Arithmetic
                    &&& {
                        ||| owes(s, user) + xlm_amount > i128::MAX
                        ||| s.total_borrowed + xlm_amount > i128::MAX
                        ||| sums::sum(values) > i128::MAX
                        ||| !loan_products_fit(s, user, s.asset_list)
                    }
                }
            },
        },
{
    lemma_loan_values(s, user, s.asset_list, values);
}

/// Every repayment of a positive amount in an initialized market is accepted, whatever the health
/// of the user and whatever they hold. What is asked, and no more than the debt, is taken from
/// them and taken off what they, and all users together, owe. Nothing else changes.
pub proof fn law_every_repayment_is_accepted(
    s: LendingState,
    contract: Address,
    user: Address,
    xlm_amount: i128,
)
    requires
        laws::debts_sound(s),
    ensures
        match model::repay_step(s, contract, user, xlm_amount) {
            Ok((t, out)) => {
                let taken = if xlm_amount < owes(s, user) {
                    xlm_amount as int
                } else {
                    owes(s, user)
                };
                &&& s.config is Some && xlm_amount > 0
                &&& t == with_owing(s, user, owes(s, user) - taken, s.total_borrowed - taken)
                &&& out.auth == Some(user)
                &&& out.transfers == seq![
                    Transfer {
                        token: s.config->Some_0.native_token,
                        from: user,
                        to: contract,
                        amount: taken as i128,
                    },
                ]
                &&& out.events == seq![LendingEvent::Repaid { user, amount: taken as i128 }]
            },
            Err(e) => if xlm_amount <= 0 {
                e == LendingError::AmountNotPositive
            } else {
                s.config is None && e == LendingError::NotInitialized
            },
        },
{
    laws::lemma_debt(s, user);
}

// ---------------------------------------------------------------------------
// Liquidation
// ---------------------------------------------------------------------------

/// What holdings are worth adds up, unless the sum does not fit.
proof fn lemma_worths(s: LendingState, user: Address, list: Seq<u32>, worths: Seq<int>)
    requires
        laws::prices_sound(s),
        s.config is Some,
        are_worth(s, user, list, worths),
    ensures
        sums::sum(worths) >= 0,
        match s.weighted_sum(user, list, Weighing::Price) {
            Ok(v) => v == sums::sum(worths),
            Err(e) => e == LendingError::Arithmetic && sums::sum(worths) > i128::MAX,
        },
    decreases list.len(),
{
    if list.len() > 0 {
        let n = list.len() - 1;
        let rest = list.drop_last();
        let before = worths.drop_last();
        let asset = Address { id: list[n] };
        assert forall|i: int|
            #![trigger before[i]]
            0 <= i < rest.len() implies {
            let a = Address { id: rest[i] };
            before[i] == (if held(s, user, a) > 0 {
                held(s, user, a) * quoted(s, a)
            } else {
                0
            })
        } by {
            assert(before[i] == worths[i]);
        }
        lemma_worths(s, user, rest, before);
        assert(laws::priced(s, asset));
        let b = held(s, user, asset);
        let p = quoted(s, asset);
        assert(worths[n] == (if b > 0 {
            b * p
        } else {
            0
        }));
        if b > 0 {
            assert(b * p >= 0) by (nonlinear_arith)
                requires
                    b > 0,
                    p > 0,
            ;
            assert(b * p * 1 == b * p) by (nonlinear_arith);
        }
    }
}

/// Whether `units` of an asset at `price` pay for `debt` XLM and the bonus: the debt is turned
/// into `plain` units, rounded down, and the bonus added to them, rounded down.
pub open spec fn pays_for(debt: int, price: int, bonus_bps: int, plain: int, units: int) -> bool {
    &&& plain * price <= debt * 10_000_000 < (plain + 1) * price
    &&& units * 10_000 <= plain * (10_000 + bonus_bps) < (units + 1) * 10_000
}

/// Whether `taken` is what is taken of a holding of `balance` at `price`, where `units` of the
/// asset pay for the debt and the bonus and all collateral is worth `total`: the holding's part of
/// those units by worth, rounded down, and no more than the holding.
pub open spec fn is_taken(taken: int, balance: int, units: int, price: int, total: int) -> bool {
    if balance <= 0 || units == 0 {
        taken == 0
    } else if units * price >= total {
        taken == balance
    } else {
        taken * total <= balance * (units * price) < (taken + 1) * total
    }
}

/// What is taken of one holding.
proof fn lemma_taken(
    s: LendingState,
    borrower: Address,
    claim: Claim,
    asset: Address,
    plain: int,
    units: int,
)
    requires
        laws::prices_sound(s),
        s.config is Some,
        claim.debt > 0,
        pays_for(
            claim.debt as int,
            quoted(s, asset),
            s.liquidation_bonus_bps as int,
            plain,
            units,
        ),
    ensures
        match s.seizable(borrower, claim, asset) {
            Ok(taken) => is_taken(
                taken as int,
                held(s, borrower, asset),
                units,
                quoted(s, asset),
                claim.total as int,
            ),
            Err(e) => {
                ||| claim.debt * 10_000_000 > i128::MAX
                ||| 10_000 + s.liquidation_bonus_bps > i128::MAX
                ||| plain * (10_000 + s.liquidation_bonus_bps) > i128::MAX
            },
        },
        units >= 0,
{
    let p = quoted(s, asset);
    let bonus = s.liquidation_bonus_bps;
    let debt = claim.debt;
    assert(laws::priced(s, asset));
    assert(plain >= 0) by (nonlinear_arith)
        requires
            debt * 10_000_000 < (plain + 1) * p,
            debt > 0,
            p > 0,
    ;
    let with_bonus = 10_000 + bonus;
    assert(plain * with_bonus >= 0) by (nonlinear_arith)
        requires
            plain >= 0,
            with_bonus >= 0,
    ;
    if debt * 10_000_000 <= i128::MAX && with_bonus <= i128::MAX && plain * with_bonus <= i128::MAX {
        arith::lemma_mul_div_is(debt, 10_000_000, p as i128, plain);
        arith::lemma_mul_div_is(plain as i128, with_bonus as i128, 10_000, units);
    }
    if s.balance(borrower, asset) > 0 && s.seizable(borrower, claim, asset) is Ok {
        let a = arith::mul_div(debt, 10_000_000, p as i128)->Some_0;
        arith::lemma_mul_div(debt, 10_000_000, p as i128);
        assert(a == plain) by (nonlinear_arith)
            requires
                a * p <= debt * 10_000_000 < (a + 1) * p,
                plain * p <= debt * 10_000_000 < (plain + 1) * p,
                p > 0,
        ;
        arith::lemma_mul_div(a, with_bonus as i128, 10_000);
        let b = s.balance(borrower, asset);
        let total = claim.total as int;
        laws::lemma_share(b, units as i128, p as i128, claim.total);
        if units > 0 && units * p < total {
            let owed = units * p;
            let taken = b * owed / total;
            assert(owed > 0) by (nonlinear_arith)
                requires
                    units > 0,
                    p > 0,
                    owed == units * p,
            ;
            lemma_rounded_down(b * owed, total);
        }
    }
    if units < 0 {
        assert((units + 1) * 10_000 <= 0);
    }
}

/// A quotient rounded down.
proof fn lemma_rounded_down(n: int, d: int)
    requires
        d > 0,
    ensures
        n / d * d <= n < (n / d + 1) * d,
{
    let q = n / d;
    assert(q * d <= n < (q + 1) * d) by (nonlinear_arith)
        requires
            d > 0,
            q == n / d,
    ;
}

/// A liquidation takes of each listed asset that the borrower holds its part of the units that pay
/// for the debt and the bonus, and no more than there is; assets that are not listed stay with
/// the borrower. This is said of a list without duplicates.
pub proof fn law_liquidation_takes_each_part(
    s: LendingState,
    contract: Address,
    liquidator: Address,
    borrower: Address,
    asset: Address,
    worths: Seq<int>,
    plain: int,
    units: int,
)
    requires
        laws::balances_sound(s),
        laws::prices_sound(s),
        s.asset_list.no_duplicates(),
        are_worth(s, borrower, s.asset_list, worths),
        pays_for(
            owes(s, borrower),
            quoted(s, asset),
            s.liquidation_bonus_bps as int,
            plain,
            units,
        ),
        model::liquidate_step(s, contract, liquidator, borrower) is Ok,
    ensures
        ({
            let t = model::liquidate_step(s, contract, liquidator, borrower)->Ok_0.0;
            let taken = held(s, borrower, asset) - held(t, borrower, asset);
            if s.asset_list.contains(asset.id) {
                is_taken(
                    taken,
                    held(s, borrower, asset),
                    units,
                    quoted(s, asset),
                    sums::sum(worths),
                )
            } else {
                taken == 0
            }
        }),
{
    position_laws::law_liquidation_is_pro_rata(s, contract, liquidator, borrower, asset);
    lemma_worths(s, borrower, s.asset_list, worths);
    lemma_taken(s, borrower, s.claim(borrower)->Ok_0, asset, plain, units);
}

/// A seizure takes what it takes of a balance off the total of the asset.
proof fn lemma_seize_totals(
    s: LendingState,
    borrower: Address,
    claim: Claim,
    list: Seq<u32>,
    asset: Address,
)
    requires
        laws::balances_sound(s),
        s.seize(borrower, claim, list) is Ok,
    ensures
        ({
            let t = s.seize(borrower, claim, list)->Ok_0.0;
            t.asset(asset).total_collateral - s.asset(asset).total_collateral == t.balance(
                borrower,
                asset,
            ) - s.balance(borrower, asset)
        }),
    decreases list.len(),
{
    if list.len() > 0 {
        let rest = list.drop_last();
        let last = Address { id: list.last() };
        lemma_seize_totals(s, borrower, claim, rest, asset);
        let u = s.seize(borrower, claim, rest)->Ok_0.0;
        laws::lemma_seizable(u, borrower, claim, last);
        model::lemma_position_key_injective(borrower, asset, borrower, last);
        laws::lemma_seize_balances(s, borrower, claim, rest);
        assert(u.balance(borrower, last) >= 0);
    }
}

/// A liquidation clears the whole debt of the borrower and takes it off what all users owe, and
/// takes what the borrower loses of an asset off what all users hold of it. It changes nobody
/// else's debt or collateral, and no price, factor, threshold or list.
pub proof fn law_liquidation_clears_the_debt(
    s: LendingState,
    contract: Address,
    liquidator: Address,
    borrower: Address,
    other: Address,
    asset: Address,
)
    requires
        laws::balances_sound(s),
        laws::debts_sound(s),
        model::liquidate_step(s, contract, liquidator, borrower) is Ok,
    ensures
        ({
            let (t, out) = model::liquidate_step(s, contract, liquidator, borrower)->Ok_0;
            &&& out.value == owes(s, borrower) && owes(s, borrower) > 0
            &&& t.debts == s.debts.insert(borrower.id, 0)
            &&& t.total_borrowed == s.total_borrowed - owes(s, borrower)
            &&& other != borrower ==> held(t, other, asset) == held(s, other, asset)
            &&& 0 <= held(t, borrower, asset) <= held(s, borrower, asset)
            &&& held_by_all(t, asset) - held_by_all(s, asset) == held(t, borrower, asset) - held(
                s,
                borrower,
                asset,
            )
            &&& quoted(t, asset) == quoted(s, asset)
            &&& loan_factor(t, asset) == loan_factor(s, asset)
            &&& takes_deposits(t, asset) == takes_deposits(s, asset)
            &&& t == (LendingState {
                debts: t.debts,
                total_borrowed: t.total_borrowed,
                balances: t.balances,
                assets: t.assets,
                ..s
            })
        }),
{
    let t = model::liquidate_step(s, contract, liquidator, borrower)->Ok_0.0;
    let u = model::cleared(s, borrower);
    laws::lemma_liquidated(s, contract, liquidator, borrower);
    laws::lemma_debt(s, borrower);
    laws::lemma_seize_balances(u, borrower, s.claim(borrower)->Ok_0, s.asset_list);
    lemma_seize_totals(u, borrower, s.claim(borrower)->Ok_0, s.asset_list, asset);
    assert(t.asset(asset).price == s.asset(asset).price);
    assert(t.balance(other, asset) == held(t, other, asset));
    assert(t.balance(borrower, asset) == held(t, borrower, asset));
    assert(u.balance(other, asset) == held(s, other, asset));
    assert(u.balance(borrower, asset) == held(s, borrower, asset));
}

/// Whether every seizure is of a listed asset, of a positive amount and of what the balance of the
/// borrower falls by from `s` to `t`; no asset is seized twice, and every balance that falls was
/// seized.
spec fn seized_well(
    s: LendingState,
    t: LendingState,
    borrower: Address,
    list: Seq<u32>,
    seized: Seq<Seizure>,
) -> bool {
    &&& forall|k: int|
        #![trigger seized[k]]
        0 <= k < seized.len() ==> seized[k].amount > 0 && list.contains(seized[k].asset.id)
            && seized[k].amount == s.balance(borrower, seized[k].asset) - t.balance(
            borrower,
            seized[k].asset,
        )
    &&& forall|j: int, k: int|
        0 <= j < k < seized.len() ==> (#[trigger] seized[j]).asset != (#[trigger] seized[k]).asset
    &&& forall|asset: Address|
        #![trigger t.balance(borrower, asset)]
        t.balance(borrower, asset) != s.balance(borrower, asset) ==> was_seized(seized, asset)
}

/// Whether `asset` is among what was seized.
spec fn was_seized(seized: Seq<Seizure>, asset: Address) -> bool {
    exists|k: int| 0 <= k < seized.len() && (#[trigger] seized[k]).asset == asset
}

/// What a seizure over a list of distinct assets reports.
proof fn lemma_seized_well(s: LendingState, borrower: Address, claim: Claim, list: Seq<u32>)
    requires
        laws::balances_sound(s),
        list.no_duplicates(),
        s.seize(borrower, claim, list) is Ok,
    ensures
        seized_well(
            s,
            s.seize(borrower, claim, list)->Ok_0.0,
            borrower,
            list,
            s.seize(borrower, claim, list)->Ok_0.1,
        ),
    decreases list.len(),
{
    if list.len() > 0 {
        let rest = list.drop_last();
        let (u, before) = s.seize(borrower, claim, rest)->Ok_0;
        let (t, seized) = s.seize(borrower, claim, list)->Ok_0;
        let asset = Address { id: list.last() };
        let amount = u.seizable(borrower, claim, asset)->Ok_0;
        assert(list[list.len() - 1] == list.last());
        lemma_seized_well(s, borrower, claim, rest);
        laws::lemma_seizable(u, borrower, claim, asset);
        assert(!rest.contains(asset.id)) by {
            if rest.contains(asset.id) {
                let i = rest.index_of(asset.id);
                assert(list[i] == list[list.len() - 1]);
            }
        }
        assert forall|id: u32| rest.contains(id) implies #[trigger] list.contains(id) by {
            let i = rest.index_of(id);
            assert(list[i] == id);
        }
        assert(!was_seized(before, asset)) by {
            if was_seized(before, asset) {
                let k = choose|k: int|
                    0 <= k < before.len() && (#[trigger] before[k]).asset == asset;
                assert(rest.contains(before[k].asset.id));
            }
        }
        assert(u.balance(borrower, asset) == s.balance(borrower, asset));
        if amount > 0 {
            assert forall|other: Address| other != asset implies #[trigger] t.balance(
                borrower,
                other,
            ) == u.balance(borrower, other) by {
                model::lemma_position_key_injective(borrower, other, borrower, asset);
            }
            assert(t.balance(borrower, asset) == u.balance(borrower, asset) - amount);
            assert forall|k: int|
                #![trigger seized[k]]
                0 <= k < seized.len() implies seized[k].amount > 0 && list.contains(
                seized[k].asset.id,
            ) && seized[k].amount == s.balance(borrower, seized[k].asset) - t.balance(
                borrower,
                seized[k].asset,
            ) by {
                if k < before.len() {
                    assert(seized[k] == before[k]);
                    assert(before[k].asset != asset) by {
                        assert(!was_seized(before, asset));
                    }
                }
            }
            assert forall|j: int, k: int| 0 <= j < k < seized.len() implies (
            #[trigger] seized[j]).asset != (#[trigger] seized[k]).asset by {
                assert(seized[j] == before[j]);
                if k < before.len() {
                    assert(seized[k] == before[k]);
                } else {
                    assert(!was_seized(before, asset));
                }
            }
            assert forall|other: Address|
                #![trigger t.balance(borrower, other)]
                t.balance(borrower, other) != s.balance(borrower, other) implies was_seized(
                seized,
                other,
            ) by {
                if other == asset {
                    assert(seized[seized.len() - 1].asset == asset);
                } else {
                    assert(u.balance(borrower, other) != s.balance(borrower, other));
                    let k = choose|k: int|
                        0 <= k < before.len() && (#[trigger] before[k]).asset == other;
                    assert(seized[k].asset == other);
                }
            }
        } else {
            assert forall|k: int|
                #![trigger seized[k]]
                0 <= k < seized.len() implies seized[k].amount > 0 && list.contains(
                seized[k].asset.id,
            ) && seized[k].amount == s.balance(borrower, seized[k].asset) - t.balance(
                borrower,
                seized[k].asset,
            ) by {
                assert(seized[k] == before[k]);
            }
        }
    }
}

/// A liquidator pays the debt to the market, and the market pays them whatever the borrower's
/// balances fall by: one transfer and one report for each asset of which something is taken, and
/// no other. This is said of a list without duplicates.
pub proof fn law_liquidation_pays_the_liquidator(
    s: LendingState,
    contract: Address,
    liquidator: Address,
    borrower: Address,
)
    requires
        laws::balances_sound(s),
        s.asset_list.no_duplicates(),
        model::liquidate_step(s, contract, liquidator, borrower) is Ok,
    ensures
        ({
            let (t, out) = model::liquidate_step(s, contract, liquidator, borrower)->Ok_0;
            &&& out.auth == Some(liquidator)
            &&& out.transfers.len() == out.events.len() + 1
            &&& out.transfers[0] == (Transfer {
                token: s.config->Some_0.native_token,
                from: liquidator,
                to: contract,
                amount: owes(s, borrower) as i128,
            })
            &&& forall|i: int|
                #![trigger out.transfers[i]]
                1 <= i < out.transfers.len() ==> {
                    let asset = out.transfers[i].token;
                    let taken = held(s, borrower, asset) - held(t, borrower, asset);
                    &&& taken > 0 && s.asset_list.contains(asset.id)
                    &&& out.transfers[i] == (Transfer {
                        token: asset,
                        from: contract,
                        to: liquidator,
                        amount: taken as i128,
                    })
                    &&& out.events[i - 1] == (LendingEvent::Liquidated {
                        liquidator,
                        borrower,
                        asset,
                        amount: taken as i128,
                    })
                }
            &&& forall|i: int, j: int|
                1 <= i < j < out.transfers.len() ==> (#[trigger] out.transfers[i]).token != (
                #[trigger] out.transfers[j]).token
            &&& forall|asset: Address|
                #![trigger held(t, borrower, asset)]
                held(t, borrower, asset) != held(s, borrower, asset) ==> exists|i: int|
                    1 <= i < out.transfers.len() && (#[trigger] out.transfers[i]).token == asset
        }),
{
    let (t, out) = model::liquidate_step(s, contract, liquidator, borrower)->Ok_0;
    let u = model::cleared(s, borrower);
    let claim = s.claim(borrower)->Ok_0;
    laws::lemma_liquidated(s, contract, liquidator, borrower);
    let seized = u.seize(borrower, claim, s.asset_list)->Ok_0.1;
    lemma_seized_well(u, borrower, claim, s.asset_list);
    assert forall|i: int|
        #![trigger out.transfers[i]]
        1 <= i < out.transfers.len() implies {
        let asset = out.transfers[i].token;
        let taken = held(s, borrower, asset) - held(t, borrower, asset);
        &&& taken > 0 && s.asset_list.contains(asset.id)
        &&& out.transfers[i] == (Transfer {
            token: asset,
            from: contract,
            to: liquidator,
            amount: taken as i128,
        })
        &&& out.events[i - 1] == (LendingEvent::Liquidated {
            liquidator,
            borrower,
            asset,
            amount: taken as i128,
        })
    } by {
        let x = seized[i - 1];
        assert(out.transfers[i] == model::seizure_transfer(contract, liquidator, x));
        assert(u.balance(borrower, x.asset) == held(s, borrower, x.asset));
    }
    assert forall|i: int, j: int| 1 <= i < j < out.transfers.len() implies (
    #[trigger] out.transfers[i]).token != (#[trigger] out.transfers[j]).token by {
        assert(out.transfers[i] == model::seizure_transfer(contract, liquidator, seized[i - 1]));
        assert(out.transfers[j] == model::seizure_transfer(contract, liquidator, seized[j - 1]));
    }
    assert forall|asset: Address|
        #![trigger held(t, borrower, asset)]
        held(t, borrower, asset) != held(s, borrower, asset) implies exists|i: int|
        1 <= i < out.transfers.len() && (#[trigger] out.transfers[i]).token == asset by {
        assert(t.balance(borrower, asset) != u.balance(borrower, asset));
        let k = choose|k: int| 0 <= k < seized.len() && (#[trigger] seized[k]).asset == asset;
        assert(out.transfers[k + 1] == model::seizure_transfer(contract, liquidator, seized[k]));
    }
}

/// A seizure goes through where the numbers fit.
proof fn lemma_seize_goes_through(s: LendingState, borrower: Address, claim: Claim, list: Seq<u32>)
    requires
        laws::prices_sound(s),
        laws::collateral_sound(s),
        s.config is Some,
        claim.debt > 0,
        claim.debt * 10_000_000 * (10_000 + s.liquidation_bonus_bps) <= i128::MAX,
    ensures
        s.seize(borrower, claim, list) is Ok,
    decreases list.len(),
{
    if list.len() > 0 {
        let rest = list.drop_last();
        let asset = Address { id: list.last() };
        lemma_seize_goes_through(s, borrower, claim, rest);
        let u = s.seize(borrower, claim, rest)->Ok_0.0;
        laws::lemma_seize_frame(s, borrower, claim, rest);
        laws::lemma_seize_sound(s, borrower, claim, rest);
        assert forall|a: Address| #[trigger] laws::priced(u, a) by {
            assert(laws::priced(s, a));
            assert(u.asset(a).price == s.asset(a).price);
        }
        assert(laws::priced(u, asset));
        let p = quoted(u, asset);
        let d = claim.debt * 10_000_000;
        let b = 10_000 + s.liquidation_bonus_bps;
        let plain = d / p;
        lemma_rounded_down(d, p);
        lemma_rounded_down(plain * b, 10_000);
        assert(0 <= plain <= d) by (nonlinear_arith)
            requires
                d >= 0,
                p > 0,
                plain == d / p,
        ;
        assert(plain * b <= d * b && d <= d * b && b <= d * b) by (nonlinear_arith)
            requires
                0 <= plain <= d,
                d >= 1,
                b >= 1,
        ;
        lemma_taken(u, borrower, claim, asset, plain, plain * b / 10_000);
        laws::lemma_seizable(u, borrower, claim, asset);
        laws::lemma_balance(u, borrower, asset);
    }
}

/// A position is liquidated exactly if it has debt and its collateral counts for less than the
/// debt at the liquidation threshold. Whoever owes nothing has no debt to liquidate, and a
/// position whose collateral counts for the debt is healthy. Besides, only a number that does
/// not fit stops a liquidation.
pub proof fn law_liquidation_is_of_uncovered_debts(
    s: LendingState,
    contract: Address,
    liquidator: Address,
    borrower: Address,
    values: Seq<int>,
    worths: Seq<int>,
)
    requires
        laws::prices_sound(s),
        laws::collateral_sound(s),
        laws::debts_sound(s),
        s.config is Some,
        count_for_health(s, borrower, s.asset_list, values),
        are_worth(s, borrower, s.asset_list, worths),
    ensures
        match model::liquidate_step(s, contract, liquidator, borrower) {
            Ok(_) => owes(s, borrower) > 0 && sums::sum(values) < owes(s, borrower),
            Err(e) => if owes(s, borrower) == 0 {
                e == LendingError::NoDebt
            } else {
                ||| e == LendingError::PositionHealthy && sums::sum(values) >= owes(s, borrower)
                ||| {
                    &&& e == LendingError::Arithmetic
                    &&& {
                        ||| sums::sum(values) * 10_000_000 > i128::MAX
                        ||| !health_products_fit(s, borrower, s.asset_list)
                        ||| sums::sum(worths) > i128::MAX
                        ||| owes(s, borrower) * 10_000_000 * (10_000 + s.liquidation_bonus_bps)
                            > i128::MAX
                    }
                }
            },
        },
{
    laws::lemma_debt(s, borrower);
    law_health_factor(s, borrower, values);
    lemma_worths(s, borrower, s.asset_list, worths);
    position_laws::law_only_unhealthy_positions_are_liquidated(s, contract, liquidator, borrower);
    if owes(s, borrower) > 0 && s.health_factor(borrower) is Ok {
        lemma_healthy(
            s.health_factor(borrower)->Ok_0 as int,
            sums::sum(values),
            owes(s, borrower),
        );
        if s.claim(borrower) is Ok && owes(s, borrower) * 10_000_000 * (10_000
            + s.liquidation_bonus_bps) <= i128::MAX {
            let u = model::cleared(s, borrower);
            laws::lemma_collateral_kept(s, u);
            assert forall|a: Address| #[trigger] laws::priced(u, a) by {
                assert(laws::priced(s, a));
            }
            lemma_seize_goes_through(u, borrower, s.claim(borrower)->Ok_0, s.asset_list);
        }
    }
}

/// The bonus of a liquidation is 5 % after any calls.
pub proof fn law_bonus_is_fixed(contract: Address, calls: Seq<LendingCall>)
    ensures
        laws::after_calls(contract, calls).liquidation_bonus_bps == 500,
    decreases calls.len(),
{
    if calls.len() > 0 {
        let s = laws::after_calls(contract, calls.drop_last());
        law_bonus_is_fixed(contract, calls.drop_last());
        match calls.last() {
            LendingCall::Liquidate { liquidator, borrower } => {
                if model::liquidate_step(s, contract, liquidator, borrower) is Ok {
                    laws::lemma_liquidated(s, contract, liquidator, borrower);
                }
            },
            _ => {},
        }
    }
}

// ---------------------------------------------------------------------------
// Administration
// ---------------------------------------------------------------------------

/// Initialization happens once. It fixes the admin and the tokens, lists sXLM as the one
/// collateral asset at an exchange rate of one, sets threshold, rate and factor as asked and the
/// bonus to 5 %, and starts without debts.
pub proof fn law_initialization(
    s: LendingState,
    admin: Address,
    sxlm_token: Address,
    native_token: Address,
    cf_bps: u32,
    lt_bps: u32,
    rate_bps: u32,
)
    ensures
        match model::initialize_step(s, admin, sxlm_token, native_token, cf_bps, lt_bps, rate_bps) {
            Ok((t, out)) => {
                &&& s.config is None
                &&& t.config == Some(LendingConfig { admin, sxlm_token, native_token })
                &&& t.exchange_rate == 10_000_000
                &&& t.liquidation_threshold_bps == lt_bps
                &&& t.borrow_rate_bps == rate_bps
                &&& t.liquidation_bonus_bps == 500
                &&& t.total_borrowed == 0
                &&& t.asset_list == seq![sxlm_token.id]
                &&& t.assets == s.assets.insert(
                    sxlm_token.id,
                    AssetConfig {
                        enabled: true,
                        cf_bps: cf_bps as i128,
                        price: record(s, sxlm_token).price,
                        total_collateral: 0,
                    },
                )
                &&& t.balances == s.balances && t.debts == s.debts
                &&& t.total_accrued_interest == s.total_accrued_interest
                &&& out.auth is None && out.transfers.len() == 0 && out.events.len() == 0
            },
            Err(e) => s.config is Some && e == LendingError::AlreadyInitialized,
        },
{
}

/// Whether `t` is `s` but for the record of `asset`, which is `new`.
pub open spec fn only_record(s: LendingState, t: LendingState, asset: Address, new: AssetConfig) -> bool {
    t == (LendingState { assets: s.assets.insert(asset.id, new), ..s })
}

/// The admin may register any asset that takes no deposits yet, with a factor of up to 100 % and
/// a positive price, as long as fewer than 16 are listed. It joins the list at the end and starts
/// without collateral.
pub proof fn law_assets_are_registered(
    s: LendingState,
    admin: Address,
    asset: Address,
    cf_bps: u32,
    price: i128,
)
    ensures
        match model::add_collateral_asset_step(s, admin, asset, cf_bps, price) {
            Ok((t, out)) => {
                &&& s.config is Some && s.config->Some_0.admin == admin
                &&& 0 < cf_bps <= 10_000 && price > 0
                &&& !takes_deposits(s, asset) && s.asset_list.len() < 16
                &&& t.asset_list == s.asset_list.push(asset.id)
                &&& only_record(
                    LendingState { asset_list: t.asset_list, ..s },
                    t,
                    asset,
                    AssetConfig {
                        enabled: true,
                        cf_bps: cf_bps as i128,
                        price,
                        total_collateral: 0,
                    },
                )
                &&& out.auth == Some(admin) && out.transfers.len() == 0
                &&& out.events == seq![LendingEvent::AssetAdded { asset, cf_bps, price }]
            },
            Err(e) => match s.config {
                None => e == LendingError::NotInitialized,
                Some(c) => if c.admin != admin {
                    e == LendingError::OnlyAdmin
                } else if cf_bps == 0 || cf_bps > 10_000 {
                    e == LendingError::InvalidCfBps
                } else if price <= 0 {
                    e == LendingError::PriceNotPositive
                } else if takes_deposits(s, asset) {
                    e == LendingError::AssetAlreadyRegistered
                } else {
                    e == LendingError::MaxAssetsReached && s.asset_list.len() >= 16
                },
            },
        },
{
}

/// The admin may set the price of any asset but sXLM to any positive number.
pub proof fn law_prices_are_set(s: LendingState, admin: Address, asset: Address, price: i128)
    ensures
        match model::update_asset_price_step(s, admin, asset, price) {
            Ok((t, out)) => {
                &&& s.config is Some && s.config->Some_0.admin == admin
                &&& price > 0 && asset != s.config->Some_0.sxlm_token
                &&& only_record(s, t, asset, AssetConfig { price, ..record(s, asset) })
                &&& quoted(t, asset) == price
                &&& out.auth == Some(admin) && out.transfers.len() == 0
                &&& out.events == seq![LendingEvent::PriceUpdated { asset, price }]
            },
            Err(e) => match s.config {
                None => e == LendingError::NotInitialized,
                Some(c) => if c.admin != admin {
                    e == LendingError::OnlyAdmin
                } else if price <= 0 {
                    e == LendingError::PriceNotPositive
                } else {
                    e == LendingError::PricedByExchangeRate && asset == c.sxlm_token
                },
            },
        },
{
}

/// The admin may set the collateral factor of any asset that takes deposits to up to 100 %.
pub proof fn law_factors_are_set(s: LendingState, admin: Address, asset: Address, cf_bps: u32)
    ensures
        match model::update_asset_cf_step(s, admin, asset, cf_bps) {
            Ok((t, out)) => {
                &&& s.config is Some && s.config->Some_0.admin == admin
                &&& 0 < cf_bps <= 10_000 && takes_deposits(s, asset)
                &&& only_record(
                    s,
                    t,
                    asset,
                    AssetConfig { cf_bps: cf_bps as i128, ..record(s, asset) },
                )
                &&& out.auth == Some(admin)
                &&& out.transfers.len() == 0 && out.events.len() == 0
            },
            Err(e) => match s.config {
                None => e == LendingError::NotInitialized,
                Some(c) => if c.admin != admin {
                    e == LendingError::OnlyAdmin
                } else if cf_bps == 0 || cf_bps > 10_000 {
                    e == LendingError::InvalidCfBps
                } else {
                    e == LendingError::AssetNotRegistered && !takes_deposits(s, asset)
                },
            },
        },
{
}

/// The admin may close any asset but sXLM for deposits.
pub proof fn law_assets_are_disabled(s: LendingState, admin: Address, asset: Address)
    ensures
        match model::disable_collateral_asset_step(s, admin, asset) {
            Ok((t, out)) => {
                &&& s.config is Some && s.config->Some_0.admin == admin
                &&& asset != s.config->Some_0.sxlm_token
                &&& only_record(s, t, asset, AssetConfig { enabled: false, ..record(s, asset) })
                &&& out.auth == Some(admin)
                &&& out.transfers.len() == 0 && out.events.len() == 0
            },
            Err(e) => match s.config {
                None => e == LendingError::NotInitialized,
                Some(c) => if c.admin != admin {
                    e == LendingError::OnlyAdmin
                } else {
                    e == LendingError::CannotDisableSxlm && asset == c.sxlm_token
                },
            },
        },
{
}

/// The exchange rate may be set to any positive number, with the admin's authorization.
pub proof fn law_exchange_rate_is_set(s: LendingState, rate: i128)
    ensures
        match model::update_exchange_rate_step(s, rate) {
            Ok((t, out)) => {
                &&& s.config is Some && rate > 0
                &&& t == (LendingState { exchange_rate: rate, ..s })
                &&& quoted(t, s.config->Some_0.sxlm_token) == rate
                &&& out.auth == Some(s.config->Some_0.admin) && out.transfers.len() == 0
                &&& out.events == seq![LendingEvent::ExchangeRateUpdated { rate }]
            },
            Err(e) => if s.config is None {
                e == LendingError::NotInitialized
            } else {
                e == LendingError::RateNotPositive && rate <= 0
            },
        },
{
}

/// The collateral factor of sXLM may be set to up to 100 %, with the admin's authorization.
pub proof fn law_factor_of_sxlm_is_set(s: LendingState, cf_bps: u32)
    ensures
        match model::update_collateral_factor_step(s, cf_bps) {
            Ok((t, out)) => {
                let sxlm = s.config->Some_0.sxlm_token;
                &&& s.config is Some && 0 < cf_bps <= 10_000
                &&& only_record(
                    s,
                    t,
                    sxlm,
                    AssetConfig { cf_bps: cf_bps as i128, ..record(s, sxlm) },
                )
                &&& out.auth == Some(s.config->Some_0.admin) && out.transfers.len() == 0
                &&& out.events == seq![LendingEvent::CollateralFactorUpdated { cf_bps }]
            },
            Err(e) => if s.config is None {
                e == LendingError::NotInitialized
            } else {
                e == LendingError::InvalidCf && (cf_bps == 0 || cf_bps > 10_000)
            },
        },
{
}

/// The liquidation threshold may be set to up to 100 %, with the admin's authorization.
pub proof fn law_threshold_is_set(s: LendingState, lt_bps: u32)
    ensures
        match model::update_liquidation_threshold_step(s, lt_bps) {
            Ok((t, out)) => {
                &&& s.config is Some && 0 < lt_bps <= 10_000
                &&& t == (LendingState { liquidation_threshold_bps: lt_bps as i128, ..s })
                &&& out.auth == Some(s.config->Some_0.admin)
                &&& out.transfers.len() == 0 && out.events.len() == 0
            },
            Err(e) => if s.config is None {
                e == LendingError::NotInitialized
            } else {
                e == LendingError::InvalidLt && (lt_bps == 0 || lt_bps > 10_000)
            },
        },
{
}

/// The borrow rate is set as asked, with the admin's authorization.
pub proof fn law_borrow_rate_is_set(s: LendingState, rate_bps: u32)
    ensures
        match model::update_borrow_rate_step(s, rate_bps) {
            Ok((t, out)) => {
                &&& s.config is Some
                &&& t == (LendingState { borrow_rate_bps: rate_bps as i128, ..s })
                &&& out.auth == Some(s.config->Some_0.admin)
                &&& out.transfers.len() == 0 && out.events.len() == 0
            },
            Err(e) => s.config is None && e == LendingError::NotInitialized,
        },
{
}

/// A harvest reports the accrued interest and leaves none, with the admin's authorization.
pub proof fn law_harvest_empties_the_interest(s: LendingState)
    ensures
        match model::harvest_interest_step(s) {
            Ok((t, out)) => {
                &&& s.config is Some
                &&& out.value == s.total_accrued_interest
                &&& t == (LendingState { total_accrued_interest: 0, ..s })
                &&& out.auth == Some(s.config->Some_0.admin)
                &&& out.transfers.len() == 0 && out.events.len() == 0
            },
            Err(e) => s.config is None && e == LendingError::NotInitialized,
        },
{
}

/// Before initialization nobody borrows, repays or is liquidated.
pub proof fn law_no_debts_before_initialization(
    s: LendingState,
    contract: Address,
    user: Address,
    other: Address,
    amount: i128,
    pool_balance: i128,
)
    requires
        s.config is None,
    ensures
        model::borrow_step(s, contract, user, amount, pool_balance) is Err,
        model::repay_step(s, contract, user, amount) is Err,
        model::liquidate_step(s, contract, user, other) is Err,
{
}

/// What the holdings of a user are worth is the sum, over the listed assets, of balance times
/// price. It is not reported exactly if it does not fit.
pub proof fn law_collateral_is_worth_its_price(s: LendingState, user: Address, worths: Seq<int>)
    requires
        laws::prices_sound(s),
        s.config is Some,
        are_worth(s, user, s.asset_list, worths),
    ensures
        match s.weighted_collateral(user, Weighing::Price) {
            Ok(value) => value == sums::sum(worths),
            Err(e) => e == LendingError::Arithmetic && sums::sum(worths) > i128::MAX,
        },
{
    lemma_worths(s, user, s.asset_list, worths);
}

/// A new market holds nothing and is not initialized. Its exchange rate is one, its threshold 80 %
/// and its bonus 5 %.
pub proof fn law_new_market_is_empty(user: Address, asset: Address)
    ensures
        ({
            let s = LendingState::blank();
            &&& s.config is None
            &&& s.exchange_rate == 10_000_000
            &&& s.liquidation_threshold_bps == 8_000 && s.liquidation_bonus_bps == 500
            &&& s.borrow_rate_bps == 0
            &&& s.total_borrowed == 0 && s.total_accrued_interest == 0
            &&& s.asset_list.len() == 0
            &&& !s.assets.contains_key(asset.id)
            &&& !s.balances.contains_key(slot(user, asset))
            &&& !s.debts.contains_key(user.id)
        }),
{
}

} // verus!
