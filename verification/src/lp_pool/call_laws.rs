//! What each call of the pool takes, pays and leaves behind.

use vstd::prelude::*;
use crate::arith;
use crate::host::{Address, Transfer};
use super::laws;
use super::model;
use super::model::{LpAccount, PoolConfig, PoolError, PoolEvent, PoolState};
use super::twap::TwapSample;

verus! {

/// The LP tokens of `user`.
pub open spec fn lp_held(s: PoolState, user: Address) -> int {
    if s.accounts.contains_key(user.id) {
        s.accounts[user.id].balance as int
    } else {
        0
    }
}

/// The reward index up to which `user` was credited.
pub open spec fn paid_up_to(s: PoolState, user: Address) -> int {
    if s.accounts.contains_key(user.id) {
        s.accounts[user.id].reward_paid as int
    } else {
        0
    }
}

/// The rewards that are kept for `user`.
pub open spec fn kept_for(s: PoolState, user: Address) -> int {
    if s.accounts.contains_key(user.id) {
        s.accounts[user.id].pending_rewards as int
    } else {
        0
    }
}

/// Whether everybody but `user` has the same account in `s` and `t`.
pub open spec fn others_keep(s: PoolState, t: PoolState, user: Address) -> bool {
    forall|id: u32|
        id != user.id ==> (#[trigger] t.accounts.contains_key(id) <==> s.accounts.contains_key(id))
            && (s.accounts.contains_key(id) ==> t.accounts[id] == s.accounts[id])
}

// ---------------------------------------------------------------------------
// Rewards
// ---------------------------------------------------------------------------

/// Whether the reward index grows by `growth` from the last checkpoint to `ledger`: by what the
/// mining rate gives out in the ledgers between, shared by all LP tokens, scaled by `10^7` and
/// rounded down. It stands still without LP tokens or rate.
pub open spec fn index_grows(s: PoolState, ledger: u32, growth: int) -> bool {
    if s.total_lp > 0 && s.mining_rate > 0 && ledger > s.last_reward_ledger {
        &&& growth * s.total_lp <= (ledger - s.last_reward_ledger) * s.mining_rate * 10_000_000
        &&& (ledger - s.last_reward_ledger) * s.mining_rate * 10_000_000 < (growth + 1) * s.total_lp
    } else {
        growth == 0
    }
}

/// Whether `user` earns `gain` when the reward index grows by `growth`: what the index grew since
/// their last credit, times their LP tokens, rounded down.
pub open spec fn user_earns(s: PoolState, user: Address, growth: int, gain: int) -> bool {
    &&& gain * 10_000_000 <= lp_held(s, user) * (s.reward_per_lp + growth - paid_up_to(s, user))
    &&& lp_held(s, user) * (s.reward_per_lp + growth - paid_up_to(s, user)) < (gain + 1)
        * 10_000_000
}

/// Whether the numbers that lead to a growth and a gain fit.
pub open spec fn rewards_fit(s: PoolState, user: Address, ledger: u32, growth: int, gain: int) -> bool {
    &&& s.total_lp > 0 && s.mining_rate > 0 && ledger > s.last_reward_ledger ==> (ledger
        - s.last_reward_ledger) * s.mining_rate * 10_000_000 <= i128::MAX
    &&& s.reward_per_lp + growth <= i128::MAX
    &&& lp_held(s, user) * (s.reward_per_lp + growth - paid_up_to(s, user)) <= i128::MAX
    &&& kept_for(s, user) + gain <= i128::MAX
}

/// Whether the rewards of `user` in `t` are those of `s`, settled at `ledger`.
pub open spec fn settled_for(s: PoolState, t: PoolState, user: Address, ledger: u32) -> bool {
    let growth = t.reward_per_lp - s.reward_per_lp;
    &&& t.last_reward_ledger == ledger
    &&& index_grows(s, ledger, growth)
    &&& user_earns(s, user, growth, kept_for(t, user) - kept_for(s, user))
    &&& t.accounts.contains_key(user.id)
    &&& paid_up_to(t, user) == t.reward_per_lp
}

/// What settling does.
proof fn lemma_settled(s: PoolState, user: Address, ledger: u32)
    requires
        laws::shares_sound(s),
        s.accrue(user, ledger) is Some,
    ensures
        ({
            let t = s.accrue(user, ledger)->Some_0;
            &&& settled_for(s, t, user, ledger)
            &&& others_keep(s, t, user)
            &&& lp_held(t, user) == lp_held(s, user)
            &&& laws::shares_sound(t)
            &&& t == (PoolState {
                reward_per_lp: t.reward_per_lp,
                last_reward_ledger: ledger,
                accounts: t.accounts,
                ..s
            })
        }),
{
    let t = s.accrue(user, ledger)->Some_0;
    let account = s.account(user);
    laws::lemma_share_of_supply(s, user);
    laws::lemma_reward_index(s, ledger);
    laws::lemma_earned(account, t.reward_per_lp);
    laws::lemma_accrue_sound(s, user, ledger);
    if s.total_lp > 0 && s.mining_rate > 0 && ledger > s.last_reward_ledger {
        let elapsed = (ledger - s.last_reward_ledger) as i128;
        assert(elapsed * s.mining_rate >= 0) by (nonlinear_arith)
            requires
                elapsed >= 0,
                s.mining_rate > 0,
        ;
        arith::lemma_mul_div((elapsed * s.mining_rate) as i128, 10_000_000, s.total_lp);
    }
}

/// When rewards can be settled.
proof fn lemma_settles(s: PoolState, user: Address, ledger: u32, growth: int, gain: int)
    requires
        laws::shares_sound(s),
        index_grows(s, ledger, growth),
        user_earns(s, user, growth, gain),
        rewards_fit(s, user, ledger, growth, gain),
    ensures
        s.accrue(user, ledger) is Some,
        s.accrue(user, ledger)->Some_0.reward_per_lp == s.reward_per_lp + growth,
        kept_for(s.accrue(user, ledger)->Some_0, user) == kept_for(s, user) + gain,
        growth >= 0,
        gain >= 0,
{
    let account = s.account(user);
    laws::lemma_share_of_supply(s, user);
    if s.total_lp > 0 && s.mining_rate > 0 && ledger > s.last_reward_ledger {
        let elapsed = (ledger - s.last_reward_ledger) as i128;
        let m = elapsed * s.mining_rate;
        assert(0 <= m <= m * 10_000_000) by (nonlinear_arith)
            requires
                elapsed >= 0,
                s.mining_rate > 0,
                m == elapsed * s.mining_rate,
        ;
        arith::lemma_mul_div_is(m as i128, 10_000_000, s.total_lp, growth);
    }
    assert(s.reward_index(ledger) == Some((s.reward_per_lp + growth) as i128));
    let index = (s.reward_per_lp + growth) as i128;
    let gap = (index - account.reward_paid) as i128;
    assert(account.balance * gap >= 0) by (nonlinear_arith)
        requires
            account.balance >= 0,
            gap >= 0,
    ;
    arith::lemma_mul_div_is(account.balance, gap, 10_000_000, gain);
}

/// The pending rewards of `user` at `ledger` are those kept for them and what they earned since
/// the last credit: their share of what the mining rate gave out.
pub proof fn law_pending_rewards_are_the_share(
    s: PoolState,
    user: Address,
    ledger: u32,
    growth: int,
    gain: int,
)
    requires
        laws::shares_sound(s),
        index_grows(s, ledger, growth),
        user_earns(s, user, growth, gain),
    ensures
        match s.pending_rewards(user, ledger) {
            Some(pending) => pending == kept_for(s, user) + gain,
            None => !rewards_fit(s, user, ledger, growth, gain),
        },
{
    if rewards_fit(s, user, ledger, growth, gain) {
        lemma_settles(s, user, ledger, growth, gain);
    }
    if s.accrue(user, ledger) is Some {
        let t = s.accrue(user, ledger)->Some_0;
        lemma_settled(s, user, ledger);
        lemma_same_growth(s, ledger, growth, t.reward_per_lp - s.reward_per_lp);
    }
}

/// The reward index grows by one number only.
proof fn lemma_same_growth(s: PoolState, ledger: u32, a: int, b: int)
    requires
        index_grows(s, ledger, a),
        index_grows(s, ledger, b),
    ensures
        a == b,
{
    if s.total_lp > 0 && s.mining_rate > 0 && ledger > s.last_reward_ledger {
        let t = s.total_lp as int;
        let m = (ledger - s.last_reward_ledger) * s.mining_rate * 10_000_000;
        assert(a == b) by (nonlinear_arith)
            requires
                t > 0,
                a * t <= m < (a + 1) * t,
                b * t <= m < (b + 1) * t,
        ;
    }
}

// ---------------------------------------------------------------------------
// Liquidity
// ---------------------------------------------------------------------------

/// Whether `x` and `y` are what a deposit of up to `xlm` and `sxlm` takes, and `lp` what it mints,
/// where the supply is `total` and the reserves are `rx` and `ry`.
///
/// The first deposit is taken whole and mints the integer square root of the product. A later
/// one mints as much as neither offer is too small for. Of the offer that limits it everything
/// is taken, of the other one the share that the minted tokens have of the reserve, rounded
/// down. Where both limit it alike, the sXLM are taken whole.
pub open spec fn deposit_terms(
    total: int,
    rx: int,
    ry: int,
    xlm: int,
    sxlm: int,
    lp: int,
    x: int,
    y: int,
) -> bool {
    if total == 0 {
        &&& x == xlm && y == sxlm
        &&& lp >= 0
        &&& lp * lp <= xlm * sxlm < (lp + 1) * (lp + 1)
    } else {
        &&& lp * rx <= xlm * total && lp * ry <= sxlm * total
        &&& xlm * total < (lp + 1) * rx || sxlm * total < (lp + 1) * ry
        &&& if (lp + 1) * ry <= sxlm * total {
            x == xlm && y * total <= lp * ry < (y + 1) * total
        } else {
            y == sxlm && x * total <= lp * rx < (x + 1) * total
        }
    }
}

/// An accepted deposit takes and mints what the terms say. What is taken joins the reserves, what
/// is minted joins the supply and the LP tokens of the user, whose rewards are settled first.
/// Nothing else changes.
pub proof fn law_deposit_terms(
    s: PoolState,
    contract: Address,
    ledger: u32,
    user: Address,
    xlm_amount: i128,
    sxlm_amount: i128,
)
    requires
        laws::shares_sound(s),
    ensures
        match model::add_liquidity_step(s, contract, ledger, user, xlm_amount, sxlm_amount) {
            Ok((t, out)) => {
                let lp = out.value;
                let x = t.reserve_xlm - s.reserve_xlm;
                let y = t.reserve_sxlm - s.reserve_sxlm;
                &&& xlm_amount > 0 && sxlm_amount > 0
                &&& s.config is Some
                &&& deposit_terms(
                    s.total_lp as int,
                    s.reserve_xlm as int,
                    s.reserve_sxlm as int,
                    xlm_amount as int,
                    sxlm_amount as int,
                    lp as int,
                    x,
                    y,
                )
                &&& 0 < lp && 0 < x <= xlm_amount && 0 < y <= sxlm_amount
                &&& t.total_lp == s.total_lp + lp
                &&& lp_held(t, user) == lp_held(s, user) + lp
                &&& settled_for(s, t, user, ledger)
                &&& others_keep(s, t, user)
                &&& t == (PoolState {
                    reserve_xlm: t.reserve_xlm,
                    reserve_sxlm: t.reserve_sxlm,
                    total_lp: t.total_lp,
                    reward_per_lp: t.reward_per_lp,
                    last_reward_ledger: ledger,
                    accounts: t.accounts,
                    ..s
                })
                &&& out.auth == Some(user)
                &&& out.transfers == seq![
                    Transfer {
                        token: s.config->Some_0.native_token,
                        from: user,
                        to: contract,
                        amount: x as i128,
                    },
                    Transfer {
                        token: s.config->Some_0.sxlm_token,
                        from: user,
                        to: contract,
                        amount: y as i128,
                    },
                ]
                &&& out.events == seq![
                    PoolEvent::LiquidityAdded { user, xlm: x as i128, sxlm: y as i128, lp },
                ]
            },
            Err(e) => {
                &&& xlm_amount <= 0 || sxlm_amount <= 0 <==> e == PoolError::AmountsNotPositive
                &&& e == PoolError::NotInitialized ==> s.config is None
            },
        },
{
    let step = model::add_liquidity_step(s, contract, ledger, user, xlm_amount, sxlm_amount);
    if step is Ok {
        let u = s.accrue(user, ledger)->Some_0;
        let t = step->Ok_0.0;
        let lp = step->Ok_0.1.value;
        lemma_settled(s, user, ledger);
        laws::law_no_gain_from_going_in_and_out(
            s,
            contract,
            ledger,
            user,
            xlm_amount,
            sxlm_amount,
            ledger,
        );
        let q = model::deposit_quote(
            u.total_lp,
            u.reserve_xlm,
            u.reserve_sxlm,
            xlm_amount,
            sxlm_amount,
        )->Some_0;
        lemma_deposit_quote(u.total_lp, u.reserve_xlm, u.reserve_sxlm, xlm_amount, sxlm_amount);
        assert(t.accounts[user.id] == (LpAccount {
            balance: (u.account(user).balance + lp) as i128,
            ..u.account(user)
        }));
    }
}

/// The quote of a deposit keeps to the terms.
proof fn lemma_deposit_quote(total: i128, rx: i128, ry: i128, xlm: i128, sxlm: i128)
    requires
        total >= 0,
        xlm > 0,
        sxlm > 0,
        model::deposit_quote(total, rx, ry, xlm, sxlm) is Some,
        model::deposit_quote(total, rx, ry, xlm, sxlm)->Some_0.lp > 0,
    ensures
        ({
            let q = model::deposit_quote(total, rx, ry, xlm, sxlm)->Some_0;
            deposit_terms(
                total as int,
                rx as int,
                ry as int,
                xlm as int,
                sxlm as int,
                q.lp as int,
                q.xlm as int,
                q.sxlm as int,
            )
        }),
{
    let q = model::deposit_quote(total, rx, ry, xlm, sxlm)->Some_0;
    if total == 0 {
        lemma_root(xlm, sxlm);
    } else {
        let from_x = arith::mul_div(xlm, total, rx)->Some_0;
        let from_y = arith::mul_div(sxlm, total, ry)->Some_0;
        laws::lemma_positive_divisor(xlm, total, rx);
        laws::lemma_positive_divisor(sxlm, total, ry);
        arith::lemma_mul_div(xlm, total, rx);
        arith::lemma_mul_div(sxlm, total, ry);
        let lp = q.lp as int;
        if from_x < from_y {
            arith::lemma_mul_div(from_x, ry, total);
            assert((lp + 1) * ry <= from_y * ry && lp * ry <= from_y * ry) by (nonlinear_arith)
                requires
                    lp + 1 <= from_y,
                    ry > 0,
            ;
        } else {
            arith::lemma_mul_div(from_y, rx, total);
            assert(lp * rx <= from_x * rx) by (nonlinear_arith)
                requires
                    lp <= from_x,
                    rx > 0,
            ;
        }
    }
}

/// The integer square root of a product of positive numbers that is less than the largest
/// number.
proof fn lemma_root(a: i128, b: i128)
    requires
        a > 0,
        b > 0,
        a * b < i128::MAX,
    ensures
        ({
            let r = arith::floor_sqrt((a * b) as nat);
            &&& r * r <= a * b < (r + 1) * (r + 1)
            &&& 1 <= r <= a * b
        }),
{
    let n = a * b;
    assert(n > 0) by (nonlinear_arith)
        requires
            a > 0,
            b > 0,
            n == a * b,
    ;
    assert(n < (n + 1) * (n + 1)) by (nonlinear_arith)
        requires
            n > 0,
    ;
    lemma_root_exists(n as nat, n as nat);
    let r = arith::floor_sqrt(n as nat);
    assert(arith::is_floor_sqrt(n as nat, r));
    assert(1 <= r <= n) by (nonlinear_arith)
        requires
            n > 0,
            r >= 0,
            r * r <= n < (r + 1) * (r + 1),
    ;
}

/// Every number has an integer square root, which is found by counting down from `m`.
proof fn lemma_root_exists(n: nat, m: nat)
    requires
        n < (m + 1) * (m + 1),
    ensures
        exists|r: nat| arith::is_floor_sqrt(n, r),
    decreases m,
{
    if m * m <= n {
        assert(arith::is_floor_sqrt(n, m));
    } else {
        assert(m > 0) by (nonlinear_arith)
            requires
                m * m > n,
        ;
        lemma_root_exists(n, (m - 1) as nat);
    }
}

/// A deposit into an initialized pool is accepted whenever both offers are positive, the terms
/// mint something and take something of both tokens, and the numbers fit. It is refused for
/// minting nothing or for taking nothing of a token exactly if it does.
pub proof fn law_deposit_is_accepted(
    s: PoolState,
    contract: Address,
    ledger: u32,
    user: Address,
    xlm_amount: i128,
    sxlm_amount: i128,
    growth: int,
    gain: int,
    lp: int,
    x: int,
    y: int,
)
    requires
        laws::shares_sound(s),
        s.config is Some,
        xlm_amount > 0,
        sxlm_amount > 0,
        s.total_lp > 0 ==> s.reserve_xlm > 0 && s.reserve_sxlm > 0,
        deposit_terms(
            s.total_lp as int,
            s.reserve_xlm as int,
            s.reserve_sxlm as int,
            xlm_amount as int,
            sxlm_amount as int,
            lp,
            x,
            y,
        ),
        s.total_lp == 0 ==> xlm_amount * sxlm_amount < i128::MAX,
        xlm_amount * s.total_lp <= i128::MAX,
        sxlm_amount * s.total_lp <= i128::MAX,
        lp * s.reserve_xlm <= i128::MAX,
        lp * s.reserve_sxlm <= i128::MAX,
        s.reserve_xlm + x <= i128::MAX,
        s.reserve_sxlm + y <= i128::MAX,
        s.total_lp + lp <= i128::MAX,
        index_grows(s, ledger, growth),
        user_earns(s, user, growth, gain),
        rewards_fit(s, user, ledger, growth, gain),
    ensures
        match model::add_liquidity_step(s, contract, ledger, user, xlm_amount, sxlm_amount) {
            Ok((t, out)) => out.value == lp && lp > 0 && x > 0 && y > 0,
            Err(e) => if lp <= 0 {
                e == PoolError::InsufficientLiquidityMinted
            } else {
                e == PoolError::ZeroDeposit && (x <= 0 || y <= 0)
            },
        },
{
    lemma_settles(s, user, ledger, growth, gain);
    lemma_settled(s, user, ledger);
    laws::lemma_share_of_supply(s, user);
    let total = s.total_lp;
    let rx = s.reserve_xlm;
    let ry = s.reserve_sxlm;
    if total == 0 {
        lemma_root(xlm_amount, sxlm_amount);
        arith::lemma_floor_sqrt((xlm_amount * sxlm_amount) as nat, lp as nat);
    } else {
        let fx = xlm_amount * total / rx as int;
        let fy = sxlm_amount * total / ry as int;
        lemma_quotient(xlm_amount as int, total as int, rx as int);
        lemma_quotient(sxlm_amount as int, total as int, ry as int);
        arith::lemma_mul_div_is(xlm_amount, total, rx, fx);
        arith::lemma_mul_div_is(sxlm_amount, total, ry, fy);
        assert(lp <= fx && lp <= fy) by (nonlinear_arith)
            requires
                lp * rx <= xlm_amount * total < (fx + 1) * rx,
                lp * ry <= sxlm_amount * total < (fy + 1) * ry,
                rx > 0,
                ry > 0,
        ;
        assert(lp == fx || lp == fy) by (nonlinear_arith)
            requires
                lp <= fx && lp <= fy,
                fx * rx <= xlm_amount * total,
                fy * ry <= sxlm_amount * total,
                xlm_amount * total < (lp + 1) * rx || sxlm_amount * total < (lp + 1) * ry,
                rx > 0,
                ry > 0,
        ;
        assert((lp + 1) * ry <= sxlm_amount * total <==> lp < fy) by (nonlinear_arith)
            requires
                fy * ry <= sxlm_amount * total < (fy + 1) * ry,
                lp <= fy,
                ry > 0,
        ;
        if lp < fy {
            arith::lemma_mul_div_is(lp as i128, ry, total, y);
        } else {
            arith::lemma_mul_div_is(lp as i128, rx, total, x);
        }
    }
}

/// A quotient of numbers that are not negative leaves less than the divisor.
proof fn lemma_quotient(a: int, b: int, d: int)
    requires
        a >= 0,
        b >= 0,
        d > 0,
    ensures
        0 <= a * b / d,
        a * b / d * d <= a * b < (a * b / d + 1) * d,
{
    let p = a * b;
    let q = p / d;
    assert(p >= 0) by (nonlinear_arith)
        requires
            a >= 0,
            b >= 0,
            p == a * b,
    ;
    assert(0 <= q && q * d <= p < (q + 1) * d) by (nonlinear_arith)
        requires
            p >= 0,
            d > 0,
            q == p / d,
    ;
}

/// Whether `out` is the share that `lp` of `total` LP tokens have of a reserve, rounded down.
pub open spec fn is_share(out: int, lp: int, reserve: int, total: int) -> bool {
    out * total <= lp * reserve < (out + 1) * total
}

/// An accepted withdrawal pays of each reserve the share that the LP tokens have of the supply,
/// rounded down. What is paid leaves the reserves, and the LP tokens leave the supply and the
/// user, whose rewards are settled first. Nothing else changes.
pub proof fn law_withdrawal_pays_the_share_of_each_reserve(
    s: PoolState,
    contract: Address,
    ledger: u32,
    user: Address,
    lp_amount: i128,
)
    requires
        laws::shares_sound(s),
    ensures
        match model::remove_liquidity_step(s, contract, ledger, user, lp_amount) {
            Ok((t, out)) => {
                let (x, y) = out.value;
                &&& s.config is Some
                &&& 0 < lp_amount <= lp_held(s, user)
                &&& x > 0 && y > 0
                &&& is_share(x as int, lp_amount as int, s.reserve_xlm as int, s.total_lp as int)
                &&& is_share(y as int, lp_amount as int, s.reserve_sxlm as int, s.total_lp as int)
                &&& t.reserve_xlm == s.reserve_xlm - x
                &&& t.reserve_sxlm == s.reserve_sxlm - y
                &&& t.total_lp == s.total_lp - lp_amount
                &&& lp_held(t, user) == lp_held(s, user) - lp_amount
                &&& settled_for(s, t, user, ledger)
                &&& others_keep(s, t, user)
                &&& t == (PoolState {
                    reserve_xlm: t.reserve_xlm,
                    reserve_sxlm: t.reserve_sxlm,
                    total_lp: t.total_lp,
                    reward_per_lp: t.reward_per_lp,
                    last_reward_ledger: ledger,
                    accounts: t.accounts,
                    ..s
                })
                &&& out.auth == Some(user)
                &&& out.transfers == seq![
                    Transfer {
                        token: s.config->Some_0.native_token,
                        from: contract,
                        to: user,
                        amount: x,
                    },
                    Transfer {
                        token: s.config->Some_0.sxlm_token,
                        from: contract,
                        to: user,
                        amount: y,
                    },
                ]
                &&& out.events == seq![
                    PoolEvent::LiquidityRemoved { user, lp: lp_amount, xlm: x, sxlm: y },
                ]
            },
            Err(e) => {
                &&& lp_amount <= 0 <==> e == PoolError::AmountNotPositive
                &&& e == PoolError::InsufficientLpBalance ==> lp_amount > lp_held(s, user)
                &&& e == PoolError::NotInitialized ==> s.config is None
            },
        },
{
    let step = model::remove_liquidity_step(s, contract, ledger, user, lp_amount);
    if s.accrue(user, ledger) is Some {
        lemma_settled(s, user, ledger);
    }
    if step is Ok {
        let u = s.accrue(user, ledger)->Some_0;
        let t = step->Ok_0.0;
        laws::lemma_share_of_supply(u, user);
        laws::lemma_positive_part(lp_amount, u.reserve_xlm, u.total_lp);
        laws::lemma_positive_part(lp_amount, u.reserve_sxlm, u.total_lp);
        arith::lemma_mul_div(lp_amount, u.reserve_xlm, u.total_lp);
        arith::lemma_mul_div(lp_amount, u.reserve_sxlm, u.total_lp);
        assert(t.accounts[user.id] == (LpAccount {
            balance: (u.account(user).balance - lp_amount) as i128,
            ..u.account(user)
        }));
    }
}

/// A withdrawal of LP tokens that the user holds is accepted whenever the shares of both reserves
/// are positive and the numbers fit, and refused for an insufficient output exactly if a share
/// is nothing.
pub proof fn law_withdrawal_is_accepted(
    s: PoolState,
    contract: Address,
    ledger: u32,
    user: Address,
    lp_amount: i128,
    growth: int,
    gain: int,
    x: int,
    y: int,
)
    requires
        laws::shares_sound(s),
        s.config is Some,
        s.reserve_xlm >= 0,
        s.reserve_sxlm >= 0,
        0 < lp_amount <= lp_held(s, user),
        is_share(x, lp_amount as int, s.reserve_xlm as int, s.total_lp as int),
        is_share(y, lp_amount as int, s.reserve_sxlm as int, s.total_lp as int),
        lp_amount * s.reserve_xlm <= i128::MAX,
        lp_amount * s.reserve_sxlm <= i128::MAX,
        index_grows(s, ledger, growth),
        user_earns(s, user, growth, gain),
        rewards_fit(s, user, ledger, growth, gain),
    ensures
        match model::remove_liquidity_step(s, contract, ledger, user, lp_amount) {
            Ok((t, out)) => out.value.0 == x && out.value.1 == y && x > 0 && y > 0,
            Err(e) => e == PoolError::InsufficientOutput && (x == 0 || y == 0),
        },
{
    lemma_settles(s, user, ledger, growth, gain);
    lemma_settled(s, user, ledger);
    laws::lemma_share_of_supply(s, user);
    assert(lp_amount * s.reserve_xlm >= 0 && lp_amount * s.reserve_sxlm >= 0) by (nonlinear_arith)
        requires
            lp_amount > 0,
            s.reserve_xlm >= 0,
            s.reserve_sxlm >= 0,
    ;
    arith::lemma_mul_div_is(lp_amount, s.reserve_xlm, s.total_lp, x);
    arith::lemma_mul_div_is(lp_amount, s.reserve_sxlm, s.total_lp, y);
    assert(x <= s.reserve_xlm && y <= s.reserve_sxlm) by (nonlinear_arith)
        requires
            x * s.total_lp <= lp_amount * s.reserve_xlm,
            y * s.total_lp <= lp_amount * s.reserve_sxlm,
            0 < lp_amount <= s.total_lp,
            s.reserve_xlm >= 0,
            s.reserve_sxlm >= 0,
    ;
}

/// Nobody gives back more LP tokens than they hold.
pub proof fn law_withdrawal_needs_lp_tokens(
    s: PoolState,
    contract: Address,
    ledger: u32,
    user: Address,
    lp_amount: i128,
    growth: int,
    gain: int,
)
    requires
        laws::shares_sound(s),
        lp_amount > 0,
        lp_amount > lp_held(s, user),
        index_grows(s, ledger, growth),
        user_earns(s, user, growth, gain),
        rewards_fit(s, user, ledger, growth, gain),
    ensures
        model::remove_liquidity_step(s, contract, ledger, user, lp_amount) matches Err(e) && e
            == PoolError::InsufficientLpBalance,
{
    lemma_settles(s, user, ledger, growth, gain);
    lemma_settled(s, user, ledger);
}

// ---------------------------------------------------------------------------
// Swaps
// ---------------------------------------------------------------------------

/// Whether `kept` is what is left of `amount` after a fee in basis points, rounded down.
pub open spec fn is_after_fee(kept: int, amount: int, fee_bps: int) -> bool {
    kept * 10_000 <= amount * (10_000 - fee_bps) < (kept + 1) * 10_000
}

/// Whether `left` is what a reserve falls to when `kept` joins the other reserve: the product of
/// the reserves stays, but for rounding down.
pub open spec fn is_left(left: int, reserve_in: int, reserve_out: int, kept: int) -> bool {
    left * (reserve_in + kept) <= reserve_in * reserve_out < (left + 1) * (reserve_in + kept)
}

/// Whether `cut` is the protocol's part of a fee that was taken, rounded down.
pub open spec fn is_cut(cut: int, taken: int, protocol_fee_bps: int, fee_bps: int) -> bool {
    cut * fee_bps <= taken * protocol_fee_bps < (cut + 1) * fee_bps
}

/// Whether `after` is the buffer `before` with the price `price` of `ledger`: it stands last, in
/// the place of one of the same ledger. A buffer of a hundred samples gives up its oldest one
/// for a sample of another ledger.
pub open spec fn sampled(
    before: Seq<TwapSample>,
    after: Seq<TwapSample>,
    ledger: u32,
    price: int,
) -> bool {
    let n = before.len() as int;
    let replaces = n > 0 && before[n - 1].ledger == ledger;
    let gives_up: int = if !replaces && n >= 100 {
        1
    } else {
        0
    };
    &&& after.len() == n + 1 - gives_up - (if replaces {
        1int
    } else {
        0int
    })
    &&& after[after.len() - 1].ledger == ledger
    &&& after[after.len() - 1].price == price
    &&& forall|k: int|
        0 <= k < after.len() - 1 ==> #[trigger] after[k] == before[k + gives_up]
}

/// Whether `price` is what `rx` XLM and `ry` sXLM make: XLM per sXLM, scaled by `10^7` and rounded
/// down.
pub open spec fn is_price(price: int, rx: int, ry: int) -> bool {
    price * ry <= rx * 10_000_000 < (price + 1) * ry
}

/// An accepted swap of XLM pays out what leaves the product of the reserves as it was, with the
/// input after the fee, rounded in favour of the trader by less than one: at least the minimum,
/// and less than the reserve. The whole input joins the reserve but for the protocol's cut of
/// the fee, which is set aside, and the new price is recorded. Nothing else changes.
pub proof fn law_swap_of_xlm_terms(
    s: PoolState,
    contract: Address,
    ledger: u32,
    user: Address,
    xlm_amount: i128,
    min_out: i128,
    kept: int,
)
    requires
        laws::shares_sound(s),
        s.config is Some,
        is_after_fee(kept, xlm_amount as int, s.config->Some_0.fee_bps as int),
    ensures
        match model::swap_xlm_to_sxlm_step(s, contract, ledger, user, xlm_amount, min_out) {
            Ok((t, out)) => {
                let cut = t.accrued_protocol_fees - s.accrued_protocol_fees;
                &&& xlm_amount > 0
                &&& s.reserve_xlm > 0 && s.reserve_sxlm > 0
                &&& 0 < s.config->Some_0.fee_bps < 10_000
                &&& is_left(
                    s.reserve_sxlm - out.value,
                    s.reserve_xlm as int,
                    s.reserve_sxlm as int,
                    kept,
                )
                &&& 0 < out.value < s.reserve_sxlm
                &&& out.value >= min_out
                &&& is_cut(
                    cut,
                    xlm_amount - kept,
                    s.protocol_fee_bps as int,
                    s.config->Some_0.fee_bps as int,
                )
                &&& t.reserve_xlm == s.reserve_xlm + xlm_amount - cut
                &&& t.reserve_sxlm == s.reserve_sxlm - out.value
                &&& t.samples.len() > 0
                &&& sampled(
                    s.samples,
                    t.samples,
                    ledger,
                    t.samples[t.samples.len() - 1].price as int,
                )
                &&& t.reserve_xlm >= 0 ==> is_price(
                    t.samples[t.samples.len() - 1].price as int,
                    t.reserve_xlm as int,
                    t.reserve_sxlm as int,
                )
                &&& t == (PoolState {
                    reserve_xlm: t.reserve_xlm,
                    reserve_sxlm: t.reserve_sxlm,
                    accrued_protocol_fees: t.accrued_protocol_fees,
                    samples: t.samples,
                    ..s
                })
                &&& out.auth == Some(user)
                &&& out.transfers == seq![
                    Transfer {
                        token: s.config->Some_0.native_token,
                        from: user,
                        to: contract,
                        amount: xlm_amount,
                    },
                    Transfer {
                        token: s.config->Some_0.sxlm_token,
                        from: contract,
                        to: user,
                        amount: out.value,
                    },
                ]
                &&& out.events == seq![
                    PoolEvent::Swapped { user, amount_in: xlm_amount, amount_out: out.value },
                ]
            },
            Err(e) => {
                &&& xlm_amount <= 0 <==> e == PoolError::AmountNotPositive
                &&& e == PoolError::NoLiquidity ==> s.reserve_xlm <= 0 || s.reserve_sxlm <= 0
                &&& e != PoolError::NotInitialized
            },
        },
{
    let step = model::swap_xlm_to_sxlm_step(s, contract, ledger, user, xlm_amount, min_out);
    if step is Ok {
        let t = step->Ok_0.0;
        let fee_bps = s.config->Some_0.fee_bps;
        let q = model::swap_quote(
            s.fee_bps(),
            s.reserve_xlm,
            s.reserve_sxlm,
            xlm_amount,
            min_out,
        )->Ok_0;
        laws::lemma_kept(s.fee_bps(), s.reserve_xlm, s.reserve_sxlm, xlm_amount, min_out);
        lemma_after_fee(xlm_amount, fee_bps, q.kept, kept);
        laws::lemma_swap_output(s.reserve_xlm, s.reserve_sxlm, q.kept);
        arith::lemma_mul_div((xlm_amount - q.kept) as i128, s.protocol_fee_bps, fee_bps);
        lemma_recorded(s.samples, ledger, t.reserve_xlm, t.reserve_sxlm);
    }
}

/// What is left after the fee is a positive part of the amount and one number only; the fee is
/// not the whole.
proof fn lemma_after_fee(amount: i128, fee_bps: i128, a: i128, b: int)
    requires
        amount > 0,
        fee_bps >= 0,
        a > 0,
        model::after_fee(amount, fee_bps) == Some(a),
        is_after_fee(b, amount as int, fee_bps as int),
    ensures
        fee_bps < 10_000,
        a == b,
{
    let kept_bps = 10_000 - fee_bps;
    let p = amount * kept_bps;
    if kept_bps <= 0 {
        assert(p <= 0) by (nonlinear_arith)
            requires
                amount > 0,
                kept_bps <= 0,
                p == amount * kept_bps,
        ;
    } else {
        arith::lemma_mul_div(amount, kept_bps as i128, 10_000);
    }
}

/// What recording a price does to the samples.
proof fn lemma_recorded(samples: Seq<TwapSample>, ledger: u32, rx: i128, ry: i128)
    requires
        ry > 0,
        super::twap::recorded(samples, ledger, rx, ry) is Some,
    ensures
        ({
            let after = super::twap::recorded(samples, ledger, rx, ry)->Some_0;
            let price = after[after.len() - 1].price as int;
            &&& after.len() > 0
            &&& sampled(samples, after, ledger, price)
            &&& rx >= 0 ==> is_price(price, rx as int, ry as int)
        }),
{
    if rx >= 0 {
        arith::lemma_mul_div(rx, 10_000_000, ry);
    }
}

/// What a swap pays out, where the numbers fit: it is quoted exactly if it pays something, leaves
/// something in the reserve and reaches the minimum.
proof fn lemma_quoted(
    fee_bps: i128,
    reserve_in: i128,
    reserve_out: i128,
    amount: i128,
    min_out: i128,
    kept: int,
    left: int,
)
    requires
        0 <= fee_bps <= 10_000,
        amount > 0,
        reserve_in > 0,
        reserve_out > 0,
        is_after_fee(kept, amount as int, fee_bps as int),
        is_left(left, reserve_in as int, reserve_out as int, kept),
        amount * (10_000 - fee_bps) <= i128::MAX,
        reserve_in + kept <= i128::MAX,
        reserve_in * reserve_out <= i128::MAX,
    ensures
        0 <= kept <= amount,
        0 <= left <= reserve_out,
        match model::swap_quote(fee_bps, reserve_in, reserve_out, amount, min_out) {
            Ok(q) => {
                &&& q.kept == kept && q.out == reserve_out - left
                &&& 0 < left < reserve_out
                &&& min_out <= reserve_out - left
            },
            Err(e) => if left == 0 || left == reserve_out {
                e == PoolError::InsufficientLiquidity
            } else {
                e == PoolError::Slippage && reserve_out - left < min_out
            },
        },
{
    let kept_bps = (10_000 - fee_bps) as i128;
    assert(amount * kept_bps >= 0) by (nonlinear_arith)
        requires
            amount > 0,
            kept_bps >= 0,
    ;
    arith::lemma_mul_div_is(amount, kept_bps, 10_000, kept);
    assert(kept <= amount) by (nonlinear_arith)
        requires
            kept * 10_000 <= amount * kept_bps,
            amount > 0,
            0 <= kept_bps <= 10_000,
    ;
    assert(reserve_in * reserve_out >= 0) by (nonlinear_arith)
        requires
            reserve_in > 0,
            reserve_out > 0,
    ;
    arith::lemma_mul_div_is(reserve_in, reserve_out, (reserve_in + kept) as i128, left);
    assert(left <= reserve_out) by (nonlinear_arith)
        requires
            left * (reserve_in + kept) <= reserve_in * reserve_out,
            reserve_in > 0,
            reserve_out > 0,
            kept >= 0,
    ;
}

/// A swap of XLM in an initialized pool with reserves is accepted whenever the output is positive,
/// leaves something in the reserve and reaches the minimum, and the numbers fit; and it is
/// refused for the liquidity or for the minimum exactly if one of these fails.
pub proof fn law_swap_of_xlm_is_accepted(
    s: PoolState,
    contract: Address,
    ledger: u32,
    user: Address,
    xlm_amount: i128,
    min_out: i128,
    kept: int,
    left: int,
    cut: int,
)
    requires
        laws::shares_sound(s),
        s.config is Some,
        0 < s.config->Some_0.fee_bps <= 10_000,
        xlm_amount > 0,
        s.reserve_xlm > 0,
        s.reserve_sxlm > 0,
        is_after_fee(kept, xlm_amount as int, s.config->Some_0.fee_bps as int),
        is_left(left, s.reserve_xlm as int, s.reserve_sxlm as int, kept),
        is_cut(
            cut,
            xlm_amount - kept,
            s.protocol_fee_bps as int,
            s.config->Some_0.fee_bps as int,
        ),
        xlm_amount * (10_000 - s.config->Some_0.fee_bps) <= i128::MAX,
        s.reserve_xlm * s.reserve_sxlm <= i128::MAX,
        (xlm_amount - kept) * s.protocol_fee_bps <= i128::MAX,
        s.accrued_protocol_fees + cut <= i128::MAX,
        s.reserve_xlm + xlm_amount <= i128::MAX,
        0 <= (s.reserve_xlm + xlm_amount - cut) * 10_000_000 <= i128::MAX,
    ensures
        match model::swap_xlm_to_sxlm_step(s, contract, ledger, user, xlm_amount, min_out) {
            Ok((t, out)) => {
                &&& out.value == s.reserve_sxlm - left
                &&& 0 < left < s.reserve_sxlm
                &&& min_out <= out.value
                &&& t.accrued_protocol_fees == s.accrued_protocol_fees + cut
            },
            Err(e) => if left == 0 || left == s.reserve_sxlm {
                e == PoolError::InsufficientLiquidity
            } else {
                e == PoolError::Slippage && s.reserve_sxlm - left < min_out
            },
        },
{
    let fee_bps = s.config->Some_0.fee_bps;
    assert(kept <= xlm_amount) by (nonlinear_arith)
        requires
            kept * 10_000 <= xlm_amount * (10_000 - fee_bps),
            xlm_amount > 0,
            0 <= fee_bps <= 10_000,
    ;
    lemma_quoted(fee_bps, s.reserve_xlm, s.reserve_sxlm, xlm_amount, min_out, kept, left);
    let taken = (xlm_amount - kept) as i128;
    assert(taken * s.protocol_fee_bps >= 0) by (nonlinear_arith)
        requires
            taken >= 0,
            s.protocol_fee_bps >= 0,
    ;
    arith::lemma_mul_div_is(taken, s.protocol_fee_bps, fee_bps, cut);
    let rx = (s.reserve_xlm + xlm_amount - cut) as i128;
    if 0 < left {
        lemma_quotient(rx as int, 10_000_000, left);
        arith::lemma_mul_div_is(rx, 10_000_000, left as i128, rx * 10_000_000 / left);
    }
}

/// An accepted swap of sXLM pays out what leaves the product of the reserves as it was, with the
/// input after the fee, rounded in favour of the trader by less than one: at least the minimum,
/// and less than the reserve. The whole input joins the reserve and the new price is recorded.
/// The protocol takes no cut, and nothing else changes.
pub proof fn law_swap_of_sxlm_terms(
    s: PoolState,
    contract: Address,
    ledger: u32,
    user: Address,
    sxlm_amount: i128,
    min_out: i128,
    kept: int,
)
    requires
        laws::shares_sound(s),
        s.config is Some,
        is_after_fee(kept, sxlm_amount as int, s.config->Some_0.fee_bps as int),
    ensures
        match model::swap_sxlm_to_xlm_step(s, contract, ledger, user, sxlm_amount, min_out) {
            Ok((t, out)) => {
                &&& sxlm_amount > 0
                &&& s.reserve_xlm > 0 && s.reserve_sxlm > 0
                &&& s.config->Some_0.fee_bps < 10_000
                &&& is_left(
                    s.reserve_xlm - out.value,
                    s.reserve_sxlm as int,
                    s.reserve_xlm as int,
                    kept,
                )
                &&& 0 < out.value < s.reserve_xlm
                &&& out.value >= min_out
                &&& t.reserve_xlm == s.reserve_xlm - out.value
                &&& t.reserve_sxlm == s.reserve_sxlm + sxlm_amount
                &&& t.samples.len() > 0
                &&& sampled(
                    s.samples,
                    t.samples,
                    ledger,
                    t.samples[t.samples.len() - 1].price as int,
                )
                &&& is_price(
                    t.samples[t.samples.len() - 1].price as int,
                    t.reserve_xlm as int,
                    t.reserve_sxlm as int,
                )
                &&& t == (PoolState {
                    reserve_xlm: t.reserve_xlm,
                    reserve_sxlm: t.reserve_sxlm,
                    samples: t.samples,
                    ..s
                })
                &&& out.auth == Some(user)
                &&& out.transfers == seq![
                    Transfer {
                        token: s.config->Some_0.sxlm_token,
                        from: user,
                        to: contract,
                        amount: sxlm_amount,
                    },
                    Transfer {
                        token: s.config->Some_0.native_token,
                        from: contract,
                        to: user,
                        amount: out.value,
                    },
                ]
                &&& out.events == seq![
                    PoolEvent::Swapped { user, amount_in: sxlm_amount, amount_out: out.value },
                ]
            },
            Err(e) => {
                &&& sxlm_amount <= 0 <==> e == PoolError::AmountNotPositive
                &&& e == PoolError::NoLiquidity ==> s.reserve_xlm <= 0 || s.reserve_sxlm <= 0
                &&& e != PoolError::NotInitialized
            },
        },
{
    let step = model::swap_sxlm_to_xlm_step(s, contract, ledger, user, sxlm_amount, min_out);
    if step is Ok {
        let t = step->Ok_0.0;
        let q = model::swap_quote(
            s.fee_bps(),
            s.reserve_sxlm,
            s.reserve_xlm,
            sxlm_amount,
            min_out,
        )->Ok_0;
        laws::lemma_kept(s.fee_bps(), s.reserve_sxlm, s.reserve_xlm, sxlm_amount, min_out);
        lemma_after_fee(sxlm_amount, s.config->Some_0.fee_bps, q.kept, kept);
        laws::lemma_swap_output(s.reserve_sxlm, s.reserve_xlm, q.kept);
        lemma_recorded(s.samples, ledger, t.reserve_xlm, t.reserve_sxlm);
    }
}

/// A swap of sXLM in an initialized pool with reserves is accepted whenever the output is
/// positive, leaves something in the reserve and reaches the minimum, and the numbers fit; and it
/// is refused for the liquidity or for the minimum exactly if one of these fails.
pub proof fn law_swap_of_sxlm_is_accepted(
    s: PoolState,
    contract: Address,
    ledger: u32,
    user: Address,
    sxlm_amount: i128,
    min_out: i128,
    kept: int,
    left: int,
)
    requires
        s.config is Some,
        0 <= s.config->Some_0.fee_bps <= 10_000,
        sxlm_amount > 0,
        s.reserve_xlm > 0,
        s.reserve_sxlm > 0,
        is_after_fee(kept, sxlm_amount as int, s.config->Some_0.fee_bps as int),
        is_left(left, s.reserve_sxlm as int, s.reserve_xlm as int, kept),
        sxlm_amount * (10_000 - s.config->Some_0.fee_bps) <= i128::MAX,
        s.reserve_xlm * s.reserve_sxlm <= i128::MAX,
        s.reserve_sxlm + sxlm_amount <= i128::MAX,
        left * 10_000_000 <= i128::MAX,
    ensures
        match model::swap_sxlm_to_xlm_step(s, contract, ledger, user, sxlm_amount, min_out) {
            Ok((t, out)) => {
                &&& out.value == s.reserve_xlm - left
                &&& 0 < left < s.reserve_xlm
                &&& min_out <= out.value
            },
            Err(e) => if left == 0 || left == s.reserve_xlm {
                e == PoolError::InsufficientLiquidity
            } else {
                e == PoolError::Slippage && s.reserve_xlm - left < min_out
            },
        },
{
    let fee_bps = s.config->Some_0.fee_bps;
    assert(kept <= sxlm_amount) by (nonlinear_arith)
        requires
            kept * 10_000 <= sxlm_amount * (10_000 - fee_bps),
            sxlm_amount > 0,
            0 <= fee_bps <= 10_000,
    ;
    assert(s.reserve_xlm * s.reserve_sxlm == s.reserve_sxlm * s.reserve_xlm) by (nonlinear_arith);
    lemma_quoted(fee_bps, s.reserve_sxlm, s.reserve_xlm, sxlm_amount, min_out, kept, left);
    let ry = (s.reserve_sxlm + sxlm_amount) as i128;
    lemma_quotient(left, 10_000_000, ry as int);
    arith::lemma_mul_div_is(left as i128, 10_000_000, ry, left * 10_000_000 / ry as int);
}

/// There are no swaps before initialization.
pub proof fn law_no_swaps_before_initialization(
    s: PoolState,
    contract: Address,
    ledger: u32,
    user: Address,
    amount: i128,
    min_out: i128,
)
    requires
        s.config is None,
    ensures
        model::swap_xlm_to_sxlm_step(s, contract, ledger, user, amount, min_out) is Err,
        model::swap_sxlm_to_xlm_step(s, contract, ledger, user, amount, min_out) is Err,
{
}

/// Without liquidity there are no swaps, and that is the reason given for a positive amount, if
/// the fee is no more than the whole and the number that it is taken from fits.
pub proof fn law_no_swaps_without_reserves(
    s: PoolState,
    contract: Address,
    ledger: u32,
    user: Address,
    amount: i128,
    min_out: i128,
)
    requires
        s.reserve_xlm <= 0 || s.reserve_sxlm <= 0,
    ensures
        model::swap_xlm_to_sxlm_step(s, contract, ledger, user, amount, min_out) is Err,
        model::swap_sxlm_to_xlm_step(s, contract, ledger, user, amount, min_out) is Err,
        s.config matches Some(c) && amount > 0 && 0 <= c.fee_bps <= 10_000 && amount * (10_000
            - c.fee_bps) <= i128::MAX ==> {
            &&& model::swap_xlm_to_sxlm_step(s, contract, ledger, user, amount, min_out)->Err_0
                == PoolError::NoLiquidity
            &&& model::swap_sxlm_to_xlm_step(s, contract, ledger, user, amount, min_out)->Err_0
                == PoolError::NoLiquidity
        },
{
    if s.config is Some && amount > 0 && 0 <= s.config->Some_0.fee_bps <= 10_000 {
        let kept_bps = 10_000 - s.config->Some_0.fee_bps;
        let p = amount * kept_bps;
        assert(p >= 0) by (nonlinear_arith)
            requires
                amount > 0,
                kept_bps >= 0,
                p == amount * kept_bps,
        ;
        if p <= i128::MAX {
            lemma_quotient(amount as int, kept_bps, 10_000);
            arith::lemma_mul_div_is(amount, kept_bps as i128, 10_000, p / 10_000);
        }
    }
}

// ---------------------------------------------------------------------------
// Fees and mining
// ---------------------------------------------------------------------------

/// Initialization happens once. It fixes the admin, the tokens and the swap fee, sets the
/// protocol's part of the fee to 5 basis points, and starts without fees, rate or rewards.
pub proof fn law_initialization(
    s: PoolState,
    ledger: u32,
    admin: Address,
    sxlm_token: Address,
    native_token: Address,
    fee_bps: u32,
)
    ensures
        match model::initialize_step(s, ledger, admin, sxlm_token, native_token, fee_bps) {
            Ok((t, out)) => {
                &&& s.config is None
                &&& t.config == Some(
                    PoolConfig { admin, sxlm_token, native_token, fee_bps: fee_bps as i128 },
                )
                &&& t.protocol_fee_bps == 5 && t.accrued_protocol_fees == 0
                &&& t.mining_rate == 0 && t.reward_vault == 0 && t.reward_per_lp == 0
                &&& t.last_reward_ledger == ledger
                &&& t.reserve_xlm == s.reserve_xlm && t.reserve_sxlm == s.reserve_sxlm
                &&& t.total_lp == s.total_lp && t.accounts == s.accounts
                &&& t.samples == s.samples
                &&& out.auth is None && out.transfers.len() == 0 && out.events.len() == 0
            },
            Err(e) => s.config is Some && e == PoolError::AlreadyInitialized,
        },
{
}

/// Collecting fees is accepted in every initialized pool: the admin receives all fees that were
/// set aside, and none are left. Where there are none, nothing is transferred.
pub proof fn law_fees_go_to_the_admin(s: PoolState, contract: Address)
    requires
        s.accrued_protocol_fees >= 0,
    ensures
        match model::collect_protocol_fees_step(s, contract) {
            Ok((t, out)) => {
                let c = s.config->Some_0;
                let fees = s.accrued_protocol_fees;
                &&& s.config is Some
                &&& out.value == fees
                &&& out.auth == Some(c.admin)
                &&& t == (PoolState { accrued_protocol_fees: 0, ..s })
                &&& if fees > 0 {
                    &&& out.transfers == seq![
                        Transfer {
                            token: c.native_token,
                            from: contract,
                            to: c.admin,
                            amount: fees,
                        },
                    ]
                    &&& out.events == seq![
                        PoolEvent::FeesCollected { admin: c.admin, amount: fees },
                    ]
                } else {
                    out.transfers.len() == 0 && out.events.len() == 0
                }
            },
            Err(e) => s.config is None && e == PoolError::NotInitialized,
        },
{
}

/// The protocol's part of the fee is set as asked, with the admin's authorization, in every
/// initialized pool.
pub proof fn law_protocol_fee_is_set(s: PoolState, bps: u32)
    ensures
        match model::set_protocol_fee_bps_step(s, bps) {
            Ok((t, out)) => {
                &&& s.config is Some
                &&& t == (PoolState { protocol_fee_bps: bps as i128, ..s })
                &&& out.auth == Some(s.config->Some_0.admin)
                &&& out.transfers.len() == 0 && out.events.len() == 0
            },
            Err(e) => s.config is None && e == PoolError::NotInitialized,
        },
{
}

/// The admin of an initialized pool may set any mining rate at any ledger. What the old rate gave
/// out so far is shared first; nobody's account changes. Only a number that does not fit stops
/// it.
pub proof fn law_mining_rate_is_set(
    s: PoolState,
    ledger: u32,
    admin: Address,
    rate: i128,
    growth: int,
)
    requires
        index_grows(s, ledger, growth),
    ensures
        match model::set_mining_rate_step(s, ledger, admin, rate) {
            Ok((t, out)) => {
                &&& s.config is Some && s.config->Some_0.admin == admin
                &&& t == (PoolState {
                    mining_rate: rate,
                    last_reward_ledger: ledger,
                    reward_per_lp: (s.reward_per_lp + growth) as i128,
                    ..s
                })
                &&& s.reward_per_lp + growth <= i128::MAX
                &&& out.auth == Some(admin)
                &&& out.transfers.len() == 0
                &&& out.events == seq![PoolEvent::MiningRateSet { rate }]
            },
            Err(e) => match s.config {
                None => e == PoolError::NotInitialized,
                Some(c) => if c.admin != admin {
                    e == PoolError::NotAdmin
                } else {
                    &&& e == PoolError::Arithmetic
                    &&& s.reward_per_lp + growth > i128::MAX || (ledger - s.last_reward_ledger)
                        * s.mining_rate * 10_000_000 > i128::MAX
                },
            },
        },
{
    if s.total_lp > 0 && s.mining_rate > 0 && ledger > s.last_reward_ledger {
        let elapsed = (ledger - s.last_reward_ledger) as i128;
        let m = elapsed * s.mining_rate;
        assert(0 <= m <= m * 10_000_000) by (nonlinear_arith)
            requires
                elapsed >= 0,
                s.mining_rate > 0,
                m == elapsed * s.mining_rate,
        ;
        if m * 10_000_000 <= i128::MAX {
            arith::lemma_mul_div_is(m as i128, 10_000_000, s.total_lp, growth);
        }
    }
}

/// Anybody may fund the rewards of an initialized pool with a positive amount, which is taken from
/// them and joins the vault.
pub proof fn law_funding_fills_the_vault(
    s: PoolState,
    contract: Address,
    funder: Address,
    amount: i128,
)
    ensures
        match model::fund_mining_rewards_step(s, contract, funder, amount) {
            Ok((t, out)) => {
                &&& s.config is Some && amount > 0
                &&& t.reward_vault == s.reward_vault + amount
                &&& t == (PoolState { reward_vault: t.reward_vault, ..s })
                &&& out.auth == Some(funder)
                &&& out.transfers == seq![
                    Transfer {
                        token: s.config->Some_0.native_token,
                        from: funder,
                        to: contract,
                        amount,
                    },
                ]
                &&& out.events == seq![PoolEvent::MiningFunded { funder, amount }]
            },
            Err(e) => if amount <= 0 {
                e == PoolError::AmountNotPositive
            } else if s.config is None {
                e == PoolError::NotInitialized
            } else {
                e == PoolError::Arithmetic && s.reward_vault + amount > i128::MAX
            },
        },
{
}

/// A claim in an initialized pool pays the rewards kept for the user and what they earned since
/// the last credit, or all that the vault holds where that is less. The rest stays with the
/// user. It is refused for an empty vault exactly if there is something to pay and nothing in
/// the vault, and goes through without a transfer where there is nothing to pay.
pub proof fn law_claim_pays_what_was_earned(
    s: PoolState,
    contract: Address,
    ledger: u32,
    user: Address,
    growth: int,
    gain: int,
)
    requires
        laws::shares_sound(s),
        s.config is Some,
        index_grows(s, ledger, growth),
        user_earns(s, user, growth, gain),
    ensures
        ({
            let due = kept_for(s, user) + gain;
            match model::claim_mining_rewards_step(s, contract, ledger, user) {
                Ok((t, out)) => {
                    &&& out.value == (if due < s.reward_vault {
                        due
                    } else {
                        s.reward_vault as int
                    })
                    &&& t.reward_vault == s.reward_vault - out.value
                    &&& kept_for(t, user) == due - out.value
                    &&& lp_held(t, user) == lp_held(s, user)
                    &&& paid_up_to(t, user) == s.reward_per_lp + growth
                    &&& t.reward_per_lp == s.reward_per_lp + growth
                    &&& t.last_reward_ledger == ledger
                    &&& others_keep(s, t, user)
                    &&& t == (PoolState {
                        reward_vault: t.reward_vault,
                        reward_per_lp: t.reward_per_lp,
                        last_reward_ledger: ledger,
                        accounts: t.accounts,
                        ..s
                    })
                    &&& out.auth == Some(user)
                    &&& if due > 0 {
                        &&& out.transfers == seq![
                            Transfer {
                                token: s.config->Some_0.native_token,
                                from: contract,
                                to: user,
                                amount: out.value,
                            },
                        ]
                        &&& out.events == seq![
                            PoolEvent::RewardsClaimed { user, amount: out.value },
                        ]
                    } else {
                        out.transfers.len() == 0 && out.events.len() == 0
                    }
                },
                Err(e) => {
                    ||| e == PoolError::RewardVaultEmpty && due > 0 && s.reward_vault == 0
                    ||| e == PoolError::Arithmetic && !rewards_fit(s, user, ledger, growth, gain)
                },
            }
        }),
{
    if rewards_fit(s, user, ledger, growth, gain) {
        lemma_settles(s, user, ledger, growth, gain);
    }
    if s.accrue(user, ledger) is Some {
        let u = s.accrue(user, ledger)->Some_0;
        lemma_settled(s, user, ledger);
        lemma_same_growth(s, ledger, growth, u.reward_per_lp - s.reward_per_lp);
        laws::lemma_share_of_supply(u, user);
        assert(kept_for(u, user) == kept_for(s, user) + gain);
    }
}

/// What is read of an account, of the reserves and of the configuration is what is kept; a user
/// without an account has nothing.
pub proof fn law_accounts_are_read_as_kept(s: PoolState, user: Address)
    ensures
        s.account(user).balance == lp_held(s, user),
        s.account(user).reward_paid == paid_up_to(s, user),
        s.account(user).pending_rewards == kept_for(s, user),
        s.config is Some ==> s.fee_bps() == s.config->Some_0.fee_bps,
        s.config is None ==> s.fee_bps() == 30,
{
}

/// A new pool holds nothing and is not initialized.
pub proof fn law_new_pool_is_empty(user: Address)
    ensures
        ({
            let s = PoolState::blank();
            &&& s.config is None
            &&& s.reserve_xlm == 0 && s.reserve_sxlm == 0 && s.total_lp == 0
            &&& s.protocol_fee_bps == 0 && s.accrued_protocol_fees == 0
            &&& s.mining_rate == 0 && s.reward_vault == 0 && s.reward_per_lp == 0
            &&& s.last_reward_ledger == 0
            &&& s.samples.len() == 0
            &&& !s.accounts.contains_key(user.id)
        }),
{
}

} // verus!
