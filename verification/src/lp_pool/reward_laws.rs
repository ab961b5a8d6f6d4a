//! What holds of the mining rewards whatever calls the pool receives.

use vstd::prelude::*;
use crate::arith;
use crate::arith::RATE_PRECISION;
use crate::host::Address;
use crate::sums;
use super::laws;
use super::laws::PoolCall;
use super::model;
use super::model::{LpAccount, PoolError, PoolState};

verus! {

/// What an account is owed at the reward index `index`, scaled by `RATE_PRECISION`: its
/// pending rewards, and its LP tokens times the growth of the index since its checkpoint.
pub open spec fn owed_to(index: i128) -> spec_fn(u32, LpAccount) -> int {
    |id: u32, account: LpAccount|
        account.pending_rewards * RATE_PRECISION + account.balance * (index - account.reward_paid)
}

/// What the pool owes to all accounts, scaled by `RATE_PRECISION`.
pub open spec fn owed(s: PoolState) -> int {
    sums::total(s.accounts, owed_to(s.reward_per_lp))
}

/// What the mining rate gives out from the last checkpoint to `ledger`.
pub open spec fn minted(s: PoolState, ledger: u32) -> int {
    if s.mining_rate > 0 && ledger > s.last_reward_ledger {
        s.mining_rate * (ledger - s.last_reward_ledger)
    } else {
        0
    }
}

/// What a call pays out of the reward vault.
pub open spec fn claimed(s: PoolState, contract: Address, ledger: u32, call: PoolCall) -> int {
    match call {
        PoolCall::ClaimMiningRewards { user } => match model::claim_mining_rewards_step(
            s,
            contract,
            ledger,
            user,
        ) {
            Ok((_, out)) => out.value as int,
            Err(_) => 0,
        },
        _ => 0,
    }
}

/// What the growth of the reward index adds to what is owed is at most what was minted.
proof fn lemma_index_growth(s: PoolState, ledger: u32)
    requires
        laws::shares_sound(s),
        s.reward_index(ledger) is Some,
    ensures
        ({
            let index = s.reward_index(ledger)->Some_0;
            &&& index >= s.reward_per_lp
            &&& sums::total(s.accounts, owed_to(index)) == owed(s) + (index - s.reward_per_lp)
                * s.total_lp
            &&& (index - s.reward_per_lp) * s.total_lp <= minted(s, ledger) * RATE_PRECISION
            &&& s.total_lp > 0 ==> minted(s, ledger) * RATE_PRECISION < (index - s.reward_per_lp
                + 1) * s.total_lp
        }),
{
    let index = s.reward_index(ledger)->Some_0;
    let d = index - s.reward_per_lp;
    laws::lemma_reward_index(s, ledger);
    assert forall|id: u32| #[trigger] s.accounts.contains_key(id) implies owed_to(index)(
        id,
        s.accounts[id],
    ) == owed_to(s.reward_per_lp)(id, s.accounts[id]) + d * laws::lp_of()(id, s.accounts[id]) by {
        let a = s.accounts[id];
        assert(a.balance * (index - a.reward_paid) == a.balance * (s.reward_per_lp - a.reward_paid)
            + d * a.balance) by (nonlinear_arith)
            requires
                d == index - s.reward_per_lp,
        ;
    }
    sums::lemma_total_shift(
        s.accounts,
        owed_to(s.reward_per_lp),
        owed_to(index),
        laws::lp_of(),
        d,
    );
    if s.total_lp > 0 && s.mining_rate > 0 && ledger > s.last_reward_ledger {
        let elapsed = (ledger - s.last_reward_ledger) as i128;
        let m = elapsed * s.mining_rate;
        assert(m >= 0 && m == s.mining_rate * (ledger - s.last_reward_ledger))
            by (nonlinear_arith)
            requires
                elapsed >= 0,
                elapsed == ledger - s.last_reward_ledger,
                s.mining_rate > 0,
                m == elapsed * s.mining_rate,
        ;
        arith::lemma_mul_div(m as i128, RATE_PRECISION, s.total_lp);
    } else {
        assert(d * s.total_lp == 0) by (nonlinear_arith)
            requires
                d == 0,
        ;
        assert((d + 1) * s.total_lp == s.total_lp) by (nonlinear_arith)
            requires
                d == 0,
        ;
        assert(minted(s, ledger) >= 0) by {
            if s.mining_rate > 0 && ledger > s.last_reward_ledger {
                assert(s.mining_rate * (ledger - s.last_reward_ledger) >= 0) by (nonlinear_arith)
                    requires
                        s.mining_rate > 0,
                        ledger > s.last_reward_ledger,
                ;
            }
        }
    }
}

/// Advancing and crediting rewards adds at most what was minted to what is owed, and leaves
/// the account without uncredited growth.
proof fn lemma_accrue_owed(s: PoolState, user: Address, ledger: u32)
    requires
        laws::shares_sound(s),
        s.accrue(user, ledger) is Some,
    ensures
        ({
            let t = s.accrue(user, ledger)->Some_0;
            &&& owed(t) <= owed(s) + minted(s, ledger) * RATE_PRECISION
            &&& t.account(user).reward_paid == t.reward_per_lp
            &&& t.accounts.contains_key(user.id)
            &&& laws::shares_sound(t)
        }),
{
    let t = s.accrue(user, ledger)->Some_0;
    let index = t.reward_per_lp;
    let before = s.account(user);
    let after = t.account(user);
    laws::lemma_accrue_sound(s, user, ledger);
    laws::lemma_share_of_supply(s, user);
    lemma_index_growth(s, ledger);
    laws::lemma_earned(before, index);
    sums::lemma_total_insert(s.accounts, owed_to(index), user.id, after);
    let gain = model::earned(before, index)->Some_0;
    assert(after.balance * (index - after.reward_paid) == 0) by (nonlinear_arith)
        requires
            after.reward_paid == index,
    ;
    assert(after.pending_rewards == before.pending_rewards + gain);
    assert(before.balance * (index - before.reward_paid) == before.balance * (index
        - before.reward_paid));
    assert(owed_to(index)(user.id, after) <= before.pending_rewards * RATE_PRECISION
        + before.balance * (index - before.reward_paid));
    if !s.accounts.contains_key(user.id) {
        assert(before.balance * (index - before.reward_paid) == 0) by (nonlinear_arith)
            requires
                before.balance == 0,
        ;
    }
}

/// Setting an account that has no uncredited growth changes what is owed by the change of
/// its pending rewards.
proof fn lemma_owed_set(t: PoolState, u: PoolState, user: Address, account: LpAccount)
    requires
        t.accounts.dom().finite(),
        t.accounts.contains_key(user.id),
        t.account(user).reward_paid == t.reward_per_lp,
        u.accounts == t.accounts.insert(user.id, account),
        u.reward_per_lp == t.reward_per_lp,
        account.reward_paid == t.reward_per_lp,
    ensures
        owed(u) == owed(t) + (account.pending_rewards - t.account(user).pending_rewards)
            * RATE_PRECISION,
{
    let index = t.reward_per_lp;
    let before = t.account(user);
    sums::lemma_total_insert(t.accounts, owed_to(index), user.id, account);
    assert(account.balance * (index - account.reward_paid) == 0) by (nonlinear_arith)
        requires
            account.reward_paid == index,
    ;
    assert(before.balance * (index - before.reward_paid) == 0) by (nonlinear_arith)
        requires
            before.reward_paid == index,
    ;
}

/// Whatever the calls, the pool never owes and pays out more than the mining rate gives out
/// for the ledgers that passed: a call adds to what is owed at most what was minted since the
/// last checkpoint, less what it pays out.
pub proof fn law_rewards_are_bounded(
    s: PoolState,
    contract: Address,
    ledger: u32,
    call: PoolCall,
)
    requires
        laws::shares_sound(s),
    ensures
        owed(laws::after_call(s, contract, ledger, call).0) + claimed(s, contract, ledger, call)
            * RATE_PRECISION <= owed(s) + minted(s, ledger) * RATE_PRECISION,
        claimed(s, contract, ledger, call) >= 0,
{
    let t = laws::after_call(s, contract, ledger, call).0;
    assert(minted(s, ledger) >= 0) by {
        if s.mining_rate > 0 && ledger > s.last_reward_ledger {
            assert(s.mining_rate * (ledger - s.last_reward_ledger) >= 0) by (nonlinear_arith)
                requires
                    s.mining_rate > 0,
                    ledger > s.last_reward_ledger,
            ;
        }
    }
    match call {
        PoolCall::AddLiquidity { user, xlm_amount, sxlm_amount } => {
            if model::add_liquidity_step(
                s,
                contract,
                ledger,
                user,
                xlm_amount,
                sxlm_amount,
            ) is Ok {
                lemma_accrue_owed(s, user, ledger);
                lemma_owed_set(s.accrue(user, ledger)->Some_0, t, user, t.account(user));
            }
        },
        PoolCall::RemoveLiquidity { user, lp_amount } => {
            if model::remove_liquidity_step(s, contract, ledger, user, lp_amount) is Ok {
                lemma_accrue_owed(s, user, ledger);
                lemma_owed_set(s.accrue(user, ledger)->Some_0, t, user, t.account(user));
            }
        },
        PoolCall::SetMiningRate { admin, rate } => {
            if s.reward_index(ledger) is Some {
                lemma_index_growth(s, ledger);
            }
        },
        PoolCall::ClaimMiningRewards { user } => {
            if model::claim_mining_rewards_step(s, contract, ledger, user) is Ok {
                lemma_accrue_owed(s, user, ledger);
                let u = s.accrue(user, ledger)->Some_0;
                if t != u {
                    lemma_owed_set(u, t, user, t.account(user));
                }
            }
        },
        PoolCall::Initialize { .. } => {},
        PoolCall::SwapXlmToSxlm { .. } => {
            assert(t.accounts == s.accounts && t.reward_per_lp == s.reward_per_lp);
        },
        PoolCall::SwapSxlmToXlm { .. } => {
            assert(t.accounts == s.accounts && t.reward_per_lp == s.reward_per_lp);
        },
        _ => {},
    }
}

/// What one account earns over a stretch is its share of what was minted, rounded down: never
/// more, and less by no more than the rounding of the index and of the credit.
pub proof fn law_rewards_are_shared(s: PoolState, user: Address, ledger: u32)
    requires
        laws::shares_sound(s),
        s.account(user).reward_paid == s.reward_per_lp,
        s.accrue(user, ledger) is Some,
    ensures
        ({
            let gain = s.accrue(user, ledger)->Some_0.account(user).pending_rewards
                - s.account(user).pending_rewards;
            &&& gain >= 0
            &&& gain * s.total_lp <= minted(s, ledger) * s.account(user).balance
            &&& s.total_lp > 0 ==> minted(s, ledger) * s.account(user).balance * RATE_PRECISION < (
            gain + 1) * s.total_lp * RATE_PRECISION + s.account(user).balance * s.total_lp
        }),
{
    let t = s.accrue(user, ledger)->Some_0;
    let a = s.account(user);
    let index = t.reward_per_lp;
    let d = index - s.reward_per_lp;
    laws::lemma_share_of_supply(s, user);
    lemma_index_growth(s, ledger);
    laws::lemma_earned(a, index);
    let gain = model::earned(a, index)->Some_0;
    let m = minted(s, ledger);
    assert(gain * s.total_lp <= m * a.balance) by (nonlinear_arith)
        requires
            gain * RATE_PRECISION <= a.balance * d,
            d * s.total_lp <= m * RATE_PRECISION,
            a.balance >= 0,
            s.total_lp >= 0,
            gain >= 0,
            d >= 0,
            RATE_PRECISION == 10_000_000,
    ;
    if s.total_lp > 0 {
        let b = a.balance as int;
        let t = s.total_lp as int;
        let r = RATE_PRECISION as int;
        assert(m * b * r < (gain + 1) * t * r + b * t) by (nonlinear_arith)
            requires
                m * r < (d + 1) * t,
                b * d < (gain + 1) * r,
                b >= 0,
                t > 0,
                r > 0,
                gain >= 0,
        ;
    }
}

/// A claim pays the pending rewards that are reported for its ledger, as far as the vault
/// reaches, and leaves the rest pending; it is refused exactly if there is something to pay
/// and the vault is empty.
pub proof fn law_claim_pays_pending(
    s: PoolState,
    contract: Address,
    ledger: u32,
    user: Address,
)
    requires
        laws::shares_sound(s),
        s.config is Some,
        s.pending_rewards(user, ledger) is Some,
    ensures
        ({
            let pending = s.pending_rewards(user, ledger)->Some_0;
            match model::claim_mining_rewards_step(s, contract, ledger, user) {
                Ok((t, out)) => {
                    &&& out.value == (if pending < s.reward_vault {
                        pending
                    } else {
                        s.reward_vault
                    })
                    &&& t.reward_vault == s.reward_vault - out.value
                    &&& t.pending_rewards(user, ledger) == Some((pending - out.value) as i128)
                },
                Err(e) => e == PoolError::RewardVaultEmpty && pending > 0 && s.reward_vault == 0,
            }
        }),
{
    lemma_accrue_owed(s, user, ledger);
    let u = s.accrue(user, ledger)->Some_0;
    laws::lemma_share_of_supply(u, user);
    match model::claim_mining_rewards_step(s, contract, ledger, user) {
        Ok((t, out)) => {
            assert(t.reward_index(ledger) == Some(t.reward_per_lp));
            assert(t.account(user).reward_paid == t.reward_per_lp);
            let b = t.account(user).balance;
            assert(b * 0 == 0) by (nonlinear_arith);
            assert(model::earned(t.account(user), t.reward_per_lp) == Some(0i128));
        },
        Err(e) => {},
    }
}

/// An account that was credited up to the reward index, in a pool that was settled at `ledger`,
/// has its pending rewards and nothing more to come.
proof fn lemma_nothing_to_credit(s: PoolState, user: Address, ledger: u32)
    requires
        s.last_reward_ledger == ledger,
        s.account(user).reward_paid == s.reward_per_lp,
    ensures
        s.pending_rewards(user, ledger) == Some(s.account(user).pending_rewards),
{
    let b = s.account(user).balance;
    assert(b * 0 == 0) by (nonlinear_arith);
    assert(s.reward_index(ledger) == Some(s.reward_per_lp));
    assert(model::earned(s.account(user), s.reward_per_lp) == Some(0i128));
}

/// Settling rewards leaves the pending rewards of everybody at that ledger as they were, and
/// stores those of the settled user. It moves the checkpoint to that ledger, whatever the supply
/// and the rate, changes no LP tokens, reserves, fees or vault, and settling again changes
/// nothing.
pub proof fn law_settling_keeps_pending(s: PoolState, user: Address, ledger: u32, other: Address)
    requires
        s.accrue(user, ledger) is Some,
    ensures
        ({
            let t = s.accrue(user, ledger)->Some_0;
            &&& t.pending_rewards(other, ledger) == s.pending_rewards(other, ledger)
            &&& Some(t.account(user).pending_rewards) == s.pending_rewards(user, ledger)
            &&& t.last_reward_ledger == ledger
            &&& t.account(other).balance == s.account(other).balance
            &&& t == (PoolState {
                reward_per_lp: t.reward_per_lp,
                last_reward_ledger: t.last_reward_ledger,
                accounts: t.accounts,
                ..s
            })
            &&& t.accrue(user, ledger) == Some(t)
        }),
{
    let t = s.accrue(user, ledger)->Some_0;
    lemma_nothing_to_credit(t, user, ledger);
    assert(t.reward_index(ledger) == Some(t.reward_per_lp));
    assert(t.accounts.insert(user.id, t.account(user)) =~= t.accounts);
}

/// No call changes what anybody has pending at its ledger, but for a claim, which takes what it
/// pays off the claimant's pending rewards.
pub proof fn law_calls_keep_pending(
    s: PoolState,
    contract: Address,
    ledger: u32,
    call: PoolCall,
    user: Address,
)
    requires
        call is Initialize ==> laws::empty_before_start(s),
    ensures
        ({
            let t = laws::after_call(s, contract, ledger, call).0;
            let paid = if call == (PoolCall::ClaimMiningRewards { user }) {
                claimed(s, contract, ledger, call)
            } else {
                0
            };
            match (s.pending_rewards(user, ledger), t.pending_rewards(user, ledger)) {
                (Some(before), Some(after)) => after == before - paid,
                (None, None) => true,
                _ => false,
            }
        }),
{
    let t = laws::after_call(s, contract, ledger, call).0;
    match call {
        PoolCall::Initialize { .. } => {
            if s.config is None {
                assert(t.reward_index(ledger) == s.reward_index(ledger));
                assert(t.account(user) == s.account(user));
            }
        },
        PoolCall::AddLiquidity { user: who, xlm_amount, sxlm_amount } => {
            let step = model::add_liquidity_step(
                s,
                contract,
                ledger,
                who,
                xlm_amount,
                sxlm_amount,
            );
            if step is Ok {
                lemma_settled_first(s, t, who, ledger, user);
            }
        },
        PoolCall::RemoveLiquidity { user: who, lp_amount } => {
            if model::remove_liquidity_step(s, contract, ledger, who, lp_amount) is Ok {
                lemma_settled_first(s, t, who, ledger, user);
            }
        },
        PoolCall::ClaimMiningRewards { user: who } => {
            if model::claim_mining_rewards_step(s, contract, ledger, who) is Ok {
                let u = s.accrue(who, ledger)->Some_0;
                law_settling_keeps_pending(s, who, ledger, user);
                lemma_nothing_to_credit(t, who, ledger);
                assert(t.reward_index(ledger) == u.reward_index(ledger));
            }
        },
        PoolCall::SetMiningRate { admin, rate } => {
            if model::set_mining_rate_step(s, ledger, admin, rate) is Ok {
                assert(t.reward_index(ledger) == s.reward_index(ledger));
            }
        },
        PoolCall::SwapXlmToSxlm { .. } => {
            lemma_same_pending(s, t, user, ledger);
        },
        PoolCall::SwapSxlmToXlm { .. } => {
            lemma_same_pending(s, t, user, ledger);
        },
        _ => {
            lemma_same_pending(s, t, user, ledger);
        },
    }
}

/// Where neither accounts nor the supply nor anything about the rewards changes, pending rewards
/// stay.
proof fn lemma_same_pending(s: PoolState, t: PoolState, user: Address, ledger: u32)
    requires
        t.accounts == s.accounts,
        t.total_lp == s.total_lp,
        t.mining_rate == s.mining_rate,
        t.reward_per_lp == s.reward_per_lp,
        t.last_reward_ledger == s.last_reward_ledger,
    ensures
        t.pending_rewards(user, ledger) == s.pending_rewards(user, ledger),
{
    assert(t.reward_index(ledger) == s.reward_index(ledger));
    assert(t.account(user) == s.account(user));
}

/// Changing the LP tokens of a user after settling their rewards changes nobody's pending
/// rewards.
proof fn lemma_settled_first(s: PoolState, t: PoolState, who: Address, ledger: u32, user: Address)
    requires
        s.accrue(who, ledger) is Some,
        ({
            let u = s.accrue(who, ledger)->Some_0;
            &&& t.reward_per_lp == u.reward_per_lp
            &&& t.last_reward_ledger == u.last_reward_ledger
            &&& t.accounts == u.accounts.insert(
                who.id,
                LpAccount { balance: t.account(who).balance, ..u.account(who) },
            )
        }),
    ensures
        t.pending_rewards(user, ledger) == s.pending_rewards(user, ledger),
{
    let u = s.accrue(who, ledger)->Some_0;
    law_settling_keeps_pending(s, who, ledger, user);
    lemma_nothing_to_credit(t, who, ledger);
    assert(t.reward_index(ledger) == u.reward_index(ledger));
    if user != who {
        assert(t.account(user) == u.account(user));
    }
}

/// No rewards accrue while the mining rate is zero.
pub proof fn law_no_rewards_without_rate(s: PoolState, user: Address, ledger: u32)
    requires
        laws::shares_sound(s),
        s.mining_rate <= 0,
        s.pending_rewards(user, ledger) is Some,
        s.account(user).reward_paid == s.reward_per_lp,
    ensures
        s.pending_rewards(user, ledger)->Some_0 == s.account(user).pending_rewards,
{
    let b = s.account(user).balance;
    assert(b * 0 == 0) by (nonlinear_arith);
}

} // verus!
