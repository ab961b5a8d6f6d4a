//! What holds of the pool whatever calls it receives.

use vstd::prelude::*;
use crate::arith;
use crate::arith::{mul_div, BPS_DENOMINATOR, RATE_PRECISION};
use crate::host;
use crate::host::{Address, Transfer};
use crate::sums;
use super::model;
use super::model::{LpAccount, PoolState, PoolStep};
use super::twap;
use super::twap::{TwapSample, TWAP_MAX_SAMPLES};

verus! {

/// A call that may change the pool.
pub enum PoolCall {
    Initialize { admin: Address, sxlm_token: Address, native_token: Address, fee_bps: u32 },
    AddLiquidity { user: Address, xlm_amount: i128, sxlm_amount: i128 },
    RemoveLiquidity { user: Address, lp_amount: i128 },
    SwapXlmToSxlm { user: Address, xlm_amount: i128, min_out: i128 },
    SwapSxlmToXlm { user: Address, sxlm_amount: i128, min_out: i128 },
    CollectProtocolFees,
    SetProtocolFeeBps { bps: u32 },
    SetMiningRate { admin: Address, rate: i128 },
    FundMiningRewards { funder: Address, amount: i128 },
    ClaimMiningRewards { user: Address },
}

/// The state after a step: the next one if the call was accepted, else the one before.
pub open spec fn settled<T>(s: PoolState, step: PoolStep<T>) -> PoolState {
    match step {
        Ok((next, _)) => next,
        Err(_) => s,
    }
}

/// The transfers of a step; none if the call was rejected.
pub open spec fn moves<T>(step: PoolStep<T>) -> Seq<Transfer> {
    match step {
        Ok((_, out)) => out.transfers,
        Err(_) => Seq::empty(),
    }
}

/// The state after a call to the pool at address `contract` at `ledger`, and the transfers
/// of the call.
pub open spec fn after_call(s: PoolState, contract: Address, ledger: u32, call: PoolCall) -> (
    PoolState,
    Seq<Transfer>,
) {
    match call {
        PoolCall::Initialize { admin, sxlm_token, native_token, fee_bps } => {
            let step = model::initialize_step(s, ledger, admin, sxlm_token, native_token, fee_bps);
            (settled(s, step), moves(step))
        },
        PoolCall::AddLiquidity { user, xlm_amount, sxlm_amount } => {
            let step = model::add_liquidity_step(
                s,
                contract,
                ledger,
                user,
                xlm_amount,
                sxlm_amount,
            );
            (settled(s, step), moves(step))
        },
        PoolCall::RemoveLiquidity { user, lp_amount } => {
            let step = model::remove_liquidity_step(s, contract, ledger, user, lp_amount);
            (settled(s, step), moves(step))
        },
        PoolCall::SwapXlmToSxlm { user, xlm_amount, min_out } => {
            let step = model::swap_xlm_to_sxlm_step(
                s,
                contract,
                ledger,
                user,
                xlm_amount,
                min_out,
            );
            (settled(s, step), moves(step))
        },
        PoolCall::SwapSxlmToXlm { user, sxlm_amount, min_out } => {
            let step = model::swap_sxlm_to_xlm_step(
                s,
                contract,
                ledger,
                user,
                sxlm_amount,
                min_out,
            );
            (settled(s, step), moves(step))
        },
        PoolCall::CollectProtocolFees => {
            let step = model::collect_protocol_fees_step(s, contract);
            (settled(s, step), moves(step))
        },
        PoolCall::SetProtocolFeeBps { bps } => {
            let step = model::set_protocol_fee_bps_step(s, bps);
            (settled(s, step), moves(step))
        },
        PoolCall::SetMiningRate { admin, rate } => {
            let step = model::set_mining_rate_step(s, ledger, admin, rate);
            (settled(s, step), moves(step))
        },
        PoolCall::FundMiningRewards { funder, amount } => {
            let step = model::fund_mining_rewards_step(s, contract, funder, amount);
            (settled(s, step), moves(step))
        },
        PoolCall::ClaimMiningRewards { user } => {
            let step = model::claim_mining_rewards_step(s, contract, ledger, user);
            (settled(s, step), moves(step))
        },
    }
}

/// Whether the protocol's cut of a swap of XLM leaves something of the XLM reserve. It does
/// where the protocol's part is no more than the whole fee.
pub open spec fn spares_reserve(s: PoolState, call: PoolCall) -> bool {
    match call {
        PoolCall::SwapXlmToSxlm { xlm_amount, min_out, .. } => match model::swap_quote(
            s.fee_bps(),
            s.reserve_xlm,
            s.reserve_sxlm,
            xlm_amount,
            min_out,
        ) {
            Ok(q) => match s.protocol_cut(xlm_amount, q.kept) {
                Some(cut) => cut < s.reserve_xlm + xlm_amount,
                None => true,
            },
            Err(_) => true,
        },
        _ => true,
    }
}

// ---------------------------------------------------------------------------
// What every call keeps
// ---------------------------------------------------------------------------

/// The LP tokens of an account.
pub open spec fn lp_of() -> spec_fn(u32, LpAccount) -> int {
    |id: u32, account: LpAccount| account.balance as int
}

/// Whether the samples are at most as many as the buffer holds, in the order of their
/// ledgers with one per ledger, and none of them is later than `now`.
pub open spec fn samples_in_order(samples: Seq<TwapSample>, now: u32) -> bool {
    &&& samples.len() <= TWAP_MAX_SAMPLES
    &&& forall|i: int, j: int|
        0 <= i < j < samples.len() ==> (#[trigger] samples[i]).ledger < (#[trigger] samples[j]).ledger
    &&& forall|i: int| 0 <= i < samples.len() ==> (#[trigger] samples[i]).ledger <= now
}

/// Whether the samples are in order and no price is negative.
pub open spec fn samples_sound(samples: Seq<TwapSample>, now: u32) -> bool {
    &&& samples_in_order(samples, now)
    &&& forall|i: int| 0 <= i < samples.len() ==> (#[trigger] samples[i]).price >= 0
}

/// Whether an account holds no negative amounts and is not credited ahead of the reward
/// index.
pub open spec fn account_sound(s: PoolState, account: LpAccount) -> bool {
    &&& account.balance >= 0
    &&& account.pending_rewards >= 0
    &&& 0 <= account.reward_paid <= s.reward_per_lp
}

/// Whether a pool that is not initialized holds nothing.
pub open spec fn empty_before_start(s: PoolState) -> bool {
    s.config is None ==> s.total_lp == 0 && s.accrued_protocol_fees == 0 && s.reward_vault == 0
        && s.reward_per_lp == 0
}

/// What every call keeps: the LP tokens of the accounts add up to the supply, there are no
/// reserves without a supply, and no LP tokens, rewards, fees or vault are negative.
pub open spec fn shares_sound(s: PoolState) -> bool {
    &&& s.accounts.dom().finite()
    &&& sums::total(s.accounts, lp_of()) == s.total_lp
    &&& forall|id: u32| #[trigger] s.accounts.contains_key(id) ==> account_sound(s, s.accounts[id])
    &&& s.total_lp >= 0
    &&& s.total_lp == 0 ==> s.reserve_xlm == 0 && s.reserve_sxlm == 0
    &&& s.accrued_protocol_fees >= 0
    &&& s.reward_vault >= 0
    &&& s.reward_per_lp >= 0
    &&& empty_before_start(s)
    &&& s.protocol_fee_bps >= 0
    &&& s.fee_bps() >= 0
}

/// What every call that spares the reserve keeps up to the ledger `now`: the shares are sound,
/// there are reserves exactly if there is a supply, and the samples are in order.
pub open spec fn sound(s: PoolState, now: u32) -> bool {
    &&& shares_sound(s)
    &&& s.total_lp > 0 ==> s.reserve_xlm > 0 && s.reserve_sxlm > 0
    &&& samples_sound(s.samples, now)
}

/// An account holds no more LP tokens than there are.
pub(super) proof fn lemma_share_of_supply(s: PoolState, user: Address)
    requires
        shares_sound(s),
    ensures
        0 <= s.account(user).balance <= s.total_lp,
        account_sound(s, s.account(user)),
{
    assert forall|id: u32| #[trigger] s.accounts.contains_key(id) implies lp_of()(id, s.accounts[id])
        >= 0 by {
        assert(account_sound(s, s.accounts[id]));
    }
    sums::lemma_total_bounds(s.accounts, lp_of(), user.id);
}

/// The reward index does not fall.
pub(super) proof fn lemma_reward_index(s: PoolState, ledger: u32)
    requires
        s.reward_index(ledger) is Some,
    ensures
        s.reward_index(ledger)->Some_0 >= s.reward_per_lp,
{
    if s.total_lp > 0 && s.mining_rate > 0 && ledger > s.last_reward_ledger {
        let elapsed = (ledger - s.last_reward_ledger) as i128;
        assert(elapsed * s.mining_rate >= 0) by (nonlinear_arith)
            requires
                elapsed >= 0,
                s.mining_rate > 0,
        ;
        arith::lemma_mul_div((elapsed * s.mining_rate) as i128, RATE_PRECISION, s.total_lp);
    }
}

/// What an account has earned is not negative.
pub(super) proof fn lemma_earned(account: LpAccount, index: i128)
    requires
        account.balance >= 0,
        account.reward_paid <= index,
        model::earned(account, index) is Some,
    ensures
        model::earned(account, index)->Some_0 >= 0,
        model::earned(account, index)->Some_0 * RATE_PRECISION <= account.balance * (index
            - account.reward_paid) < (model::earned(account, index)->Some_0 + 1) * RATE_PRECISION,
{
    arith::lemma_mul_div(account.balance, (index - account.reward_paid) as i128, RATE_PRECISION);
}

/// Advancing and crediting rewards keeps the shares sound.
pub(super) proof fn lemma_accrue_sound(s: PoolState, user: Address, ledger: u32)
    requires
        shares_sound(s),
        s.accrue(user, ledger) is Some,
    ensures
        shares_sound(s.accrue(user, ledger)->Some_0),
        s.accrue(user, ledger)->Some_0.account(user).balance == s.account(user).balance,
{
    let t = s.accrue(user, ledger)->Some_0;
    let index = t.reward_per_lp;
    let account = t.account(user);
    lemma_share_of_supply(s, user);
    lemma_reward_index(s, ledger);
    lemma_earned(s.account(user), index);
    sums::lemma_total_insert(s.accounts, lp_of(), user.id, account);
    assert forall|id: u32| #[trigger] t.accounts.contains_key(id) implies account_sound(
        t,
        t.accounts[id],
    ) by {
        if id != user.id {
            assert(s.accounts.contains_key(id));
        }
    }
    if s.config is None {
        assert(s.reward_index(ledger) == Some(s.reward_per_lp));
    }
}

/// Setting one account keeps the sum of the LP tokens in step with the supply.
proof fn lemma_account_set(s: PoolState, t: PoolState, user: Address, account: LpAccount)
    requires
        shares_sound(s),
        t.accounts == s.accounts.insert(user.id, account),
        t.reward_per_lp == s.reward_per_lp,
        account_sound(t, account),
        t.total_lp == s.total_lp + account.balance - s.account(user).balance,
    ensures
        t.accounts.dom().finite(),
        sums::total(t.accounts, lp_of()) == t.total_lp,
        forall|id: u32| #[trigger] t.accounts.contains_key(id) ==> account_sound(t, t.accounts[id]),
{
    sums::lemma_total_insert(s.accounts, lp_of(), user.id, account);
    assert forall|id: u32| #[trigger] t.accounts.contains_key(id) implies account_sound(
        t,
        t.accounts[id],
    ) by {
        if id != user.id {
            assert(s.accounts.contains_key(id));
        }
    }
}

/// A deposit keeps the shares sound.
proof fn lemma_add_liquidity_sound(
    s: PoolState,
    contract: Address,
    ledger: u32,
    user: Address,
    xlm_amount: i128,
    sxlm_amount: i128,
)
    requires
        shares_sound(s),
        model::add_liquidity_step(s, contract, ledger, user, xlm_amount, sxlm_amount) is Ok,
    ensures
        shares_sound(
            settled(
                s,
                model::add_liquidity_step(s, contract, ledger, user, xlm_amount, sxlm_amount),
            ),
        ),
{
    let t = s.accrue(user, ledger)->Some_0;
    lemma_accrue_sound(s, user, ledger);
    lemma_share_of_supply(t, user);
    let q = model::deposit_quote(
        t.total_lp,
        t.reserve_xlm,
        t.reserve_sxlm,
        xlm_amount,
        sxlm_amount,
    )->Some_0;
    let next = t.deposited(user, q)->Some_0;
    lemma_account_set(t, next, user, next.account(user));
}

/// A number of which a part is positive is positive.
pub(super) proof fn lemma_positive_part(a: i128, b: i128, d: i128)
    requires
        a > 0,
        d > 0,
        mul_div(a, b, d) is Some,
        mul_div(a, b, d)->Some_0 > 0,
    ensures
        b > 0,
{
    let p = a * b;
    if b <= 0 {
        assert(p <= 0) by (nonlinear_arith)
            requires
                a > 0,
                b <= 0,
                p == a * b,
        ;
        assert(arith::quot(p, d as int) <= 0) by (nonlinear_arith)
            requires
                p <= 0,
                d > 0,
        ;
    }
}

/// A share of a reserve is less than the reserve, unless it is the whole.
proof fn lemma_share(lp: i128, reserve: i128, total: i128)
    requires
        0 < lp <= total,
        reserve > 0,
        mul_div(lp, reserve, total) is Some,
    ensures
        0 <= mul_div(lp, reserve, total)->Some_0 <= reserve,
        lp < total ==> mul_div(lp, reserve, total)->Some_0 < reserve,
        lp == total ==> mul_div(lp, reserve, total)->Some_0 == reserve,
{
    arith::lemma_mul_div(lp, reserve, total);
    let q = mul_div(lp, reserve, total)->Some_0;
    if lp < total {
        assert(q < reserve) by (nonlinear_arith)
            requires
                q * total <= lp * reserve,
                0 < lp < total,
                reserve > 0,
        ;
    } else {
        assert(q == reserve) by (nonlinear_arith)
            requires
                q * total <= total * reserve < (q + 1) * total,
                total > 0,
        ;
    }
}

/// Giving back LP tokens pays out of reserves that are there, and keeps the shares sound.
proof fn lemma_remove_liquidity_sound(
    s: PoolState,
    contract: Address,
    ledger: u32,
    user: Address,
    lp_amount: i128,
)
    requires
        shares_sound(s),
        model::remove_liquidity_step(s, contract, ledger, user, lp_amount) is Ok,
    ensures
        ({
            let (t, out) = model::remove_liquidity_step(
                s,
                contract,
                ledger,
                user,
                lp_amount,
            )->Ok_0;
            &&& shares_sound(t)
            &&& if lp_amount == s.total_lp {
                &&& out.value == (s.reserve_xlm, s.reserve_sxlm)
                &&& t.reserve_xlm == 0 && t.reserve_sxlm == 0 && t.total_lp == 0
            } else {
                t.reserve_xlm > 0 && t.reserve_sxlm > 0 && t.total_lp > 0
            }
        }),
{
    let t = s.accrue(user, ledger)->Some_0;
    lemma_accrue_sound(s, user, ledger);
    lemma_share_of_supply(t, user);
    lemma_positive_part(lp_amount, t.reserve_xlm, t.total_lp);
    lemma_positive_part(lp_amount, t.reserve_sxlm, t.total_lp);
    lemma_share(lp_amount, t.reserve_xlm, t.total_lp);
    lemma_share(lp_amount, t.reserve_sxlm, t.total_lp);
    let next = settled(s, model::remove_liquidity_step(s, contract, ledger, user, lp_amount));
    lemma_account_set(t, next, user, next.account(user));
}

/// Recording a price keeps the samples in order, and sound if the reserves are not negative.
proof fn lemma_recorded_sound(
    samples: Seq<TwapSample>,
    now: u32,
    ledger: u32,
    reserve_xlm: i128,
    reserve_sxlm: i128,
)
    requires
        samples_in_order(samples, now),
        now <= ledger,
        twap::recorded(samples, ledger, reserve_xlm, reserve_sxlm) is Some,
    ensures
        ({
            let next = twap::recorded(samples, ledger, reserve_xlm, reserve_sxlm)->Some_0;
            &&& samples_in_order(next, ledger)
            &&& samples_sound(samples, now) && reserve_xlm >= 0 && reserve_sxlm >= 0
                ==> samples_sound(next, ledger)
        }),
{
    if reserve_xlm >= 0 && reserve_sxlm > 0 {
        arith::lemma_mul_div(reserve_xlm, RATE_PRECISION, reserve_sxlm);
    }
}

/// The input of an accepted swap after the fee is part of the input.
pub(super) proof fn lemma_kept(
    fee_bps: i128,
    reserve_in: i128,
    reserve_out: i128,
    amount: i128,
    min_out: i128,
)
    requires
        fee_bps >= 0,
        model::swap_quote(fee_bps, reserve_in, reserve_out, amount, min_out) is Ok,
    ensures
        ({
            let q = model::swap_quote(fee_bps, reserve_in, reserve_out, amount, min_out)->Ok_0;
            &&& 0 < q.kept <= amount
            &&& model::after_fee(amount, fee_bps) == Some(q.kept)
            &&& model::swap_output(reserve_in, reserve_out, q.kept) == Some(q.out)
            &&& reserve_in > 0
            &&& reserve_out > 0
        }),
{
    let q = model::swap_quote(fee_bps, reserve_in, reserve_out, amount, min_out)->Ok_0;
    let kept = q.kept as int;
    let kept_bps = BPS_DENOMINATOR - fee_bps;
    let p = reserve_in * reserve_out;
    let d = reserve_in + kept;
    assert(p > 0) by (nonlinear_arith)
        requires
            reserve_in > 0,
            reserve_out > 0,
            p == reserve_in * reserve_out,
    ;
    if kept <= 0 {
        if d > 0 {
            assert(p / d >= reserve_out) by (nonlinear_arith)
                requires
                    0 < d <= reserve_in,
                    reserve_out > 0,
                    p == reserve_in * reserve_out,
            ;
        } else {
            assert(p / (-d) >= 0) by (nonlinear_arith)
                requires
                    -d > 0,
                    p > 0,
            ;
        }
    }
    if kept_bps >= 0 {
        arith::lemma_mul_div(amount, kept_bps as i128, BPS_DENOMINATOR);
        assert(kept <= amount) by (nonlinear_arith)
            requires
                kept * BPS_DENOMINATOR <= amount * kept_bps,
                0 <= kept_bps <= BPS_DENOMINATOR,
                BPS_DENOMINATOR == 10_000,
                amount > 0,
        ;
    } else {
        assert(amount * kept_bps < 0) by (nonlinear_arith)
            requires
                amount > 0,
                kept_bps < 0,
        ;
    }
}

/// The protocol's cut is not negative, and part of the fee where the protocol's part is no
/// more than the whole fee.
proof fn lemma_protocol_cut(s: PoolState, amount: i128, kept: i128)
    requires
        0 <= kept <= amount,
        s.protocol_fee_bps >= 0,
        s.fee_bps() >= 0,
        s.protocol_cut(amount, kept) is Some,
    ensures
        0 <= s.protocol_cut(amount, kept)->Some_0,
        s.protocol_fee_bps <= s.fee_bps() ==> s.protocol_cut(amount, kept)->Some_0 <= amount - kept,
{
    let fee = (amount - kept) as i128;
    let part = s.protocol_fee_bps;
    let whole = s.fee_bps();
    arith::lemma_mul_div(fee, part, whole);
    let q = s.protocol_cut(amount, kept)->Some_0;
    if part <= whole {
        assert(q <= fee) by (nonlinear_arith)
            requires
                q * whole <= fee * part,
                0 <= part <= whole,
                whole > 0,
                fee >= 0,
        ;
    }
}

/// A swap spares the reserve where the protocol's part is no more than the whole fee.
pub proof fn law_sensible_fees_spare_reserve(s: PoolState, call: PoolCall)
    requires
        shares_sound(s),
        s.protocol_fee_bps <= s.fee_bps(),
    ensures
        spares_reserve(s, call),
{
    match call {
        PoolCall::SwapXlmToSxlm { user, xlm_amount, min_out } => {
            let quote = model::swap_quote(
                s.fee_bps(),
                s.reserve_xlm,
                s.reserve_sxlm,
                xlm_amount,
                min_out,
            );
            if quote is Ok && s.protocol_cut(xlm_amount, quote->Ok_0.kept) is Some {
                lemma_kept(s.fee_bps(), s.reserve_xlm, s.reserve_sxlm, xlm_amount, min_out);
                lemma_protocol_cut(s, xlm_amount, quote->Ok_0.kept);
            }
        },
        _ => {},
    }
}

/// Where no account changes and the reward index does not fall, the accounts stay sound.
proof fn lemma_same_accounts(s: PoolState, t: PoolState)
    requires
        shares_sound(s),
        t.accounts == s.accounts,
        t.reward_per_lp >= s.reward_per_lp,
    ensures
        forall|id: u32| #[trigger] t.accounts.contains_key(id) ==> account_sound(t, t.accounts[id]),
{
    assert forall|id: u32| #[trigger] t.accounts.contains_key(id) implies account_sound(
        t,
        t.accounts[id],
    ) by {
        assert(account_sound(s, s.accounts[id]));
    }
}

/// Every call keeps the shares sound.
pub proof fn law_shares_kept(s: PoolState, contract: Address, ledger: u32, call: PoolCall)
    requires
        shares_sound(s),
    ensures
        shares_sound(after_call(s, contract, ledger, call).0),
{
    let t = after_call(s, contract, ledger, call).0;
    match call {
        PoolCall::AddLiquidity { user, xlm_amount, sxlm_amount } => {
            if model::add_liquidity_step(
                s,
                contract,
                ledger,
                user,
                xlm_amount,
                sxlm_amount,
            ) is Ok {
                lemma_add_liquidity_sound(s, contract, ledger, user, xlm_amount, sxlm_amount);
            }
        },
        PoolCall::RemoveLiquidity { user, lp_amount } => {
            if model::remove_liquidity_step(s, contract, ledger, user, lp_amount) is Ok {
                lemma_remove_liquidity_sound(s, contract, ledger, user, lp_amount);
            }
        },
        PoolCall::SwapXlmToSxlm { user, xlm_amount, min_out } => {
            let quote = model::swap_quote(
                s.fee_bps(),
                s.reserve_xlm,
                s.reserve_sxlm,
                xlm_amount,
                min_out,
            );
            if quote is Ok && s.config is Some && s.swapped_in_xlm(ledger, xlm_amount, quote->Ok_0) is Some {
                lemma_kept(s.fee_bps(), s.reserve_xlm, s.reserve_sxlm, xlm_amount, min_out);
                lemma_protocol_cut(s, xlm_amount, quote->Ok_0.kept);
                lemma_same_accounts(s, t);
            }
        },
        PoolCall::SwapSxlmToXlm { user, sxlm_amount, min_out } => {
            let quote = model::swap_quote(
                s.fee_bps(),
                s.reserve_sxlm,
                s.reserve_xlm,
                sxlm_amount,
                min_out,
            );
            if quote is Ok && s.config is Some && s.swapped_in_sxlm(ledger, sxlm_amount, quote->Ok_0) is Some {
                lemma_same_accounts(s, t);
            }
        },
        PoolCall::SetMiningRate { admin, rate } => {
            if s.reward_index(ledger) is Some {
                lemma_reward_index(s, ledger);
            }
            lemma_same_accounts(s, t);
        },
        PoolCall::ClaimMiningRewards { user } => {
            if s.accrue(user, ledger) is Some {
                lemma_accrue_sound(s, user, ledger);
                let u = s.accrue(user, ledger)->Some_0;
                lemma_share_of_supply(u, user);
                if model::claim_mining_rewards_step(s, contract, ledger, user) is Ok && t != u {
                    lemma_account_set(u, t, user, t.account(user));
                }
            }
        },
        _ => {
            lemma_same_accounts(s, t);
        },
    }
}

/// Every call keeps the samples in order, as ledgers pass.
pub proof fn law_samples_kept(
    s: PoolState,
    contract: Address,
    now: u32,
    ledger: u32,
    call: PoolCall,
)
    requires
        samples_in_order(s.samples, now),
        now <= ledger,
    ensures
        samples_in_order(after_call(s, contract, ledger, call).0.samples, ledger),
{
    let t = after_call(s, contract, ledger, call).0;
    match call {
        PoolCall::SwapXlmToSxlm { user, xlm_amount, min_out } => {
            if model::swap_xlm_to_sxlm_step(
                s,
                contract,
                ledger,
                user,
                xlm_amount,
                min_out,
            ) is Ok {
                lemma_recorded_sound(s.samples, now, ledger, t.reserve_xlm, t.reserve_sxlm);
            }
        },
        PoolCall::SwapSxlmToXlm { user, sxlm_amount, min_out } => {
            if model::swap_sxlm_to_xlm_step(
                s,
                contract,
                ledger,
                user,
                sxlm_amount,
                min_out,
            ) is Ok {
                lemma_recorded_sound(s.samples, now, ledger, t.reserve_xlm, t.reserve_sxlm);
            }
        },
        PoolCall::AddLiquidity { .. } => {
            assert(t.samples == s.samples);
        },
        PoolCall::RemoveLiquidity { .. } => {
            assert(t.samples == s.samples);
        },
        PoolCall::ClaimMiningRewards { .. } => {
            assert(t.samples == s.samples);
        },
        _ => {},
    }
}

/// Every call keeps the pool sound, as ledgers pass, if the protocol's cut does not use up
/// the reserve.
pub proof fn law_sound_kept(
    s: PoolState,
    contract: Address,
    now: u32,
    ledger: u32,
    call: PoolCall,
)
    requires
        sound(s, now),
        now <= ledger,
        spares_reserve(s, call),
    ensures
        sound(after_call(s, contract, ledger, call).0, ledger),
{
    let t = after_call(s, contract, ledger, call).0;
    law_shares_kept(s, contract, ledger, call);
    match call {
        PoolCall::AddLiquidity { .. } => {
            assert(t.samples == s.samples);
        },
        PoolCall::RemoveLiquidity { user, lp_amount } => {
            assert(t.samples == s.samples);
            if model::remove_liquidity_step(s, contract, ledger, user, lp_amount) is Ok {
                lemma_remove_liquidity_sound(s, contract, ledger, user, lp_amount);
            }
        },
        PoolCall::SwapXlmToSxlm { user, xlm_amount, min_out } => {
            let quote = model::swap_quote(
                s.fee_bps(),
                s.reserve_xlm,
                s.reserve_sxlm,
                xlm_amount,
                min_out,
            );
            if quote is Ok && s.config is Some && s.swapped_in_xlm(ledger, xlm_amount, quote->Ok_0) is Some {
                lemma_recorded_sound(s.samples, now, ledger, t.reserve_xlm, t.reserve_sxlm);
            }
        },
        PoolCall::SwapSxlmToXlm { user, sxlm_amount, min_out } => {
            let quote = model::swap_quote(
                s.fee_bps(),
                s.reserve_sxlm,
                s.reserve_xlm,
                sxlm_amount,
                min_out,
            );
            if quote is Ok && s.config is Some && s.swapped_in_sxlm(ledger, sxlm_amount, quote->Ok_0) is Some {
                lemma_recorded_sound(s.samples, now, ledger, t.reserve_xlm, t.reserve_sxlm);
            }
        },
        PoolCall::ClaimMiningRewards { .. } => {
            assert(t.samples == s.samples);
        },
        _ => {},
    }
}

/// The pool after calls at the given ledgers, one after the other, from the start.
pub open spec fn after_calls(contract: Address, calls: Seq<(u32, PoolCall)>) -> PoolState
    decreases calls.len(),
{
    if calls.len() == 0 {
        PoolState::blank()
    } else {
        after_call(
            after_calls(contract, calls.drop_last()),
            contract,
            calls.last().0,
            calls.last().1,
        ).0
    }
}

/// The shares are sound after any calls.
pub proof fn law_shares_always_sound(contract: Address, calls: Seq<(u32, PoolCall)>)
    ensures
        shares_sound(after_calls(contract, calls)),
    decreases calls.len(),
{
    if calls.len() == 0 {
        sums::lemma_total_empty::<u32, LpAccount>(lp_of());
    } else {
        let rest = calls.drop_last();
        law_shares_always_sound(contract, rest);
        law_shares_kept(
            after_calls(contract, rest),
            contract,
            calls.last().0,
            calls.last().1,
        );
    }
}

/// The samples are in order after any calls in the order of their ledgers.
pub proof fn law_samples_always_in_order(contract: Address, calls: Seq<(u32, PoolCall)>, now: u32)
    requires
        forall|i: int| 0 <= i < calls.len() ==> (#[trigger] calls[i]).0 <= now,
        forall|i: int, j: int|
            0 <= i <= j < calls.len() ==> (#[trigger] calls[i]).0 <= (#[trigger] calls[j]).0,
    ensures
        samples_in_order(after_calls(contract, calls).samples, now),
    decreases calls.len(),
{
    if calls.len() > 0 {
        let n = calls.len() - 1;
        let rest = calls.drop_last();
        law_samples_always_in_order(contract, rest, calls[n].0);
        law_samples_kept(after_calls(contract, rest), contract, calls[n].0, calls[n].0, calls[n].1);
    }
}

/// The pool is sound after any calls in the order of their ledgers, if the protocol's cut does
/// not use up the reserve.
pub proof fn law_always_sound(contract: Address, calls: Seq<(u32, PoolCall)>, now: u32)
    requires
        forall|i: int| 0 <= i < calls.len() ==> (#[trigger] calls[i]).0 <= now,
        forall|i: int, j: int|
            0 <= i <= j < calls.len() ==> (#[trigger] calls[i]).0 <= (#[trigger] calls[j]).0,
        forall|i: int|
            0 <= i < calls.len() ==> spares_reserve(
                after_calls(contract, calls.take(i)),
                (#[trigger] calls[i]).1,
            ),
    ensures
        sound(after_calls(contract, calls), now),
    decreases calls.len(),
{
    if calls.len() == 0 {
        sums::lemma_total_empty::<u32, LpAccount>(lp_of());
    } else {
        let n = calls.len() - 1;
        let rest = calls.drop_last();
        assert(calls.take(n) =~= rest);
        assert forall|i: int| 0 <= i < rest.len() implies spares_reserve(
            after_calls(contract, rest.take(i)),
            (#[trigger] rest[i]).1,
        ) by {
            assert(rest.take(i) =~= calls.take(i));
            assert(rest[i] == calls[i]);
        }
        law_always_sound(contract, rest, calls[n].0);
        law_sound_kept(after_calls(contract, rest), contract, calls[n].0, calls[n].0, calls[n].1);
    }
}

// ---------------------------------------------------------------------------
// The pool's books and its tokens
// ---------------------------------------------------------------------------

/// The XLM that the pool accounts for: its reserve, the protocol's fees and the reward vault.
pub open spec fn xlm_booked(s: PoolState) -> int {
    s.reserve_xlm + s.accrued_protocol_fees + s.reward_vault
}

/// Whether the books changed from `s` to `t` by exactly what `transfers` brought of XLM and of
/// sXLM; of both together if they are the same token.
pub open spec fn books_match(
    s: PoolState,
    t: PoolState,
    transfers: Seq<Transfer>,
    contract: Address,
) -> bool {
    match t.config {
        Some(c) => if c.native_token != c.sxlm_token {
            &&& xlm_booked(t) - xlm_booked(s) == host::net_inflow(
                transfers,
                c.native_token,
                contract,
            )
            &&& t.reserve_sxlm - s.reserve_sxlm == host::net_inflow(
                transfers,
                c.sxlm_token,
                contract,
            )
        } else {
            xlm_booked(t) + t.reserve_sxlm - xlm_booked(s) - s.reserve_sxlm == host::net_inflow(
                transfers,
                c.native_token,
                contract,
            )
        },
        None => transfers.len() == 0 && xlm_booked(t) == xlm_booked(s) && t.reserve_sxlm
            == s.reserve_sxlm,
    }
}

/// What up to two transfers bring of the two tokens of the pool.
proof fn lemma_pool_inflow(t: PoolState, a: Transfer, b: Transfer, contract: Address)
    requires
        t.config is Some,
    ensures
        ({
            let native = t.config->Some_0.native_token;
            let sxlm = t.config->Some_0.sxlm_token;
            &&& host::net_inflow(Seq::empty(), native, contract) == 0
            &&& host::net_inflow(Seq::empty(), sxlm, contract) == 0
            &&& host::net_inflow(seq![a], native, contract) == host::inflow(a, native, contract)
            &&& host::net_inflow(seq![a], sxlm, contract) == host::inflow(a, sxlm, contract)
            &&& host::net_inflow(seq![a, b], native, contract) == host::inflow(a, native, contract)
                + host::inflow(b, native, contract)
            &&& host::net_inflow(seq![a, b], sxlm, contract) == host::inflow(a, sxlm, contract)
                + host::inflow(b, sxlm, contract)
        }),
{
    host::lemma_net_inflow(a, b, t.config->Some_0.native_token, contract);
    host::lemma_net_inflow(a, b, t.config->Some_0.sxlm_token, contract);
}

proof fn lemma_books_add(
    s: PoolState,
    contract: Address,
    ledger: u32,
    user: Address,
    xlm_amount: i128,
    sxlm_amount: i128,
)
    requires
        user != contract,
        model::add_liquidity_step(s, contract, ledger, user, xlm_amount, sxlm_amount) is Ok,
    ensures
        ({
            let step = model::add_liquidity_step(
                s,
                contract,
                ledger,
                user,
                xlm_amount,
                sxlm_amount,
            );
            books_match(s, settled(s, step), moves(step), contract)
        }),
{
    let (t, out) = model::add_liquidity_step(
        s,
        contract,
        ledger,
        user,
        xlm_amount,
        sxlm_amount,
    )->Ok_0;
    lemma_pool_inflow(t, out.transfers[0], out.transfers[1], contract);
    assert(out.transfers =~= seq![out.transfers[0], out.transfers[1]]);
}

proof fn lemma_books_remove(
    s: PoolState,
    contract: Address,
    ledger: u32,
    user: Address,
    lp_amount: i128,
)
    requires
        user != contract,
        model::remove_liquidity_step(s, contract, ledger, user, lp_amount) is Ok,
    ensures
        ({
            let step = model::remove_liquidity_step(s, contract, ledger, user, lp_amount);
            books_match(s, settled(s, step), moves(step), contract)
        }),
{
    let (t, out) = model::remove_liquidity_step(s, contract, ledger, user, lp_amount)->Ok_0;
    lemma_pool_inflow(t, out.transfers[0], out.transfers[1], contract);
    assert(out.transfers =~= seq![out.transfers[0], out.transfers[1]]);
}

proof fn lemma_books_swap_xlm(
    s: PoolState,
    contract: Address,
    ledger: u32,
    user: Address,
    xlm_amount: i128,
    min_out: i128,
)
    requires
        user != contract,
        model::swap_xlm_to_sxlm_step(s, contract, ledger, user, xlm_amount, min_out) is Ok,
    ensures
        ({
            let step = model::swap_xlm_to_sxlm_step(
                s,
                contract,
                ledger,
                user,
                xlm_amount,
                min_out,
            );
            books_match(s, settled(s, step), moves(step), contract)
        }),
{
    let (t, out) = model::swap_xlm_to_sxlm_step(
        s,
        contract,
        ledger,
        user,
        xlm_amount,
        min_out,
    )->Ok_0;
    lemma_pool_inflow(t, out.transfers[0], out.transfers[1], contract);
    assert(out.transfers =~= seq![out.transfers[0], out.transfers[1]]);
}

proof fn lemma_books_swap_sxlm(
    s: PoolState,
    contract: Address,
    ledger: u32,
    user: Address,
    sxlm_amount: i128,
    min_out: i128,
)
    requires
        user != contract,
        model::swap_sxlm_to_xlm_step(s, contract, ledger, user, sxlm_amount, min_out) is Ok,
    ensures
        ({
            let step = model::swap_sxlm_to_xlm_step(
                s,
                contract,
                ledger,
                user,
                sxlm_amount,
                min_out,
            );
            books_match(s, settled(s, step), moves(step), contract)
        }),
{
    let (t, out) = model::swap_sxlm_to_xlm_step(
        s,
        contract,
        ledger,
        user,
        sxlm_amount,
        min_out,
    )->Ok_0;
    lemma_pool_inflow(t, out.transfers[0], out.transfers[1], contract);
    assert(out.transfers =~= seq![out.transfers[0], out.transfers[1]]);
}

proof fn lemma_books_claim(s: PoolState, contract: Address, ledger: u32, user: Address)
    requires
        user != contract,
        model::claim_mining_rewards_step(s, contract, ledger, user) is Ok,
    ensures
        ({
            let step = model::claim_mining_rewards_step(s, contract, ledger, user);
            books_match(s, settled(s, step), moves(step), contract)
        }),
{
    let (t, out) = model::claim_mining_rewards_step(s, contract, ledger, user)->Ok_0;
    if t.config is Some {
        lemma_pool_inflow(t, out.transfers[0], out.transfers[0], contract);
        if out.transfers.len() == 1 {
            assert(out.transfers =~= seq![out.transfers[0]]);
        }
    }
}

/// What the pool accounts for changes by exactly the tokens that reach or leave it, in XLM
/// and in sXLM.
pub proof fn law_books_match_transfers(
    s: PoolState,
    contract: Address,
    ledger: u32,
    call: PoolCall,
)
    requires
        call is Initialize ==> empty_before_start(s),
        host::between_parties(after_call(s, contract, ledger, call).1),
    ensures
        books_match(
            s,
            after_call(s, contract, ledger, call).0,
            after_call(s, contract, ledger, call).1,
            contract,
        ),
{
    let (t, transfers) = after_call(s, contract, ledger, call);
    if t.config is Some {
        lemma_pool_inflow(t, transfers[0], transfers[0], contract);
    }
    if transfers.len() > 0 {
        assert(transfers[0].from != transfers[0].to);
    }
    match call {
        PoolCall::AddLiquidity { user, xlm_amount, sxlm_amount } => {
            if model::add_liquidity_step(
                s,
                contract,
                ledger,
                user,
                xlm_amount,
                sxlm_amount,
            ) is Ok {
                lemma_books_add(s, contract, ledger, user, xlm_amount, sxlm_amount);
            }
        },
        PoolCall::RemoveLiquidity { user, lp_amount } => {
            if model::remove_liquidity_step(s, contract, ledger, user, lp_amount) is Ok {
                lemma_books_remove(s, contract, ledger, user, lp_amount);
            }
        },
        PoolCall::SwapXlmToSxlm { user, xlm_amount, min_out } => {
            if model::swap_xlm_to_sxlm_step(
                s,
                contract,
                ledger,
                user,
                xlm_amount,
                min_out,
            ) is Ok {
                lemma_books_swap_xlm(s, contract, ledger, user, xlm_amount, min_out);
            }
        },
        PoolCall::SwapSxlmToXlm { user, sxlm_amount, min_out } => {
            if model::swap_sxlm_to_xlm_step(
                s,
                contract,
                ledger,
                user,
                sxlm_amount,
                min_out,
            ) is Ok {
                lemma_books_swap_sxlm(s, contract, ledger, user, sxlm_amount, min_out);
            }
        },
        PoolCall::ClaimMiningRewards { user } => {
            if model::claim_mining_rewards_step(s, contract, ledger, user) is Ok && user != contract {
                lemma_books_claim(s, contract, ledger, user);
            }
        },
        PoolCall::CollectProtocolFees => {
            if transfers.len() == 1 {
                assert(transfers =~= seq![transfers[0]]);
            }
        },
        PoolCall::FundMiningRewards { funder, amount } => {
            if transfers.len() == 1 {
                assert(transfers =~= seq![transfers[0]]);
            }
        },
        _ => {},
    }
}

// ---------------------------------------------------------------------------
// Swaps
// ---------------------------------------------------------------------------

/// What a swap leaves in the reserve that pays: the product of the reserves, divided by the
/// other reserve with the input after the fee.
pub(super) proof fn lemma_swap_output(reserve_in: i128, reserve_out: i128, kept: i128)
    requires
        reserve_in > 0,
        reserve_out > 0,
        kept >= 0,
        model::swap_output(reserve_in, reserve_out, kept) is Some,
    ensures
        ({
            let left = reserve_out - model::swap_output(reserve_in, reserve_out, kept)->Some_0;
            &&& left >= 0
            &&& left * (reserve_in + kept) <= reserve_in * reserve_out < (left + 1) * (reserve_in
                + kept)
        }),
{
    arith::lemma_mul_div(reserve_in, reserve_out, (reserve_in + kept) as i128);
}

/// A product with one factor grown is at least as large.
proof fn lemma_product_grows(a: int, b: int, c: int)
    requires
        a <= b,
        c >= 0,
    ensures
        a * c <= b * c,
{
    assert(a * c <= b * c) by (nonlinear_arith)
        requires
            a <= b,
            c >= 0,
    ;
}

/// A swap does not take the product of the reserves below what it was, but for the rounding
/// of the paying reserve to a whole stroop, where the protocol's part is no more than the
/// whole fee. It pays at least what the caller asked for and leaves something in the reserve.
pub proof fn law_swap_xlm_keeps_product(
    s: PoolState,
    contract: Address,
    ledger: u32,
    user: Address,
    xlm_amount: i128,
    min_out: i128,
)
    requires
        shares_sound(s),
        model::swap_xlm_to_sxlm_step(s, contract, ledger, user, xlm_amount, min_out) is Ok,
    ensures
        ({
            let (t, out) = model::swap_xlm_to_sxlm_step(
                s,
                contract,
                ledger,
                user,
                xlm_amount,
                min_out,
            )->Ok_0;
            &&& s.protocol_fee_bps <= s.fee_bps() ==> t.reserve_xlm * (t.reserve_sxlm + 1)
                > s.reserve_xlm * s.reserve_sxlm
            &&& s.protocol_fee_bps <= s.fee_bps() ==> t.reserve_xlm >= s.reserve_xlm
            &&& t.reserve_sxlm == s.reserve_sxlm - out.value
            &&& 0 < out.value < s.reserve_sxlm
            &&& out.value >= min_out
            &&& t.reserve_xlm + t.accrued_protocol_fees == s.reserve_xlm + s.accrued_protocol_fees
                + xlm_amount
        }),
{
    let t = settled(
        s,
        model::swap_xlm_to_sxlm_step(s, contract, ledger, user, xlm_amount, min_out),
    );
    let q = model::swap_quote(
        s.fee_bps(),
        s.reserve_xlm,
        s.reserve_sxlm,
        xlm_amount,
        min_out,
    )->Ok_0;
    lemma_kept(s.fee_bps(), s.reserve_xlm, s.reserve_sxlm, xlm_amount, min_out);
    lemma_protocol_cut(s, xlm_amount, q.kept);
    lemma_swap_output(s.reserve_xlm, s.reserve_sxlm, q.kept);
    if s.protocol_fee_bps <= s.fee_bps() {
        lemma_product_grows(s.reserve_xlm + q.kept, t.reserve_xlm as int, t.reserve_sxlm + 1);
    }
    assert((t.reserve_sxlm + 1) * (s.reserve_xlm + q.kept) == (s.reserve_xlm + q.kept) * (
    t.reserve_sxlm + 1)) by (nonlinear_arith);
}

/// A swap does not take the product of the reserves below what it was, but for the rounding
/// of the paying reserve to a whole stroop. It pays at least what the caller asked for and
/// leaves something in the reserve.
pub proof fn law_swap_sxlm_keeps_product(
    s: PoolState,
    contract: Address,
    ledger: u32,
    user: Address,
    sxlm_amount: i128,
    min_out: i128,
)
    requires
        shares_sound(s),
        model::swap_sxlm_to_xlm_step(s, contract, ledger, user, sxlm_amount, min_out) is Ok,
    ensures
        ({
            let (t, out) = model::swap_sxlm_to_xlm_step(
                s,
                contract,
                ledger,
                user,
                sxlm_amount,
                min_out,
            )->Ok_0;
            &&& (t.reserve_xlm + 1) * t.reserve_sxlm > s.reserve_xlm * s.reserve_sxlm
            &&& t.reserve_xlm == s.reserve_xlm - out.value
            &&& 0 < out.value < s.reserve_xlm
            &&& out.value >= min_out
            &&& t.reserve_sxlm == s.reserve_sxlm + sxlm_amount
            &&& t.accrued_protocol_fees == s.accrued_protocol_fees
        }),
{
    let t = settled(
        s,
        model::swap_sxlm_to_xlm_step(s, contract, ledger, user, sxlm_amount, min_out),
    );
    let q = model::swap_quote(
        s.fee_bps(),
        s.reserve_sxlm,
        s.reserve_xlm,
        sxlm_amount,
        min_out,
    )->Ok_0;
    lemma_kept(s.fee_bps(), s.reserve_sxlm, s.reserve_xlm, sxlm_amount, min_out);
    lemma_swap_output(s.reserve_sxlm, s.reserve_xlm, q.kept);
    lemma_product_grows(s.reserve_sxlm + q.kept, t.reserve_sxlm as int, t.reserve_xlm + 1);
    assert((t.reserve_xlm + 1) * (s.reserve_sxlm + q.kept) == (s.reserve_sxlm + q.kept) * (
    t.reserve_xlm + 1)) by (nonlinear_arith);
    assert((t.reserve_xlm + 1) * t.reserve_sxlm == t.reserve_sxlm * (t.reserve_xlm + 1))
        by (nonlinear_arith);
    assert(s.reserve_xlm * s.reserve_sxlm == s.reserve_sxlm * s.reserve_xlm) by (nonlinear_arith);
}

/// What a swap does to the product of the reserves, where `gained` of the fee stays in the
/// reserve that is paid into and `left` is what the paying reserve keeps.
proof fn lemma_product_change(reserve_in: int, reserve_out: int, kept: int, gained: int, left: int)
    requires
        reserve_in > 0,
        reserve_out > 0,
        kept >= 0,
        left * (reserve_in + kept) <= reserve_in * reserve_out < (left + 1) * (reserve_in + kept),
    ensures
        (reserve_in + kept + gained) * left - reserve_in * reserve_out == gained * left
            - reserve_in * reserve_out % (reserve_in + kept),
{
    let p = reserve_in * reserve_out;
    let d = reserve_in + kept;
    assert(p % d == p - left * d) by (nonlinear_arith)
        requires
            left * d <= p < (left + 1) * d,
            d > 0,
    ;
    assert((d + gained) * left == left * d + gained * left) by (nonlinear_arith);
}

/// The product of the reserves does not fall by a swap of XLM exactly if what stays of the
/// fee makes up for rounding the sXLM reserve to a whole stroop.
pub proof fn law_constant_product_xlm(
    s: PoolState,
    contract: Address,
    ledger: u32,
    user: Address,
    xlm_amount: i128,
    min_out: i128,
)
    requires
        shares_sound(s),
        model::swap_xlm_to_sxlm_step(s, contract, ledger, user, xlm_amount, min_out) is Ok,
    ensures
        ({
            let t = settled(
                s,
                model::swap_xlm_to_sxlm_step(s, contract, ledger, user, xlm_amount, min_out),
            );
            let paid_in = s.reserve_xlm + model::after_fee(xlm_amount, s.fee_bps())->Some_0;
            let gained = t.reserve_xlm - paid_in;
            &&& s.protocol_fee_bps <= s.fee_bps() ==> gained >= 0
            &&& t.reserve_xlm * t.reserve_sxlm >= s.reserve_xlm * s.reserve_sxlm <==> gained
                * t.reserve_sxlm >= s.reserve_xlm * s.reserve_sxlm % paid_in
        }),
{
    let t = settled(
        s,
        model::swap_xlm_to_sxlm_step(s, contract, ledger, user, xlm_amount, min_out),
    );
    let kept = model::after_fee(xlm_amount, s.fee_bps())->Some_0;
    lemma_kept(s.fee_bps(), s.reserve_xlm, s.reserve_sxlm, xlm_amount, min_out);
    lemma_protocol_cut(s, xlm_amount, kept);
    lemma_swap_output(s.reserve_xlm, s.reserve_sxlm, kept);
    lemma_product_change(
        s.reserve_xlm as int,
        s.reserve_sxlm as int,
        kept as int,
        t.reserve_xlm - s.reserve_xlm - kept,
        t.reserve_sxlm as int,
    );
}

/// The product of the reserves does not fall by a swap of sXLM exactly if the fee makes up
/// for rounding the XLM reserve to a whole stroop.
pub proof fn law_constant_product_sxlm(
    s: PoolState,
    contract: Address,
    ledger: u32,
    user: Address,
    sxlm_amount: i128,
    min_out: i128,
)
    requires
        shares_sound(s),
        model::swap_sxlm_to_xlm_step(s, contract, ledger, user, sxlm_amount, min_out) is Ok,
    ensures
        ({
            let t = settled(
                s,
                model::swap_sxlm_to_xlm_step(s, contract, ledger, user, sxlm_amount, min_out),
            );
            let paid_in = s.reserve_sxlm + model::after_fee(sxlm_amount, s.fee_bps())->Some_0;
            let gained = t.reserve_sxlm - paid_in;
            &&& gained >= 0
            &&& t.reserve_xlm * t.reserve_sxlm >= s.reserve_xlm * s.reserve_sxlm <==> gained
                * t.reserve_xlm >= s.reserve_xlm * s.reserve_sxlm % paid_in
        }),
{
    let t = settled(
        s,
        model::swap_sxlm_to_xlm_step(s, contract, ledger, user, sxlm_amount, min_out),
    );
    let kept = model::after_fee(sxlm_amount, s.fee_bps())->Some_0;
    lemma_kept(s.fee_bps(), s.reserve_sxlm, s.reserve_xlm, sxlm_amount, min_out);
    lemma_swap_output(s.reserve_sxlm, s.reserve_xlm, kept);
    lemma_product_change(
        s.reserve_sxlm as int,
        s.reserve_xlm as int,
        kept as int,
        t.reserve_sxlm - s.reserve_sxlm - kept,
        t.reserve_xlm as int,
    );
    assert(s.reserve_xlm * s.reserve_sxlm == s.reserve_sxlm * s.reserve_xlm) by (nonlinear_arith);
    assert(t.reserve_xlm * t.reserve_sxlm == t.reserve_sxlm * t.reserve_xlm) by (nonlinear_arith);
}

// ---------------------------------------------------------------------------
// Liquidity
// ---------------------------------------------------------------------------

/// A number that goes into a positive one with a positive quotient is positive.
pub(super) proof fn lemma_positive_divisor(a: i128, b: i128, d: i128)
    requires
        a > 0,
        b > 0,
        mul_div(a, b, d) is Some,
        mul_div(a, b, d)->Some_0 > 0,
    ensures
        d > 0,
{
    let p = a * b;
    assert(p > 0) by (nonlinear_arith)
        requires
            a > 0,
            b > 0,
            p == a * b,
    ;
    if d < 0 {
        assert(p / (-d as int) >= 0) by (nonlinear_arith)
            requires
                p > 0,
                d < 0,
        ;
    }
}

/// The share that a minted LP amount has of a grown reserve is no more than what was paid
/// for it, where the LP amount is no more than the payment's part of the supply.
proof fn lemma_share_of_payment(paid: int, reserve: int, total: int, lp: int, share: int)
    requires
        paid > 0,
        reserve >= 0,
        total >= 0,
        lp > 0,
        lp * reserve <= paid * total,
        share * (total + lp) <= lp * (reserve + paid),
    ensures
        share <= paid,
{
    assert(share <= paid) by (nonlinear_arith)
        requires
            paid > 0,
            reserve >= 0,
            total >= 0,
            lp > 0,
            lp * reserve <= paid * total,
            share * (total + lp) <= lp * (reserve + paid),
    ;
}

/// The same where the payment is what the LP amount needs, rounded down.
proof fn lemma_share_of_needed(paid: int, reserve: int, total: int, lp: int, share: int)
    requires
        paid > 0,
        reserve >= 0,
        total > 0,
        lp > 0,
        lp * reserve < (paid + 1) * total,
        share * (total + lp) <= lp * (reserve + paid),
    ensures
        share <= paid,
{
    assert(share <= paid) by (nonlinear_arith)
        requires
            paid > 0,
            reserve >= 0,
            total > 0,
            lp > 0,
            lp * reserve < (paid + 1) * total,
            share * (total + lp) <= lp * (reserve + paid),
    ;
}

/// A deposit takes no more than was offered and mints LP tokens. Giving them back with no call
/// in between, at whatever ledger, returns no more than was paid.
pub proof fn law_no_gain_from_going_in_and_out(
    s: PoolState,
    contract: Address,
    ledger: u32,
    user: Address,
    xlm_amount: i128,
    sxlm_amount: i128,
    later: u32,
)
    requires
        shares_sound(s),
        model::add_liquidity_step(s, contract, ledger, user, xlm_amount, sxlm_amount) is Ok,
    ensures
        ({
            let (t, added) = model::add_liquidity_step(
                s,
                contract,
                ledger,
                user,
                xlm_amount,
                sxlm_amount,
            )->Ok_0;
            let xlm_paid = added.transfers[0].amount;
            let sxlm_paid = added.transfers[1].amount;
            &&& 0 < xlm_paid <= xlm_amount
            &&& 0 < sxlm_paid <= sxlm_amount
            &&& t.account(user).balance == s.account(user).balance + added.value
            &&& match model::remove_liquidity_step(t, contract, later, user, added.value) {
                Ok((_, removed)) => removed.value.0 <= xlm_paid && removed.value.1 <= sxlm_paid,
                Err(_) => true,
            }
        }),
{
    let u = s.accrue(user, ledger)->Some_0;
    lemma_accrue_sound(s, user, ledger);
    lemma_add_liquidity_sound(s, contract, ledger, user, xlm_amount, sxlm_amount);
    let (t, added) = model::add_liquidity_step(
        s,
        contract,
        ledger,
        user,
        xlm_amount,
        sxlm_amount,
    )->Ok_0;
    let q = model::deposit_quote(
        u.total_lp,
        u.reserve_xlm,
        u.reserve_sxlm,
        xlm_amount,
        sxlm_amount,
    )->Some_0;
    let back = model::remove_liquidity_step(t, contract, later, user, added.value);
    if back is Ok {
        lemma_accrue_sound(t, user, later);
        arith::lemma_mul_div(q.lp, t.reserve_xlm, t.total_lp);
        arith::lemma_mul_div(q.lp, t.reserve_sxlm, t.total_lp);
    }
    if u.total_lp == 0 {
        if back is Ok {
            lemma_share(q.lp, t.reserve_xlm, t.total_lp);
            lemma_share(q.lp, t.reserve_sxlm, t.total_lp);
        }
    } else {
        let from_xlm = mul_div(xlm_amount, u.total_lp, u.reserve_xlm)->Some_0;
        let from_sxlm = mul_div(sxlm_amount, u.total_lp, u.reserve_sxlm)->Some_0;
        lemma_positive_divisor(xlm_amount, u.total_lp, u.reserve_xlm);
        lemma_positive_divisor(sxlm_amount, u.total_lp, u.reserve_sxlm);
        arith::lemma_mul_div(xlm_amount, u.total_lp, u.reserve_xlm);
        arith::lemma_mul_div(sxlm_amount, u.total_lp, u.reserve_sxlm);
        if from_xlm < from_sxlm {
            arith::lemma_mul_div(from_xlm, u.reserve_sxlm, u.total_lp);
            assert(q.sxlm <= sxlm_amount) by (nonlinear_arith)
                requires
                    q.sxlm * u.total_lp <= from_xlm * u.reserve_sxlm,
                    from_sxlm * u.reserve_sxlm <= sxlm_amount * u.total_lp,
                    from_xlm < from_sxlm,
                    u.reserve_sxlm > 0,
                    u.total_lp > 0,
            ;
            if back is Ok {
                let removed = back->Ok_0.1.value;
                lemma_share_of_payment(
                    q.xlm as int,
                    u.reserve_xlm as int,
                    u.total_lp as int,
                    q.lp as int,
                    removed.0 as int,
                );
                lemma_share_of_needed(
                    q.sxlm as int,
                    u.reserve_sxlm as int,
                    u.total_lp as int,
                    q.lp as int,
                    removed.1 as int,
                );
            }
        } else {
            arith::lemma_mul_div(from_sxlm, u.reserve_xlm, u.total_lp);
            assert(q.xlm <= xlm_amount) by (nonlinear_arith)
                requires
                    q.xlm * u.total_lp <= from_sxlm * u.reserve_xlm,
                    from_xlm * u.reserve_xlm <= xlm_amount * u.total_lp,
                    from_sxlm <= from_xlm,
                    u.reserve_xlm > 0,
                    u.total_lp > 0,
            ;
            if back is Ok {
                let removed = back->Ok_0.1.value;
                lemma_share_of_payment(
                    q.sxlm as int,
                    u.reserve_sxlm as int,
                    u.total_lp as int,
                    q.lp as int,
                    removed.1 as int,
                );
                lemma_share_of_needed(
                    q.xlm as int,
                    u.reserve_xlm as int,
                    u.total_lp as int,
                    q.lp as int,
                    removed.0 as int,
                );
            }
        }
    }
}

/// Giving back every LP token empties both reserves; giving back some leaves something in
/// each of them.
pub proof fn law_last_provider_takes_all(
    s: PoolState,
    contract: Address,
    ledger: u32,
    user: Address,
    lp_amount: i128,
)
    requires
        shares_sound(s),
        model::remove_liquidity_step(s, contract, ledger, user, lp_amount) is Ok,
    ensures
        ({
            let (t, out) = model::remove_liquidity_step(
                s,
                contract,
                ledger,
                user,
                lp_amount,
            )->Ok_0;
            if lp_amount == s.total_lp {
                &&& out.value == (s.reserve_xlm, s.reserve_sxlm)
                &&& t.reserve_xlm == 0 && t.reserve_sxlm == 0 && t.total_lp == 0
            } else {
                t.reserve_xlm > 0 && t.reserve_sxlm > 0 && t.total_lp > 0
            }
        }),
{
    lemma_remove_liquidity_sound(s, contract, ledger, user, lp_amount);
}

/// No call changes the admin, the tokens or the swap fee of an initialized pool.
pub proof fn law_configuration_is_fixed(
    s: PoolState,
    contract: Address,
    ledger: u32,
    call: PoolCall,
)
    requires
        s.config is Some,
    ensures
        after_call(s, contract, ledger, call).0.config == s.config,
{
    match call {
        PoolCall::AddLiquidity { user, xlm_amount, sxlm_amount } => {
            let step = model::add_liquidity_step(
                s,
                contract,
                ledger,
                user,
                xlm_amount,
                sxlm_amount,
            );
            assert(settled(s, step).config == s.config);
        },
        PoolCall::RemoveLiquidity { user, lp_amount } => {
            let step = model::remove_liquidity_step(s, contract, ledger, user, lp_amount);
            assert(settled(s, step).config == s.config);
        },
        PoolCall::SwapXlmToSxlm { user, xlm_amount, min_out } => {
            let step = model::swap_xlm_to_sxlm_step(
                s,
                contract,
                ledger,
                user,
                xlm_amount,
                min_out,
            );
            assert(settled(s, step).config == s.config);
        },
        PoolCall::SwapSxlmToXlm { user, sxlm_amount, min_out } => {
            let step = model::swap_sxlm_to_xlm_step(
                s,
                contract,
                ledger,
                user,
                sxlm_amount,
                min_out,
            );
            assert(settled(s, step).config == s.config);
        },
        PoolCall::ClaimMiningRewards { user } => {
            let step = model::claim_mining_rewards_step(s, contract, ledger, user);
            assert(settled(s, step).config == s.config);
        },
        _ => {},
    }
}

} // verus!
