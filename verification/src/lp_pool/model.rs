//! What the pool's calls do, as functions on a mathematical state.

use vstd::prelude::*;
use crate::arith;
use crate::arith::{mul_div, mul_mul_div, BPS_DENOMINATOR, RATE_PRECISION};
use crate::host::{Address, Outcome, Transfer};
use super::twap;
use super::twap::TwapSample;

verus! {

/// What `initialize` fixes for the life of the pool.
#[derive(Clone, Copy, PartialEq, Eq, Structural, Debug)]
pub struct PoolConfig {
    pub admin: Address,
    pub sxlm_token: Address,
    pub native_token: Address,
    /// The swap fee in basis points.
    pub fee_bps: i128,
}

/// The share and the mining rewards of one liquidity provider.
#[derive(Clone, Copy, PartialEq, Eq, Structural, Debug)]
pub struct LpAccount {
    /// LP tokens held.
    pub balance: i128,
    /// The reward index up to which rewards have been credited.
    pub reward_paid: i128,
    /// Rewards credited and not yet claimed.
    pub pending_rewards: i128,
}

/// The account of an address that never provided liquidity.
pub open spec fn empty_account() -> LpAccount {
    LpAccount { balance: 0, reward_paid: 0, pending_rewards: 0 }
}

/// Why the pool rejects a call.
#[derive(Clone, Copy, PartialEq, Eq, Structural, Debug)]
pub enum PoolError {
    AlreadyInitialized,
    NotInitialized,
    AmountsNotPositive,
    AmountNotPositive,
    InsufficientLiquidityMinted,
    ZeroDeposit,
    InsufficientLpBalance,
    InsufficientOutput,
    NoLiquidity,
    InsufficientLiquidity,
    Slippage,
    NotAdmin,
    RewardVaultEmpty,
    /// An intermediate result does not fit, or a divisor is zero.
    Arithmetic,
}

/// What the pool reports.
#[derive(Clone, Copy, PartialEq, Eq, Structural, Debug)]
pub enum PoolEvent {
    LiquidityAdded { user: Address, xlm: i128, sxlm: i128, lp: i128 },
    LiquidityRemoved { user: Address, lp: i128, xlm: i128, sxlm: i128 },
    Swapped { user: Address, amount_in: i128, amount_out: i128 },
    FeesCollected { admin: Address, amount: i128 },
    MiningRateSet { rate: i128 },
    MiningFunded { funder: Address, amount: i128 },
    RewardsClaimed { user: Address, amount: i128 },
}

impl PoolError {
    /// What is said when a call is rejected.
    pub open spec fn text(self) -> Seq<char> {
        match self {
            PoolError::AlreadyInitialized => "already initialized"@,
            PoolError::NotInitialized => "not initialized"@,
            PoolError::AmountsNotPositive => "amounts must be positive"@,
            PoolError::AmountNotPositive => "amount must be positive"@,
            PoolError::InsufficientLiquidityMinted => "insufficient liquidity minted"@,
            PoolError::ZeroDeposit => "zero deposit"@,
            PoolError::InsufficientLpBalance => "insufficient LP balance"@,
            PoolError::InsufficientOutput => "insufficient output"@,
            PoolError::NoLiquidity => "pool has no liquidity"@,
            PoolError::InsufficientLiquidity => "insufficient liquidity"@,
            PoolError::Slippage => "slippage: output below minimum"@,
            PoolError::NotAdmin => "not admin"@,
            PoolError::RewardVaultEmpty => "reward vault empty"@,
            PoolError::Arithmetic => "arithmetic overflow or division by zero"@,
        }
    }

    /// What to say when a call is rejected.
    pub fn message(self) -> (r: &'static str)
        ensures
            r@ == self.text(),
    {
        match self {
            PoolError::AlreadyInitialized => "already initialized",
            PoolError::NotInitialized => "not initialized",
            PoolError::AmountsNotPositive => "amounts must be positive",
            PoolError::AmountNotPositive => "amount must be positive",
            PoolError::InsufficientLiquidityMinted => "insufficient liquidity minted",
            PoolError::ZeroDeposit => "zero deposit",
            PoolError::InsufficientLpBalance => "insufficient LP balance",
            PoolError::InsufficientOutput => "insufficient output",
            PoolError::NoLiquidity => "pool has no liquidity",
            PoolError::InsufficientLiquidity => "insufficient liquidity",
            PoolError::Slippage => "slippage: output below minimum",
            PoolError::NotAdmin => "not admin",
            PoolError::RewardVaultEmpty => "reward vault empty",
            PoolError::Arithmetic => "arithmetic overflow or division by zero",
        }
    }
}

impl PoolEvent {
    /// The topic under which the event is published.
    pub open spec fn topic_text(self) -> Seq<char> {
        match self {
            PoolEvent::LiquidityAdded { .. } => "add_liq"@,
            PoolEvent::LiquidityRemoved { .. } => "rm_liq"@,
            PoolEvent::Swapped { .. } => "swap"@,
            PoolEvent::FeesCollected { .. } => "pf_col"@,
            PoolEvent::MiningRateSet { .. } => "mine_rt"@,
            PoolEvent::MiningFunded { .. } => "mine_fd"@,
            PoolEvent::RewardsClaimed { .. } => "mine_cl"@,
        }
    }

    /// The topic under which to publish the event.
    pub fn topic(self) -> (r: &'static str)
        ensures
            r@ == self.topic_text(),
    {
        match self {
            PoolEvent::LiquidityAdded { .. } => "add_liq",
            PoolEvent::LiquidityRemoved { .. } => "rm_liq",
            PoolEvent::Swapped { .. } => "swap",
            PoolEvent::FeesCollected { .. } => "pf_col",
            PoolEvent::MiningRateSet { .. } => "mine_rt",
            PoolEvent::MiningFunded { .. } => "mine_fd",
            PoolEvent::RewardsClaimed { .. } => "mine_cl",
        }
    }
}

/// The mathematical state of the pool.
#[verifier::ext_equal]
pub struct PoolState {
    pub config: Option<PoolConfig>,
    pub reserve_xlm: i128,
    pub reserve_sxlm: i128,
    pub total_lp: i128,
    pub protocol_fee_bps: i128,
    pub accrued_protocol_fees: i128,
    pub samples: Seq<TwapSample>,
    pub mining_rate: i128,
    pub reward_vault: i128,
    pub reward_per_lp: i128,
    pub last_reward_ledger: u32,
    pub accounts: Map<u32, LpAccount>,
}

/// What a call makes of a state: the next state and what it asks of the host, or an error.
pub type PoolStep<T> = Result<(PoolState, Outcome<T, PoolEvent>), PoolError>;

/// A deposit: what is taken of each token and the LP tokens minted for it.
#[derive(Clone, Copy, PartialEq, Eq, Structural, Debug)]
pub struct DepositQuote {
    pub xlm: i128,
    pub sxlm: i128,
    pub lp: i128,
}

/// The swap fee while the pool is not initialized, in basis points.
pub const DEFAULT_FEE_BPS: i128 = 30;

/// The protocol's part of the swap fee after initialization, in basis points.
pub const DEFAULT_PROTOCOL_FEE_BPS: i128 = 5;

// ---------------------------------------------------------------------------
// Quotes
// ---------------------------------------------------------------------------

/// What a deposit of up to `xlm` and `sxlm` takes and mints. The first deposit sets the
/// price and mints the geometric mean; a later one keeps the price, is limited by the
/// scarcer side, and takes of the other side only what its share needs.
pub open spec fn deposit_quote(
    total_lp: i128,
    reserve_xlm: i128,
    reserve_sxlm: i128,
    xlm: i128,
    sxlm: i128,
) -> Option<DepositQuote> {
    if total_lp == 0 {
        if xlm * sxlm < i128::MAX {
            Some(DepositQuote { xlm, sxlm, lp: arith::floor_sqrt((xlm * sxlm) as nat) as i128 })
        } else {
            None
        }
    } else {
        match (mul_div(xlm, total_lp, reserve_xlm), mul_div(sxlm, total_lp, reserve_sxlm)) {
            (Some(from_xlm), Some(from_sxlm)) => if from_xlm < from_sxlm {
                match mul_div(from_xlm, reserve_sxlm, total_lp) {
                    Some(needed) => Some(DepositQuote { xlm, sxlm: needed, lp: from_xlm }),
                    None => None,
                }
            } else {
                match mul_div(from_sxlm, reserve_xlm, total_lp) {
                    Some(needed) => Some(DepositQuote { xlm: needed, sxlm, lp: from_sxlm }),
                    None => None,
                }
            },
            _ => None,
        }
    }
}

/// What is left of `amount` after the swap fee.
pub open spec fn after_fee(amount: i128, fee_bps: i128) -> Option<i128> {
    match BPS_DENOMINATOR.checked_sub(fee_bps) {
        Some(kept_bps) => mul_div(amount, kept_bps, BPS_DENOMINATOR),
        None => None,
    }
}

/// What a constant-product pool pays out of `reserve_out` when `amount` joins
/// `reserve_in`: the other reserve falls to `reserve_in * reserve_out / (reserve_in +
/// amount)`.
pub open spec fn swap_output(reserve_in: i128, reserve_out: i128, amount: i128) -> Option<i128> {
    match reserve_in.checked_add(amount) {
        Some(new_in) => match mul_div(reserve_in, reserve_out, new_in) {
            Some(new_out) => reserve_out.checked_sub(new_out),
            None => None,
        },
        None => None,
    }
}

// ---------------------------------------------------------------------------
// Mining rewards
// ---------------------------------------------------------------------------

/// Credits an account with what it earned since its last checkpoint, up to the reward
/// index `index`.
pub open spec fn credited(account: LpAccount, index: i128) -> Option<LpAccount> {
    match earned(account, index) {
        Some(gain) => if gain > 0 {
            match account.pending_rewards.checked_add(gain) {
                Some(pending) => Some(
                    LpAccount {
                        balance: account.balance,
                        reward_paid: index,
                        pending_rewards: pending,
                    },
                ),
                None => None,
            }
        } else {
            Some(
                LpAccount {
                    balance: account.balance,
                    reward_paid: index,
                    pending_rewards: account.pending_rewards,
                },
            )
        },
        None => None,
    }
}

/// What an account earned since its last checkpoint, up to the reward index `index`.
pub open spec fn earned(account: LpAccount, index: i128) -> Option<i128> {
    match index.checked_sub(account.reward_paid) {
        Some(gap) => mul_div(account.balance, gap, RATE_PRECISION),
        None => None,
    }
}

impl PoolState {
    /// The pool before it is initialized.
    pub open spec fn blank() -> PoolState {
        PoolState {
            config: None,
            reserve_xlm: 0,
            reserve_sxlm: 0,
            total_lp: 0,
            protocol_fee_bps: 0,
            accrued_protocol_fees: 0,
            samples: Seq::empty(),
            mining_rate: 0,
            reward_vault: 0,
            reward_per_lp: 0,
            last_reward_ledger: 0,
            accounts: Map::empty(),
        }
    }

    /// The account of `user`.
    pub open spec fn account(self, user: Address) -> LpAccount {
        if self.accounts.contains_key(user.id) {
            self.accounts[user.id]
        } else {
            empty_account()
        }
    }

    /// The swap fee in basis points.
    pub open spec fn fee_bps(self) -> i128 {
        match self.config {
            Some(c) => c.fee_bps,
            None => DEFAULT_FEE_BPS,
        }
    }

    /// The reward index at `ledger`: cumulative reward per LP token, scaled by
    /// `RATE_PRECISION`. It grows by the mining rate per ledger, shared by all LP tokens.
    pub open spec fn reward_index(self, ledger: u32) -> Option<i128> {
        if self.total_lp > 0 && self.mining_rate > 0 && ledger > self.last_reward_ledger {
            match mul_mul_div(
                (ledger - self.last_reward_ledger) as i128,
                self.mining_rate,
                RATE_PRECISION,
                self.total_lp,
            ) {
                Some(delta) => self.reward_per_lp.checked_add(delta),
                None => None,
            }
        } else {
            Some(self.reward_per_lp)
        }
    }

    /// The pool after rewards have been advanced to `ledger` and credited to `user`.
    pub open spec fn accrue(self, user: Address, ledger: u32) -> Option<PoolState> {
        match self.reward_index(ledger) {
            Some(index) => match credited(self.account(user), index) {
                Some(account) => Some(
                    PoolState {
                        reward_per_lp: index,
                        last_reward_ledger: ledger,
                        accounts: self.accounts.insert(user.id, account),
                        ..self
                    },
                ),
                None => None,
            },
            None => None,
        }
    }

    /// The spot price of sXLM in XLM, scaled by `RATE_PRECISION`; one without reserves.
    pub open spec fn price(self) -> Option<i128> {
        if self.reserve_sxlm == 0 {
            Some(RATE_PRECISION)
        } else {
            mul_div(self.reserve_xlm, RATE_PRECISION, self.reserve_sxlm)
        }
    }

    /// The time-weighted average price over the `period` ledgers up to `ledger`, or the
    /// spot price if fewer than two samples fall into them.
    pub open spec fn twap(self, ledger: u32, period: u32) -> Option<i128> {
        let cutoff = twap::window_start(ledger, period);
        if twap::window_count(self.samples, cutoff) < 2 {
            self.price()
        } else {
            twap::average(self.samples, cutoff, ledger)
        }
    }

    /// The pending rewards of `user` at `ledger`.
    pub open spec fn pending_rewards(self, user: Address, ledger: u32) -> Option<i128> {
        match self.accrue(user, ledger) {
            Some(t) => Some(t.account(user).pending_rewards),
            None => None,
        }
    }
}

// ---------------------------------------------------------------------------
// Calls
// ---------------------------------------------------------------------------

/// `initialize`.
pub open spec fn initialize_step(
    s: PoolState,
    ledger: u32,
    admin: Address,
    sxlm_token: Address,
    native_token: Address,
    fee_bps: u32,
) -> PoolStep<()> {
    if s.config is Some {
        Err(PoolError::AlreadyInitialized)
    } else {
        Ok(
            (
                PoolState {
                    config: Some(
                        PoolConfig { admin, sxlm_token, native_token, fee_bps: fee_bps as i128 },
                    ),
                    protocol_fee_bps: DEFAULT_PROTOCOL_FEE_BPS,
                    accrued_protocol_fees: 0,
                    mining_rate: 0,
                    reward_vault: 0,
                    reward_per_lp: 0,
                    last_reward_ledger: ledger,
                    ..s
                },
                Outcome { value: (), auth: None, transfers: Seq::empty(), events: Seq::empty() },
            ),
        )
    }
}

/// `add_liquidity`: the provider pays the quoted amounts and is credited the LP tokens.
pub open spec fn add_liquidity_step(
    s: PoolState,
    contract: Address,
    ledger: u32,
    user: Address,
    xlm_amount: i128,
    sxlm_amount: i128,
) -> PoolStep<i128> {
    if !(xlm_amount > 0 && sxlm_amount > 0) {
        Err(PoolError::AmountsNotPositive)
    } else {
        match s.accrue(user, ledger) {
            None => Err(PoolError::Arithmetic),
            Some(t) => match deposit_quote(
                t.total_lp,
                t.reserve_xlm,
                t.reserve_sxlm,
                xlm_amount,
                sxlm_amount,
            ) {
                None => Err(PoolError::Arithmetic),
                Some(q) => if q.lp <= 0 {
                    Err(PoolError::InsufficientLiquidityMinted)
                } else if !(q.xlm > 0 && q.sxlm > 0) {
                    Err(PoolError::ZeroDeposit)
                } else {
                    match t.config {
                        None => Err(PoolError::NotInitialized),
                        Some(c) => match t.deposited(user, q) {
                            None => Err(PoolError::Arithmetic),
                            Some(next) => Ok(
                                (
                                    next,
                                    Outcome {
                                        value: q.lp,
                                        auth: Some(user),
                                        transfers: seq![
                                            Transfer {
                                                token: c.native_token,
                                                from: user,
                                                to: contract,
                                                amount: q.xlm,
                                            },
                                            Transfer {
                                                token: c.sxlm_token,
                                                from: user,
                                                to: contract,
                                                amount: q.sxlm,
                                            },
                                        ],
                                        events: seq![
                                            PoolEvent::LiquidityAdded {
                                                user,
                                                xlm: q.xlm,
                                                sxlm: q.sxlm,
                                                lp: q.lp,
                                            },
                                        ],
                                    },
                                ),
                            ),
                        },
                    }
                },
            },
        }
    }
}

impl PoolState {
    /// The pool after the quoted deposit of `user`, if the new totals fit.
    pub open spec fn deposited(self, user: Address, q: DepositQuote) -> Option<PoolState> {
        let account = self.account(user);
        if arith::fits(self.reserve_xlm + q.xlm) && arith::fits(self.reserve_sxlm + q.sxlm) && arith::fits(
            self.total_lp + q.lp,
        ) && arith::fits(account.balance + q.lp) {
            Some(
                PoolState {
                    reserve_xlm: (self.reserve_xlm + q.xlm) as i128,
                    reserve_sxlm: (self.reserve_sxlm + q.sxlm) as i128,
                    total_lp: (self.total_lp + q.lp) as i128,
                    accounts: self.accounts.insert(
                        user.id,
                        LpAccount { balance: (account.balance + q.lp) as i128, ..account },
                    ),
                    ..self
                },
            )
        } else {
            None
        }
    }

    /// The pool after `user` gave back `lp` LP tokens for `xlm` and `sxlm`, if the new
    /// totals fit.
    pub open spec fn withdrawn(self, user: Address, lp: i128, xlm: i128, sxlm: i128) -> Option<
        PoolState,
    > {
        let account = self.account(user);
        if arith::fits(self.reserve_xlm - xlm) && arith::fits(self.reserve_sxlm - sxlm) && arith::fits(
            self.total_lp - lp,
        ) && arith::fits(account.balance - lp) {
            Some(
                PoolState {
                    reserve_xlm: (self.reserve_xlm - xlm) as i128,
                    reserve_sxlm: (self.reserve_sxlm - sxlm) as i128,
                    total_lp: (self.total_lp - lp) as i128,
                    accounts: self.accounts.insert(
                        user.id,
                        LpAccount { balance: (account.balance - lp) as i128, ..account },
                    ),
                    ..self
                },
            )
        } else {
            None
        }
    }
}

/// `remove_liquidity`: the provider gives back LP tokens for their share of both reserves.
pub open spec fn remove_liquidity_step(
    s: PoolState,
    contract: Address,
    ledger: u32,
    user: Address,
    lp_amount: i128,
) -> PoolStep<(i128, i128)> {
    if lp_amount <= 0 {
        Err(PoolError::AmountNotPositive)
    } else {
        match s.accrue(user, ledger) {
            None => Err(PoolError::Arithmetic),
            Some(t) => if t.account(user).balance < lp_amount {
                Err(PoolError::InsufficientLpBalance)
            } else {
                match (
                    mul_div(lp_amount, t.reserve_xlm, t.total_lp),
                    mul_div(lp_amount, t.reserve_sxlm, t.total_lp),
                ) {
                    (Some(xlm_out), Some(sxlm_out)) => if !(xlm_out > 0 && sxlm_out > 0) {
                        Err(PoolError::InsufficientOutput)
                    } else {
                        match t.withdrawn(user, lp_amount, xlm_out, sxlm_out) {
                            None => Err(PoolError::Arithmetic),
                            Some(next) => match t.config {
                                None => Err(PoolError::NotInitialized),
                                Some(c) => Ok(
                                    (
                                        next,
                                        Outcome {
                                            value: (xlm_out, sxlm_out),
                                            auth: Some(user),
                                            transfers: seq![
                                                Transfer {
                                                    token: c.native_token,
                                                    from: contract,
                                                    to: user,
                                                    amount: xlm_out,
                                                },
                                                Transfer {
                                                    token: c.sxlm_token,
                                                    from: contract,
                                                    to: user,
                                                    amount: sxlm_out,
                                                },
                                            ],
                                            events: seq![
                                                PoolEvent::LiquidityRemoved {
                                                    user,
                                                    lp: lp_amount,
                                                    xlm: xlm_out,
                                                    sxlm: sxlm_out,
                                                },
                                            ],
                                        },
                                    ),
                                ),
                            },
                        }
                    },
                    _ => Err(PoolError::Arithmetic),
                }
            },
        }
    }
}

/// What a swap pays out, or why it is rejected: the output leaves something in the
/// reserve and reaches the caller's minimum.
pub open spec fn swap_quote(
    fee_bps: i128,
    reserve_in: i128,
    reserve_out: i128,
    amount: i128,
    min_out: i128,
) -> Result<SwapQuote, PoolError> {
    if amount <= 0 {
        Err(PoolError::AmountNotPositive)
    } else {
        match after_fee(amount, fee_bps) {
            None => Err(PoolError::Arithmetic),
            Some(kept) => if !(reserve_in > 0 && reserve_out > 0) {
                Err(PoolError::NoLiquidity)
            } else {
                match swap_output(reserve_in, reserve_out, kept) {
                    None => Err(PoolError::Arithmetic),
                    Some(out) => if !(0 < out < reserve_out) {
                        Err(PoolError::InsufficientLiquidity)
                    } else if out < min_out {
                        Err(PoolError::Slippage)
                    } else {
                        Ok(SwapQuote { kept, out })
                    },
                }
            },
        }
    }
}

/// A swap: the input after the fee, and the output.
#[derive(Clone, Copy, PartialEq, Eq, Structural, Debug)]
pub struct SwapQuote {
    pub kept: i128,
    pub out: i128,
}

impl PoolState {
    /// The protocol's cut of the fee that a swap of `amount` XLM leaves behind.
    pub open spec fn protocol_cut(self, amount: i128, kept: i128) -> Option<i128> {
        match amount.checked_sub(kept) {
            Some(fee) => mul_div(fee, self.protocol_fee_bps, self.fee_bps()),
            None => None,
        }
    }

    /// The pool with new reserves and the price that they make recorded at `ledger`.
    pub open spec fn with_reserves(self, reserve_xlm: i128, reserve_sxlm: i128, ledger: u32) -> Option<
        PoolState,
    > {
        match twap::recorded(self.samples, ledger, reserve_xlm, reserve_sxlm) {
            Some(samples) => Some(PoolState { reserve_xlm, reserve_sxlm, samples, ..self }),
            None => None,
        }
    }

    /// The pool after a swap of XLM for sXLM: the reserves move, the protocol's cut is set
    /// aside, and the new price is recorded.
    pub open spec fn swapped_in_xlm(self, ledger: u32, amount: i128, q: SwapQuote) -> Option<
        PoolState,
    > {
        match self.protocol_cut(amount, q.kept) {
            Some(cut) => if arith::fits(self.reserve_xlm + amount) && arith::fits(self.reserve_xlm + amount - cut)
                && arith::fits(self.accrued_protocol_fees + cut) {
                PoolState {
                    accrued_protocol_fees: (self.accrued_protocol_fees + cut) as i128,
                    ..self
                }.with_reserves(
                    (self.reserve_xlm + amount - cut) as i128,
                    (self.reserve_sxlm - q.out) as i128,
                    ledger,
                )
            } else {
                None
            },
            None => None,
        }
    }

    /// The pool after a swap of sXLM for XLM: the reserves move and the new price is
    /// recorded.
    pub open spec fn swapped_in_sxlm(self, ledger: u32, amount: i128, q: SwapQuote) -> Option<
        PoolState,
    > {
        if arith::fits(self.reserve_sxlm + amount) {
            self.with_reserves(
                (self.reserve_xlm - q.out) as i128,
                (self.reserve_sxlm + amount) as i128,
                ledger,
            )
        } else {
            None
        }
    }
}

/// `swap_xlm_to_sxlm`.
pub open spec fn swap_xlm_to_sxlm_step(
    s: PoolState,
    contract: Address,
    ledger: u32,
    user: Address,
    xlm_amount: i128,
    min_out: i128,
) -> PoolStep<i128> {
    match swap_quote(s.fee_bps(), s.reserve_xlm, s.reserve_sxlm, xlm_amount, min_out) {
        Err(e) => Err(e),
        Ok(q) => match s.config {
            None => Err(PoolError::NotInitialized),
            Some(c) => match s.swapped_in_xlm(ledger, xlm_amount, q) {
                None => Err(PoolError::Arithmetic),
                Some(next) => Ok(
                    (
                        next,
                        Outcome {
                            value: q.out,
                            auth: Some(user),
                            transfers: seq![
                                Transfer {
                                    token: c.native_token,
                                    from: user,
                                    to: contract,
                                    amount: xlm_amount,
                                },
                                Transfer {
                                    token: c.sxlm_token,
                                    from: contract,
                                    to: user,
                                    amount: q.out,
                                },
                            ],
                            events: seq![
                                PoolEvent::Swapped {
                                    user,
                                    amount_in: xlm_amount,
                                    amount_out: q.out,
                                },
                            ],
                        },
                    ),
                ),
            },
        },
    }
}

/// `swap_sxlm_to_xlm`.
pub open spec fn swap_sxlm_to_xlm_step(
    s: PoolState,
    contract: Address,
    ledger: u32,
    user: Address,
    sxlm_amount: i128,
    min_out: i128,
) -> PoolStep<i128> {
    match swap_quote(s.fee_bps(), s.reserve_sxlm, s.reserve_xlm, sxlm_amount, min_out) {
        Err(e) => Err(e),
        Ok(q) => match s.config {
            None => Err(PoolError::NotInitialized),
            Some(c) => match s.swapped_in_sxlm(ledger, sxlm_amount, q) {
                None => Err(PoolError::Arithmetic),
                Some(next) => Ok(
                    (
                        next,
                        Outcome {
                            value: q.out,
                            auth: Some(user),
                            transfers: seq![
                                Transfer {
                                    token: c.sxlm_token,
                                    from: user,
                                    to: contract,
                                    amount: sxlm_amount,
                                },
                                Transfer {
                                    token: c.native_token,
                                    from: contract,
                                    to: user,
                                    amount: q.out,
                                },
                            ],
                            events: seq![
                                PoolEvent::Swapped {
                                    user,
                                    amount_in: sxlm_amount,
                                    amount_out: q.out,
                                },
                            ],
                        },
                    ),
                ),
            },
        },
    }
}

/// `collect_protocol_fees`: the admin receives the accrued fees, if there are any.
pub open spec fn collect_protocol_fees_step(s: PoolState, contract: Address) -> PoolStep<i128> {
    match s.config {
        None => Err(PoolError::NotInitialized),
        Some(c) => if s.accrued_protocol_fees <= 0 {
            Ok(
                (
                    s,
                    Outcome {
                        value: 0,
                        auth: Some(c.admin),
                        transfers: Seq::empty(),
                        events: Seq::empty(),
                    },
                ),
            )
        } else {
            Ok(
                (
                    PoolState { accrued_protocol_fees: 0, ..s },
                    Outcome {
                        value: s.accrued_protocol_fees,
                        auth: Some(c.admin),
                        transfers: seq![
                            Transfer {
                                token: c.native_token,
                                from: contract,
                                to: c.admin,
                                amount: s.accrued_protocol_fees,
                            },
                        ],
                        events: seq![
                            PoolEvent::FeesCollected {
                                admin: c.admin,
                                amount: s.accrued_protocol_fees,
                            },
                        ],
                    },
                ),
            )
        },
    }
}

/// `set_protocol_fee_bps`.
pub open spec fn set_protocol_fee_bps_step(s: PoolState, bps: u32) -> PoolStep<()> {
    match s.config {
        None => Err(PoolError::NotInitialized),
        Some(c) => Ok(
            (
                PoolState { protocol_fee_bps: bps as i128, ..s },
                Outcome {
                    value: (),
                    auth: Some(c.admin),
                    transfers: Seq::empty(),
                    events: Seq::empty(),
                },
            ),
        ),
    }
}

/// `set_mining_rate`: rewards up to `ledger` are shared out at the old rate.
pub open spec fn set_mining_rate_step(s: PoolState, ledger: u32, admin: Address, rate: i128) -> PoolStep<
    (),
> {
    match s.config {
        None => Err(PoolError::NotInitialized),
        Some(c) => if admin != c.admin {
            Err(PoolError::NotAdmin)
        } else {
            match s.reward_index(ledger) {
                None => Err(PoolError::Arithmetic),
                Some(index) => Ok(
                    (
                        PoolState {
                            reward_per_lp: index,
                            last_reward_ledger: ledger,
                            mining_rate: rate,
                            ..s
                        },
                        Outcome {
                            value: (),
                            auth: Some(admin),
                            transfers: Seq::empty(),
                            events: seq![PoolEvent::MiningRateSet { rate }],
                        },
                    ),
                ),
            }
        },
    }
}

/// `fund_mining_rewards`.
pub open spec fn fund_mining_rewards_step(
    s: PoolState,
    contract: Address,
    funder: Address,
    amount: i128,
) -> PoolStep<()> {
    if amount <= 0 {
        Err(PoolError::AmountNotPositive)
    } else {
        match s.config {
            None => Err(PoolError::NotInitialized),
            Some(c) => if !arith::fits(s.reward_vault + amount) {
                Err(PoolError::Arithmetic)
            } else {
                Ok(
                    (
                        PoolState { reward_vault: (s.reward_vault + amount) as i128, ..s },
                        Outcome {
                            value: (),
                            auth: Some(funder),
                            transfers: seq![
                                Transfer {
                                    token: c.native_token,
                                    from: funder,
                                    to: contract,
                                    amount,
                                },
                            ],
                            events: seq![PoolEvent::MiningFunded { funder, amount }],
                        },
                    ),
                )
            },
        }
    }
}

/// `claim_mining_rewards`: the user receives the pending rewards, up to what the vault
/// holds.
pub open spec fn claim_mining_rewards_step(
    s: PoolState,
    contract: Address,
    ledger: u32,
    user: Address,
) -> PoolStep<i128> {
    match s.accrue(user, ledger) {
        None => Err(PoolError::Arithmetic),
        Some(t) => {
            let account = t.account(user);
            let pending = account.pending_rewards;
            if pending <= 0 {
                Ok(
                    (
                        t,
                        Outcome {
                            value: 0,
                            auth: Some(user),
                            transfers: Seq::empty(),
                            events: Seq::empty(),
                        },
                    ),
                )
            } else if t.reward_vault <= 0 {
                Err(PoolError::RewardVaultEmpty)
            } else {
                let amount = if pending > t.reward_vault {
                    t.reward_vault
                } else {
                    pending
                };
                match t.config {
                    None => Err(PoolError::NotInitialized),
                    Some(c) => Ok(
                        (
                            PoolState {
                                reward_vault: (t.reward_vault - amount) as i128,
                                accounts: t.accounts.insert(
                                    user.id,
                                    LpAccount {
                                        pending_rewards: (pending - amount) as i128,
                                        ..account
                                    },
                                ),
                                ..t
                            },
                            Outcome {
                                value: amount,
                                auth: Some(user),
                                transfers: seq![
                                    Transfer {
                                        token: c.native_token,
                                        from: contract,
                                        to: user,
                                        amount,
                                    },
                                ],
                                events: seq![PoolEvent::RewardsClaimed { user, amount }],
                            },
                        ),
                    ),
                }
            }
        },
    }
}

} // verus!
