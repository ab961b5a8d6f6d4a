//! A constant-product XLM/sXLM pool with a TWAP oracle and liquidity mining.

use std::collections::HashMap;
use vstd::prelude::*;
use crate::arith::{isqrt, mul_div, mul_mul_div, BPS_DENOMINATOR, RATE_PRECISION};
use crate::host;
use crate::host::{none_of, one_of, two_of, Address, Extension, Invocation, Receipt, Transfer};
use crate::sdk;
use crate::sdk::{pairs_get, pairs_len, pairs_new};

pub mod call_laws;
pub mod laws;
pub mod model;
pub mod reward_laws;
pub mod twap;
pub mod twap_laws;

use model::{
    DepositQuote, LpAccount, PoolConfig, PoolError, PoolEvent, PoolState, SwapQuote, DEFAULT_FEE_BPS,
    DEFAULT_PROTOCOL_FEE_BPS,
};
use twap::{average_price, count_in_window, record_twap_sample, TwapSample};

verus! {

broadcast use vstd::std_specs::hash::group_hash_axioms;

/// The result of a pool call.
pub type PoolResult<T> = Result<Receipt<T, PoolEvent>, PoolError>;

/// The pool.
pub struct LpPoolContract {
    /// Set by `initialize`.
    pub config: Option<PoolConfig>,
    pub reserve_xlm: i128,
    pub reserve_sxlm: i128,
    pub total_lp: i128,
    /// The protocol's part of the swap fee, in basis points.
    pub protocol_fee_bps: i128,
    pub accrued_protocol_fees: i128,
    /// The TWAP samples as `(ledger, price)` pairs, oldest first.
    pub samples: soroban_sdk::Vec<(u32, i128)>,
    /// Stroops of XLM per ledger, for the entire pool.
    pub mining_rate: i128,
    /// XLM available for distribution.
    pub reward_vault: i128,
    /// Cumulative reward per LP token, scaled by `RATE_PRECISION`.
    pub reward_per_lp: i128,
    pub last_reward_ledger: u32,
    /// The accounts of the liquidity providers, by address index.
    pub accounts: HashMap<u32, LpAccount>,
}

impl View for LpPoolContract {
    type V = PoolState;

    open spec fn view(&self) -> PoolState {
        PoolState {
            config: self.config,
            reserve_xlm: self.reserve_xlm,
            reserve_sxlm: self.reserve_sxlm,
            total_lp: self.total_lp,
            protocol_fee_bps: self.protocol_fee_bps,
            accrued_protocol_fees: self.accrued_protocol_fees,
            samples: twap::samples_of(self.samples),
            mining_rate: self.mining_rate,
            reward_vault: self.reward_vault,
            reward_per_lp: self.reward_per_lp,
            last_reward_ledger: self.last_reward_ledger,
            accounts: self.accounts@,
        }
    }
}

/// Prices a deposit of up to `xlm` and `sxlm` into a pool with the given totals.
pub fn quote_deposit(
    total_lp: i128,
    reserve_xlm: i128,
    reserve_sxlm: i128,
    xlm: i128,
    sxlm: i128,
) -> (r: Option<DepositQuote>)
    requires
        xlm > 0,
        sxlm > 0,
    ensures
        r == model::deposit_quote(total_lp, reserve_xlm, reserve_sxlm, xlm, sxlm),
{
    if total_lp == 0 {
        proof {
            assert(xlm * sxlm > 0) by (nonlinear_arith)
                requires
                    xlm > 0,
                    sxlm > 0,
            ;
        }
        match xlm.checked_mul(sxlm) {
            None => None,
            Some(product) => if product == i128::MAX {
                None
            } else {
                Some(DepositQuote { xlm, sxlm, lp: isqrt(product) })
            },
        }
    } else {
        match (mul_div(xlm, total_lp, reserve_xlm), mul_div(sxlm, total_lp, reserve_sxlm)) {
            (Some(from_xlm), Some(from_sxlm)) => if from_xlm < from_sxlm {
                match mul_div(from_xlm, reserve_sxlm, total_lp) {
                    Some(needed) => Some(DepositQuote { xlm, sxlm: needed, lp: from_xlm }),
                    None => None,
                }
            } else {
                match mul_div(from_sxlm, reserve_xlm, total_lp) {
                    Some(needed) => Some(DepositQuote { xlm: needed, sxlm, lp: from_sxlm }),
                    None => None,
                }
            },
            _ => None,
        }
    }
}

/// Prices a swap of `amount` from one reserve into the other.
pub fn quote_swap(
    fee_bps: i128,
    reserve_in: i128,
    reserve_out: i128,
    amount: i128,
    min_out: i128,
) -> (r: Result<SwapQuote, PoolError>)
    ensures
        r == model::swap_quote(fee_bps, reserve_in, reserve_out, amount, min_out),
{
    if amount <= 0 {
        return Err(PoolError::AmountNotPositive);
    }
    let kept: i128 = match BPS_DENOMINATOR.checked_sub(fee_bps) {
        None => return Err(PoolError::Arithmetic),
        Some(kept_bps) => match mul_div(amount, kept_bps, BPS_DENOMINATOR) {
            None => return Err(PoolError::Arithmetic),
            Some(kept) => kept,
        },
    };
    if !(reserve_in > 0 && reserve_out > 0) {
        return Err(PoolError::NoLiquidity);
    }
    let out: i128 = match reserve_in.checked_add(kept) {
        None => return Err(PoolError::Arithmetic),
        Some(new_in) => match mul_div(reserve_in, reserve_out, new_in) {
            None => return Err(PoolError::Arithmetic),
            Some(new_out) => match reserve_out.checked_sub(new_out) {
                None => return Err(PoolError::Arithmetic),
                Some(out) => out,
            },
        },
    };
    if !(out > 0 && out < reserve_out) {
        return Err(PoolError::InsufficientLiquidity);
    }
    if out < min_out {
        return Err(PoolError::Slippage);
    }
    Ok(SwapQuote { kept, out })
}

/// Credits an account with its earnings up to the reward index `index`.
pub fn credit(account: LpAccount, index: i128) -> (r: Option<LpAccount>)
    ensures
        r == model::credited(account, index),
{
    let earned: i128 = match index.checked_sub(account.reward_paid) {
        None => return None,
        Some(gap) => match mul_div(account.balance, gap, RATE_PRECISION) {
            None => return None,
            Some(earned) => earned,
        },
    };
    let pending_rewards: i128 = if earned > 0 {
        match account.pending_rewards.checked_add(earned) {
            None => return None,
            Some(pending) => pending,
        }
    } else {
        account.pending_rewards
    };
    Some(LpAccount { balance: account.balance, reward_paid: index, pending_rewards })
}

impl LpPoolContract {
    /// Whether the sample buffer can be read.
    pub open spec fn wf(self) -> bool {
        sdk::pairs_typed(self.samples)
    }

    /// A pool that is not initialized yet.
    pub fn new(env: &soroban_sdk::Env) -> (pool: LpPoolContract)
        ensures
            pool.wf(),
            pool@ == PoolState::blank(),
    {
        let pool = LpPoolContract {
            config: None,
            reserve_xlm: 0,
            reserve_sxlm: 0,
            total_lp: 0,
            protocol_fee_bps: 0,
            accrued_protocol_fees: 0,
            samples: pairs_new(env),
            mining_rate: 0,
            reward_vault: 0,
            reward_per_lp: 0,
            last_reward_ledger: 0,
            accounts: HashMap::new(),
        };
        proof {
            assert(pool@ =~= PoolState::blank());
        }
        pool
    }

    // ------------------------------------------------------------------
    // Rewards
    // ------------------------------------------------------------------

    fn account(&self, user: Address) -> (r: LpAccount)
        ensures
            r == self@.account(user),
    {
        match self.accounts.get(&user.id) {
            Some(account) => *account,
            None => LpAccount { balance: 0, reward_paid: 0, pending_rewards: 0 },
        }
    }

    fn fee_bps(&self) -> (r: i128)
        ensures
            r == self@.fee_bps(),
    {
        match self.config {
            Some(c) => c.fee_bps,
            None => DEFAULT_FEE_BPS,
        }
    }

    fn reward_index(&self, ledger: u32) -> (r: Option<i128>)
        ensures
            r == self@.reward_index(ledger),
    {
        if self.total_lp > 0 && self.mining_rate > 0 && ledger > self.last_reward_ledger {
            let elapsed: i128 = (ledger - self.last_reward_ledger) as i128;
            match mul_mul_div(elapsed, self.mining_rate, RATE_PRECISION, self.total_lp) {
                None => None,
                Some(delta) => self.reward_per_lp.checked_add(delta),
            }
        } else {
            Some(self.reward_per_lp)
        }
    }

    /// The reward index at `ledger`, and the account of `user` credited up to it.
    fn accrue_rewards(&self, user: Address, ledger: u32) -> (r: Option<(i128, LpAccount)>)
        ensures
            match r {
                Some((index, account)) => self@.accrue(user, ledger) == Some(
                    PoolState {
                        reward_per_lp: index,
                        last_reward_ledger: ledger,
                        accounts: self@.accounts.insert(user.id, account),
                        ..self@
                    },
                ),
                None => self@.accrue(user, ledger) is None,
            },
    {
        match self.reward_index(ledger) {
            None => None,
            Some(index) => match credit(self.account(user), index) {
                None => None,
                Some(account) => Some((index, account)),
            },
        }
    }

    // ------------------------------------------------------------------
    // Initialization & admin
    // ------------------------------------------------------------------

    /// One-time initialization.
    pub fn initialize(
        &mut self,
        inv: &Invocation,
        admin: Address,
        sxlm_token: Address,
        native_token: Address,
        fee_bps: u32,
    ) -> (r: PoolResult<()>)
        requires
            old(self).wf(),
        ensures
            final(self).wf(),
            match model::initialize_step(
                old(self)@,
                inv.ledger,
                admin,
                sxlm_token,
                native_token,
                fee_bps,
            ) {
                Ok((next, out)) => r is Ok && r->Ok_0@ == out && final(self)@ == next,
                Err(e) => r == PoolResult::<()>::Err(e) && *final(self) == *old(self),
            },
    {
        if self.config.is_some() {
            return Err(PoolError::AlreadyInitialized);
        }
        self.config = Some(
            PoolConfig { admin, sxlm_token, native_token, fee_bps: fee_bps as i128 },
        );
        self.protocol_fee_bps = DEFAULT_PROTOCOL_FEE_BPS;
        self.accrued_protocol_fees = 0;
        self.mining_rate = 0;
        self.reward_vault = 0;
        self.reward_per_lp = 0;
        self.last_reward_ledger = inv.ledger;
        Ok(Receipt { value: (), auth: None, transfers: none_of(), events: none_of() })
    }

    // ------------------------------------------------------------------
    // Liquidity provision
    // ------------------------------------------------------------------

    /// Add liquidity to the pool. Returns LP tokens minted.
    pub fn add_liquidity(
        &mut self,
        inv: &Invocation,
        user: Address,
        xlm_amount: i128,
        sxlm_amount: i128,
    ) -> (r: PoolResult<i128>)
        requires
            old(self).wf(),
        ensures
            final(self).wf(),
            match model::add_liquidity_step(
                old(self)@,
                inv.contract,
                inv.ledger,
                user,
                xlm_amount,
                sxlm_amount,
            ) {
                Ok((next, out)) => r is Ok && r->Ok_0@ == out && final(self)@ == next,
                Err(e) => r == PoolResult::<i128>::Err(e) && *final(self) == *old(self),
            },
    {
        if !(xlm_amount > 0 && sxlm_amount > 0) {
            return Err(PoolError::AmountsNotPositive);
        }
        let (index, account) = match self.accrue_rewards(user, inv.ledger) {
            None => return Err(PoolError::Arithmetic),
            Some(accrued) => accrued,
        };
        let q: DepositQuote = match quote_deposit(
            self.total_lp,
            self.reserve_xlm,
            self.reserve_sxlm,
            xlm_amount,
            sxlm_amount,
        ) {
            None => return Err(PoolError::Arithmetic),
            Some(q) => q,
        };
        if q.lp <= 0 {
            return Err(PoolError::InsufficientLiquidityMinted);
        }
        if !(q.xlm > 0 && q.sxlm > 0) {
            return Err(PoolError::ZeroDeposit);
        }
        let config: PoolConfig = match self.config {
            None => return Err(PoolError::NotInitialized),
            Some(c) => c,
        };
        match (
            self.reserve_xlm.checked_add(q.xlm),
            self.reserve_sxlm.checked_add(q.sxlm),
            self.total_lp.checked_add(q.lp),
            account.balance.checked_add(q.lp),
        ) {
            (Some(reserve_xlm), Some(reserve_sxlm), Some(total_lp), Some(balance)) => {
                self.reward_per_lp = index;
                self.last_reward_ledger = inv.ledger;
                self.reserve_xlm = reserve_xlm;
                self.reserve_sxlm = reserve_sxlm;
                self.total_lp = total_lp;
                self.accounts.insert(
                    user.id,
                    LpAccount {
                        balance,
                        reward_paid: account.reward_paid,
                        pending_rewards: account.pending_rewards,
                    },
                );
                proof {
                    let s = old(self)@.accrue(user, inv.ledger)->Some_0;
                    assert(final(self)@ =~= s.deposited(user, q)->Some_0);
                }
                Ok(
                    Receipt {
                        value: q.lp,
                        auth: Some(user),
                        transfers: two_of(
                            Transfer {
                                token: config.native_token,
                                from: user,
                                to: inv.contract,
                                amount: q.xlm,
                            },
                            Transfer {
                                token: config.sxlm_token,
                                from: user,
                                to: inv.contract,
                                amount: q.sxlm,
                            },
                        ),
                        events: one_of(
                            PoolEvent::LiquidityAdded {
                                user,
                                xlm: q.xlm,
                                sxlm: q.sxlm,
                                lp: q.lp,
                            },
                        ),
                    },
                )
            },
            _ => Err(PoolError::Arithmetic),
        }
    }

    /// Remove liquidity from the pool. Returns (xlm_out, sxlm_out).
    pub fn remove_liquidity(&mut self, inv: &Invocation, user: Address, lp_amount: i128) -> (r:
        PoolResult<(i128, i128)>)
        requires
            old(self).wf(),
        ensures
            final(self).wf(),
            match model::remove_liquidity_step(
                old(self)@,
                inv.contract,
                inv.ledger,
                user,
                lp_amount,
            ) {
                Ok((next, out)) => r is Ok && r->Ok_0@ == out && final(self)@ == next,
                Err(e) => r == PoolResult::<(i128, i128)>::Err(e) && *final(self) == *old(self),
            },
    {
        if lp_amount <= 0 {
            return Err(PoolError::AmountNotPositive);
        }
        let (index, account) = match self.accrue_rewards(user, inv.ledger) {
            None => return Err(PoolError::Arithmetic),
            Some(accrued) => accrued,
        };
        if account.balance < lp_amount {
            return Err(PoolError::InsufficientLpBalance);
        }
        let (xlm_out, sxlm_out) = match (
            mul_div(lp_amount, self.reserve_xlm, self.total_lp),
            mul_div(lp_amount, self.reserve_sxlm, self.total_lp),
        ) {
            (Some(xlm_out), Some(sxlm_out)) => (xlm_out, sxlm_out),
            _ => return Err(PoolError::Arithmetic),
        };
        if !(xlm_out > 0 && sxlm_out > 0) {
            return Err(PoolError::InsufficientOutput);
        }
        match (
            self.reserve_xlm.checked_sub(xlm_out),
            self.reserve_sxlm.checked_sub(sxlm_out),
            self.total_lp.checked_sub(lp_amount),
            account.balance.checked_sub(lp_amount),
        ) {
            (Some(reserve_xlm), Some(reserve_sxlm), Some(total_lp), Some(balance)) => {
                let config: PoolConfig = match self.config {
                    None => return Err(PoolError::NotInitialized),
                    Some(c) => c,
                };
                self.reward_per_lp = index;
                self.last_reward_ledger = inv.ledger;
                self.reserve_xlm = reserve_xlm;
                self.reserve_sxlm = reserve_sxlm;
                self.total_lp = total_lp;
                self.accounts.insert(
                    user.id,
                    LpAccount {
                        balance,
                        reward_paid: account.reward_paid,
                        pending_rewards: account.pending_rewards,
                    },
                );
                proof {
                    let s = old(self)@.accrue(user, inv.ledger)->Some_0;
                    assert(final(self)@ =~= s.withdrawn(
                        user,
                        lp_amount,
                        xlm_out,
                        sxlm_out,
                    )->Some_0);
                }
                Ok(
                    Receipt {
                        value: (xlm_out, sxlm_out),
                        auth: Some(user),
                        transfers: two_of(
                            Transfer {
                                token: config.native_token,
                                from: inv.contract,
                                to: user,
                                amount: xlm_out,
                            },
                            Transfer {
                                token: config.sxlm_token,
                                from: inv.contract,
                                to: user,
                                amount: sxlm_out,
                            },
                        ),
                        events: one_of(
                            PoolEvent::LiquidityRemoved {
                                user,
                                lp: lp_amount,
                                xlm: xlm_out,
                                sxlm: sxlm_out,
                            },
                        ),
                    },
                )
            },
            _ => Err(PoolError::Arithmetic),
        }
    }

    // ------------------------------------------------------------------
    // Swaps
    // ------------------------------------------------------------------

    /// Moves the reserves and records the price that they make. Without a price that fits,
    /// nothing changes.
    fn set_reserves(&mut self, inv: &Invocation, reserve_xlm: i128, reserve_sxlm: i128) -> (done:
        bool)
        requires
            old(self).wf(),
        ensures
            final(self).wf(),
            match old(self)@.with_reserves(reserve_xlm, reserve_sxlm, inv.ledger) {
                Some(next) => done && final(self)@ == next,
                None => !done && *final(self) == *old(self),
            },
    {
        if reserve_sxlm != 0 {
            let price: i128 = match mul_div(reserve_xlm, RATE_PRECISION, reserve_sxlm) {
                None => return false,
                Some(price) => price,
            };
            self.samples = record_twap_sample(&inv.env, &self.samples, inv.ledger, price);
        }
        self.reserve_xlm = reserve_xlm;
        self.reserve_sxlm = reserve_sxlm;
        true
    }

    /// Swap XLM for sXLM. Returns sXLM received.
    pub fn swap_xlm_to_sxlm(
        &mut self,
        inv: &Invocation,
        user: Address,
        xlm_amount: i128,
        min_out: i128,
    ) -> (r: PoolResult<i128>)
        requires
            old(self).wf(),
        ensures
            final(self).wf(),
            match model::swap_xlm_to_sxlm_step(
                old(self)@,
                inv.contract,
                inv.ledger,
                user,
                xlm_amount,
                min_out,
            ) {
                Ok((next, out)) => r is Ok && r->Ok_0@ == out && final(self)@ == next,
                Err(e) => r == PoolResult::<i128>::Err(e) && *final(self) == *old(self),
            },
    {
        let fee_bps: i128 = self.fee_bps();
        let q: SwapQuote = match quote_swap(
            fee_bps,
            self.reserve_xlm,
            self.reserve_sxlm,
            xlm_amount,
            min_out,
        ) {
            Err(e) => return Err(e),
            Ok(q) => q,
        };
        let config: PoolConfig = match self.config {
            None => return Err(PoolError::NotInitialized),
            Some(c) => c,
        };
        let cut: i128 = match xlm_amount.checked_sub(q.kept) {
            None => return Err(PoolError::Arithmetic),
            Some(fee) => match mul_div(fee, self.protocol_fee_bps, fee_bps) {
                None => return Err(PoolError::Arithmetic),
                Some(cut) => cut,
            },
        };
        let reserve_xlm: i128 = match self.reserve_xlm.checked_add(xlm_amount) {
            None => return Err(PoolError::Arithmetic),
            Some(paid) => match paid.checked_sub(cut) {
                None => return Err(PoolError::Arithmetic),
                Some(reserve_xlm) => reserve_xlm,
            },
        };
        let accrued: i128 = match self.accrued_protocol_fees.checked_add(cut) {
            None => return Err(PoolError::Arithmetic),
            Some(accrued) => accrued,
        };
        let reserve_sxlm: i128 = self.reserve_sxlm - q.out;
        if !self.set_reserves(inv, reserve_xlm, reserve_sxlm) {
            return Err(PoolError::Arithmetic);
        }
        self.accrued_protocol_fees = accrued;
        Ok(
            Receipt {
                value: q.out,
                auth: Some(user),
                transfers: two_of(
                    Transfer {
                        token: config.native_token,
                        from: user,
                        to: inv.contract,
                        amount: xlm_amount,
                    },
                    Transfer {
                        token: config.sxlm_token,
                        from: inv.contract,
                        to: user,
                        amount: q.out,
                    },
                ),
                events: one_of(
                    PoolEvent::Swapped { user, amount_in: xlm_amount, amount_out: q.out },
                ),
            },
        )
    }

    /// Swap sXLM for XLM. Returns XLM received.
    pub fn swap_sxlm_to_xlm(
        &mut self,
        inv: &Invocation,
        user: Address,
        sxlm_amount: i128,
        min_out: i128,
    ) -> (r: PoolResult<i128>)
        requires
            old(self).wf(),
        ensures
            final(self).wf(),
            match model::swap_sxlm_to_xlm_step(
                old(self)@,
                inv.contract,
                inv.ledger,
                user,
                sxlm_amount,
                min_out,
            ) {
                Ok((next, out)) => r is Ok && r->Ok_0@ == out && final(self)@ == next,
                Err(e) => r == PoolResult::<i128>::Err(e) && *final(self) == *old(self),
            },
    {
        let q: SwapQuote = match quote_swap(
            self.fee_bps(),
            self.reserve_sxlm,
            self.reserve_xlm,
            sxlm_amount,
            min_out,
        ) {
            Err(e) => return Err(e),
            Ok(q) => q,
        };
        let config: PoolConfig = match self.config {
            None => return Err(PoolError::NotInitialized),
            Some(c) => c,
        };
        let reserve_sxlm: i128 = match self.reserve_sxlm.checked_add(sxlm_amount) {
            None => return Err(PoolError::Arithmetic),
            Some(reserve_sxlm) => reserve_sxlm,
        };
        let reserve_xlm: i128 = self.reserve_xlm - q.out;
        if !self.set_reserves(inv, reserve_xlm, reserve_sxlm) {
            return Err(PoolError::Arithmetic);
        }
        Ok(
            Receipt {
                value: q.out,
                auth: Some(user),
                transfers: two_of(
                    Transfer {
                        token: config.sxlm_token,
                        from: user,
                        to: inv.contract,
                        amount: sxlm_amount,
                    },
                    Transfer {
                        token: config.native_token,
                        from: inv.contract,
                        to: user,
                        amount: q.out,
                    },
                ),
                events: one_of(
                    PoolEvent::Swapped { user, amount_in: sxlm_amount, amount_out: q.out },
                ),
            },
        )
    }

    // ------------------------------------------------------------------
    // Protocol fee management
    // ------------------------------------------------------------------

    /// Pay the accrued protocol fees to the admin. Returns the amount paid.
    pub fn collect_protocol_fees(&mut self, inv: &Invocation) -> (r: PoolResult<i128>)
        requires
            old(self).wf(),
        ensures
            final(self).wf(),
            match model::collect_protocol_fees_step(old(self)@, inv.contract) {
                Ok((next, out)) => r is Ok && r->Ok_0@ == out && final(self)@ == next,
                Err(e) => r == PoolResult::<i128>::Err(e) && *final(self) == *old(self),
            },
    {
        let config: PoolConfig = match self.config {
            None => return Err(PoolError::NotInitialized),
            Some(c) => c,
        };
        let accrued: i128 = self.accrued_protocol_fees;
        if accrued <= 0 {
            return Ok(
                Receipt {
                    value: 0,
                    auth: Some(config.admin),
                    transfers: none_of(),
                    events: none_of(),
                },
            );
        }
        self.accrued_protocol_fees = 0;
        Ok(
            Receipt {
                value: accrued,
                auth: Some(config.admin),
                transfers: one_of(
                    Transfer {
                        token: config.native_token,
                        from: inv.contract,
                        to: config.admin,
                        amount: accrued,
                    },
                ),
                events: one_of(PoolEvent::FeesCollected { admin: config.admin, amount: accrued }),
            },
        )
    }

    /// Set the protocol's part of the swap fee. Admin-only.
    pub fn set_protocol_fee_bps(&mut self, bps: u32) -> (r: PoolResult<()>)
        requires
            old(self).wf(),
        ensures
            final(self).wf(),
            match model::set_protocol_fee_bps_step(old(self)@, bps) {
                Ok((next, out)) => r is Ok && r->Ok_0@ == out && final(self)@ == next,
                Err(e) => r == PoolResult::<()>::Err(e) && *final(self) == *old(self),
            },
    {
        let config: PoolConfig = match self.config {
            None => return Err(PoolError::NotInitialized),
            Some(c) => c,
        };
        self.protocol_fee_bps = bps as i128;
        Ok(
            Receipt {
                value: (),
                auth: Some(config.admin),
                transfers: none_of(),
                events: none_of(),
            },
        )
    }

    // ------------------------------------------------------------------
    // TWAP oracle
    // ------------------------------------------------------------------

    /// Returns the TWAP price of sXLM in XLM (scaled by RATE_PRECISION = 1e7).
    /// `period_ledgers` is the look-back window (e.g. 720 is about 1 hour at 5s/ledger).
    /// Falls back to spot price when fewer than 2 samples exist in the window.
    pub fn get_twap(&self, inv: &Invocation, period_ledgers: u32) -> (r: Result<i128, PoolError>)
        requires
            self.wf(),
        ensures
            match self@.twap(inv.ledger, period_ledgers) {
                Some(price) => r == Ok::<i128, PoolError>(price),
                None => r == Err::<i128, PoolError>(PoolError::Arithmetic),
            },
    {
        let cutoff: u32 = inv.ledger.saturating_sub(period_ledgers);
        let inside: u32 = count_in_window(&self.samples, cutoff);
        if inside < 2 {
            return self.get_price();
        }
        match average_price(&self.samples, cutoff, inv.ledger) {
            Some(price) => Ok(price),
            None => Err(PoolError::Arithmetic),
        }
    }

    /// Returns all stored TWAP samples (for indexer / frontend display).
    pub fn get_twap_samples(&self) -> (r: Vec<TwapSample>)
        requires
            self.wf(),
        ensures
            r@ == self@.samples,
    {
        let len: u32 = pairs_len(&self.samples);
        let mut r: Vec<TwapSample> = Vec::new();
        let mut i: u32 = 0;
        while i < len
            invariant
                self.wf(),
                len == sdk::pair_items(self.samples).len(),
                i <= len,
                r@ == self@.samples.take(i as int),
            decreases len - i,
        {
            match pairs_get(&self.samples, i) {
                Some(p) => {
                    proof {
                        assert(self@.samples.take(i + 1) =~= self@.samples.take(i as int).push(
                            TwapSample { ledger: p.0, price: p.1 },
                        ));
                    }
                    r.push(TwapSample { ledger: p.0, price: p.1 });
                },
                None => {},
            }
            i = i + 1;
        }
        proof {
            assert(self@.samples.take(len as int) =~= self@.samples);
        }
        r
    }

    // ------------------------------------------------------------------
    // Liquidity mining
    // ------------------------------------------------------------------

    /// Set the per-ledger mining reward rate. Governance-controlled.
    /// `rate` is XLM stroops per ledger distributed across all LP holders.
    /// Callable by admin (governance contract after timelock).
    pub fn set_mining_rate(&mut self, inv: &Invocation, admin: Address, rate: i128) -> (r:
        PoolResult<()>)
        requires
            old(self).wf(),
        ensures
            final(self).wf(),
            match model::set_mining_rate_step(old(self)@, inv.ledger, admin, rate) {
                Ok((next, out)) => r is Ok && r->Ok_0@ == out && final(self)@ == next,
                Err(e) => r == PoolResult::<()>::Err(e) && *final(self) == *old(self),
            },
    {
        match self.config {
            None => return Err(PoolError::NotInitialized),
            Some(c) => if admin != c.admin {
                return Err(PoolError::NotAdmin);
            },
        }
        let index: i128 = match self.reward_index(inv.ledger) {
            None => return Err(PoolError::Arithmetic),
            Some(index) => index,
        };
        self.reward_per_lp = index;
        self.last_reward_ledger = inv.ledger;
        self.mining_rate = rate;
        Ok(
            Receipt {
                value: (),
                auth: Some(admin),
                transfers: none_of(),
                events: one_of(PoolEvent::MiningRateSet { rate }),
            },
        )
    }

    /// Fund the mining reward vault. Anyone can top up.
    /// Transfers `amount` of native XLM from `funder` into the pool's vault.
    pub fn fund_mining_rewards(&mut self, inv: &Invocation, funder: Address, amount: i128) -> (r:
        PoolResult<()>)
        requires
            old(self).wf(),
        ensures
            final(self).wf(),
            match model::fund_mining_rewards_step(old(self)@, inv.contract, funder, amount) {
                Ok((next, out)) => r is Ok && r->Ok_0@ == out && final(self)@ == next,
                Err(e) => r == PoolResult::<()>::Err(e) && *final(self) == *old(self),
            },
    {
        if amount <= 0 {
            return Err(PoolError::AmountNotPositive);
        }
        let config: PoolConfig = match self.config {
            None => return Err(PoolError::NotInitialized),
            Some(c) => c,
        };
        let vault: i128 = match self.reward_vault.checked_add(amount) {
            None => return Err(PoolError::Arithmetic),
            Some(vault) => vault,
        };
        self.reward_vault = vault;
        Ok(
            Receipt {
                value: (),
                auth: Some(funder),
                transfers: one_of(
                    Transfer {
                        token: config.native_token,
                        from: funder,
                        to: inv.contract,
                        amount,
                    },
                ),
                events: one_of(PoolEvent::MiningFunded { funder, amount }),
            },
        )
    }

    /// Claim accumulated mining rewards. Transfers XLM from the reward vault.
    pub fn claim_mining_rewards(&mut self, inv: &Invocation, user: Address) -> (r: PoolResult<i128>)
        requires
            old(self).wf(),
        ensures
            final(self).wf(),
            match model::claim_mining_rewards_step(old(self)@, inv.contract, inv.ledger, user) {
                Ok((next, out)) => r is Ok && r->Ok_0@ == out && final(self)@ == next,
                Err(e) => r == PoolResult::<i128>::Err(e) && *final(self) == *old(self),
            },
    {
        let (index, account) = match self.accrue_rewards(user, inv.ledger) {
            None => return Err(PoolError::Arithmetic),
            Some(accrued) => accrued,
        };
        let pending: i128 = account.pending_rewards;
        if pending <= 0 {
            self.reward_per_lp = index;
            self.last_reward_ledger = inv.ledger;
            self.accounts.insert(user.id, account);
            return Ok(
                Receipt {
                    value: 0,
                    auth: Some(user),
                    transfers: none_of(),
                    events: none_of(),
                },
            );
        }
        let vault: i128 = self.reward_vault;
        let amount: i128 = if pending > vault {
            vault
        } else {
            pending
        };
        if amount <= 0 {
            return Err(PoolError::RewardVaultEmpty);
        }
        let config: PoolConfig = match self.config {
            None => return Err(PoolError::NotInitialized),
            Some(c) => c,
        };
        self.reward_per_lp = index;
        self.last_reward_ledger = inv.ledger;
        self.reward_vault = vault - amount;
        self.accounts.insert(
            user.id,
            LpAccount {
                balance: account.balance,
                reward_paid: account.reward_paid,
                pending_rewards: pending - amount,
            },
        );
        proof {
            let t = old(self)@.accrue(user, inv.ledger)->Some_0;
            assert(self@.accounts =~= t.accounts.insert(
                user.id,
                LpAccount { pending_rewards: (pending - amount) as i128, ..account },
            ));
        }
        Ok(
            Receipt {
                value: amount,
                auth: Some(user),
                transfers: one_of(
                    Transfer {
                        token: config.native_token,
                        from: inv.contract,
                        to: user,
                        amount,
                    },
                ),
                events: one_of(PoolEvent::RewardsClaimed { user, amount }),
            },
        )
    }

    // ------------------------------------------------------------------
    // Views
    // ------------------------------------------------------------------

    pub fn accrued_protocol_fees(&self) -> (r: i128)
        ensures
            r == self@.accrued_protocol_fees,
    {
        self.accrued_protocol_fees
    }

    pub fn protocol_fee_bps(&self) -> (r: i128)
        ensures
            r == self@.protocol_fee_bps,
    {
        self.protocol_fee_bps
    }

    /// Returns (reserve_xlm, reserve_sxlm).
    pub fn get_reserves(&self) -> (r: (i128, i128))
        ensures
            r == (self@.reserve_xlm, self@.reserve_sxlm),
    {
        (self.reserve_xlm, self.reserve_sxlm)
    }

    /// Returns spot price of sXLM in XLM (scaled by RATE_PRECISION = 1e7).
    pub fn get_price(&self) -> (r: Result<i128, PoolError>)
        ensures
            match self@.price() {
                Some(price) => r == Ok::<i128, PoolError>(price),
                None => r == Err::<i128, PoolError>(PoolError::Arithmetic),
            },
    {
        if self.reserve_sxlm == 0 {
            return Ok(RATE_PRECISION);
        }
        match mul_div(self.reserve_xlm, RATE_PRECISION, self.reserve_sxlm) {
            Some(price) => Ok(price),
            None => Err(PoolError::Arithmetic),
        }
    }

    pub fn get_lp_balance(&self, user: Address) -> (r: i128)
        ensures
            r == self@.account(user).balance,
    {
        self.account(user).balance
    }

    pub fn total_lp_supply(&self) -> (r: i128)
        ensures
            r == self@.total_lp,
    {
        self.total_lp
    }

    /// Returns pending (unclaimed) mining rewards for a user.
    pub fn get_pending_rewards(&self, inv: &Invocation, user: Address) -> (r: Result<
        i128,
        PoolError,
    >)
        ensures
            match self@.pending_rewards(user, inv.ledger) {
                Some(pending) => r == Ok::<i128, PoolError>(pending),
                None => r == Err::<i128, PoolError>(PoolError::Arithmetic),
            },
    {
        match self.accrue_rewards(user, inv.ledger) {
            None => Err(PoolError::Arithmetic),
            Some((index, account)) => Ok(account.pending_rewards),
        }
    }

    /// Returns the mining rate in XLM stroops per ledger.
    pub fn get_mining_rate(&self) -> (r: i128)
        ensures
            r == self@.mining_rate,
    {
        self.mining_rate
    }

    /// Returns (mining_rate, reward_vault_balance, reward_per_lp_stored).
    pub fn get_mining_stats(&self) -> (r: (i128, i128, i128))
        ensures
            r == (self@.mining_rate, self@.reward_vault, self@.reward_per_lp),
    {
        (self.mining_rate, self.reward_vault, self.reward_per_lp)
    }

    // ------------------------------------------------------------------
    // Upkeep
    // ------------------------------------------------------------------

    /// Upgrade the contract WASM. Admin-only. Returns the hash of the code to install.
    pub fn upgrade(&self, new_wasm_hash: [u8; 32]) -> (r: PoolResult<[u8; 32]>)
        ensures
            match self@.config {
                Some(c) => r is Ok && r->Ok_0.value == new_wasm_hash && r->Ok_0.auth == Some(
                    c.admin,
                ) && r->Ok_0.transfers@.len() == 0 && r->Ok_0.events@.len() == 0,
                None => r == PoolResult::<[u8; 32]>::Err(PoolError::NotInitialized),
            },
    {
        match self.config {
            None => Err(PoolError::NotInitialized),
            Some(c) => Ok(
                Receipt {
                    value: new_wasm_hash,
                    auth: Some(c.admin),
                    transfers: none_of(),
                    events: none_of(),
                },
            ),
        }
    }

    /// The extension of the instance storage that keeps the contract alive. Anyone may ask
    /// for it.
    pub fn bump_instance(&self) -> (r: Extension)
        ensures
            r.threshold == host::INSTANCE_LIFETIME_THRESHOLD,
            r.extend_to == host::INSTANCE_BUMP_AMOUNT,
    {
        Extension {
            threshold: host::INSTANCE_LIFETIME_THRESHOLD,
            extend_to: host::INSTANCE_BUMP_AMOUNT,
        }
    }
}

} // verus!
