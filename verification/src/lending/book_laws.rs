//! The market's books and the tokens that it holds.

use vstd::prelude::*;
use crate::host;
use crate::host::{Address, Transfer};
use super::laws;
use super::laws::LendingCall;
use super::model;
use super::model::{Claim, LendingState, Seizure};

verus! {

/// What the market accounts for in `token`: the collateral, less the XLM that is lent out.
pub open spec fn booked(s: LendingState, token: Address) -> int {
    s.asset(token).total_collateral - (match s.config {
        Some(c) => if c.native_token == token {
            s.total_borrowed as int
        } else {
            0
        },
        None => 0,
    })
}

/// What one transfer brings.
proof fn lemma_one_transfer(t: Transfer, token: Address, holder: Address)
    ensures
        host::net_inflow(seq![t], token, holder) == host::inflow(t, token, holder),
        host::net_inflow(Seq::empty(), token, holder) == 0,
{
    host::lemma_net_inflow(t, t, token, holder);
}

/// The transfers of seized collateral take from the market what is taken off the totals.
proof fn lemma_seized_transfers(
    s: LendingState,
    contract: Address,
    liquidator: Address,
    borrower: Address,
    claim: Claim,
    list: Seq<u32>,
    token: Address,
)
    requires
        liquidator != contract,
        s.seize(borrower, claim, list) is Ok,
    ensures
        ({
            let (t, seized) = s.seize(borrower, claim, list)->Ok_0;
            t.asset(token).total_collateral - s.asset(token).total_collateral == host::net_inflow(
                seized.map_values(|x: Seizure| model::seizure_transfer(contract, liquidator, x)),
                token,
                contract,
            )
        }),
    decreases list.len(),
{
    let f = |x: Seizure| model::seizure_transfer(contract, liquidator, x);
    let (t, seized) = s.seize(borrower, claim, list)->Ok_0;
    if list.len() == 0 {
        assert(seized.map_values(f) =~= Seq::empty());
    } else {
        let rest = list.drop_last();
        let (u, before) = s.seize(borrower, claim, rest)->Ok_0;
        let asset = Address { id: list.last() };
        let amount = u.seizable(borrower, claim, asset)->Ok_0;
        lemma_seized_transfers(s, contract, liquidator, borrower, claim, rest, token);
        laws::lemma_seizable(u, borrower, claim, asset);
        if amount != 0 {
            let moved = before.map_values(f);
            let last = f(Seizure { asset, amount });
            assert(seized.map_values(f) =~= moved.push(last));
            assert(moved.push(last).drop_last() =~= moved);
        }
    }
}

/// What a liquidation brings and takes is what it books.
proof fn lemma_liquidate_books(
    s: LendingState,
    contract: Address,
    liquidator: Address,
    borrower: Address,
    token: Address,
)
    requires
        liquidator != contract,
        model::liquidate_step(s, contract, liquidator, borrower) is Ok,
    ensures
        ({
            let (t, out) = model::liquidate_step(s, contract, liquidator, borrower)->Ok_0;
            booked(t, token) - booked(s, token) == host::net_inflow(
                out.transfers,
                token,
                contract,
            )
        }),
{
    let (t, out) = model::liquidate_step(s, contract, liquidator, borrower)->Ok_0;
    let debt = s.debt(borrower);
    let claim = s.claim(borrower)->Ok_0;
    let u = model::cleared(s, borrower);
    let payment = Transfer {
        token: s.config->Some_0.native_token,
        from: liquidator,
        to: contract,
        amount: debt,
    };
    let seized = u.seize(borrower, claim, s.asset_list)->Ok_0.1;
    let f = |x: Seizure| model::seizure_transfer(contract, liquidator, x);
    laws::lemma_liquidated(s, contract, liquidator, borrower);
    lemma_seized_transfers(u, contract, liquidator, borrower, claim, s.asset_list, token);
    host::lemma_net_inflow_append(seq![payment], seized.map_values(f), token, contract);
    lemma_one_transfer(payment, token, contract);
    assert(out.transfers =~= seq![payment] + seized.map_values(f));
    assert(u.asset(token) == s.asset(token));
}

/// What the market accounts for in any token changes by exactly what reaches or leaves it, if
/// no asset is registered while it has collateral and nobody pays themselves.
pub proof fn law_books_match_transfers(
    s: LendingState,
    contract: Address,
    call: LendingCall,
    token: Address,
)
    requires
        call is Initialize ==> laws::empty_before_start(s),
        laws::registers_empty(s, call),
        host::between_parties(laws::after_call(s, contract, call).1),
    ensures
        ({
            let (t, transfers) = laws::after_call(s, contract, call);
            booked(t, token) - booked(s, token) == host::net_inflow(transfers, token, contract)
        }),
{
    let (t, transfers) = laws::after_call(s, contract, call);
    if transfers.len() == 0 {
        assert(transfers =~= Seq::empty());
    }
    lemma_one_transfer(transfers[0], token, contract);
    match call {
        LendingCall::Initialize { sxlm_token, .. } => {
            assert(s.config is None ==> laws::untouched(s, sxlm_token));
            assert(s.config is None ==> laws::untouched(s, token));
        },
        LendingCall::DepositCollateral { .. }
        | LendingCall::WithdrawCollateral { .. }
        | LendingCall::Borrow { .. }
        | LendingCall::Repay { .. } => {
            if transfers.len() > 0 {
                assert(transfers =~= seq![transfers[0]]);
            }
        },
        LendingCall::Liquidate { liquidator, borrower } => {
            if model::liquidate_step(s, contract, liquidator, borrower) is Ok {
                assert(transfers[0].from == liquidator && transfers[0].to == contract);
                lemma_liquidate_books(s, contract, liquidator, borrower, token);
            }
        },
        _ => {},
    }
}

} // verus!
