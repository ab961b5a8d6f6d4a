//! What each call of governance accepts, records and asks for.

use vstd::prelude::*;
use crate::arith;
use crate::host::Address;
use super::model;
use super::model::{
    GovernanceConfig, GovernanceError, GovernanceReport, GovernanceState, ProposalState,
};

verus! {

/// Whether `voter` is recorded as having voted on the proposal `id`.
pub open spec fn voted(s: GovernanceState, id: u64, voter: Address) -> bool {
    s.votes.contains((id * 4_294_967_296 + voter.id) as u128)
}

/// What is read of votes, proposals and parameters is what is kept; a parameter that was never
/// set is empty, and the votes of different voters or on different proposals are kept apart.
pub proof fn law_records_are_read_as_kept(
    s: GovernanceState,
    id: u64,
    voter: Address,
    other_id: u64,
    other_voter: Address,
    key: Seq<u8>,
)
    ensures
        s.has_voted(id, voter) == voted(s, id, voter),
        (id * 4_294_967_296 + voter.id) as u128 == (other_id * 4_294_967_296 + other_voter.id) as u128
            ==> id == other_id && voter == other_voter,
        match s.proposal(id) {
            Ok(p) => s.proposals.contains_key(id) && p == s.proposals[id],
            Err(e) => !s.proposals.contains_key(id) && e == GovernanceError::ProposalNotFound,
        },
        s.params.contains_key(key) ==> s.param(key) == s.params[key],
        !s.params.contains_key(key) ==> s.param(key).len() == 0,
{
}

/// Initialization happens once. It fixes the admin, the token, the voting period and the quorum,
/// and starts without a reference supply.
pub proof fn law_initialization(
    s: GovernanceState,
    admin: Address,
    sxlm_token: Address,
    period: u32,
    quorum_bps: u32,
)
    ensures
        match model::initialize_step(s, admin, sxlm_token, period, quorum_bps) {
            Ok((t, out)) => {
                &&& s.config is None
                &&& t.config == Some(GovernanceConfig { admin, sxlm_token })
                &&& t.voting_period == period && t.quorum_bps == quorum_bps
                &&& t.reference_supply == 0
                &&& t.timelock == s.timelock && t.proposal_count == s.proposal_count
                &&& t.proposals == s.proposals && t.votes == s.votes
                &&& t.params == s.params && t.op_ids == s.op_ids
                &&& out.auth is None && out.transfers.len() == 0 && out.events.len() == 0
            },
            Err(e) => s.config is Some && e == GovernanceError::AlreadyInitialized,
        },
{
}

/// The admin of an initialized governance may set any timelock at any time.
pub proof fn law_timelock_is_set(s: GovernanceState, admin: Address, timelock: Address)
    ensures
        match model::set_timelock_contract_step(s, admin, timelock) {
            Ok((t, out)) => {
                &&& s.config is Some && s.config->Some_0.admin == admin
                &&& t == (GovernanceState { timelock: Some(timelock), ..s })
                &&& out.auth == Some(admin) && out.transfers.len() == 0
                &&& out.events == seq![GovernanceReport::TimelockSet { timelock }]
            },
            Err(e) => match s.config {
                None => e == GovernanceError::NotInitialized,
                Some(c) => e == GovernanceError::OnlyAdmin && c.admin != admin,
            },
        },
{
}

/// The reference supply may be set to any number that is not negative, with the admin's
/// authorization.
pub proof fn law_reference_supply_is_set(s: GovernanceState, supply: i128)
    ensures
        match model::set_reference_supply_step(s, supply) {
            Ok((t, out)) => {
                &&& s.config is Some && supply >= 0
                &&& t == (GovernanceState { reference_supply: supply, ..s })
                &&& out.auth == Some(s.config->Some_0.admin)
                &&& out.transfers.len() == 0 && out.events.len() == 0
            },
            Err(e) => if s.config is None {
                e == GovernanceError::NotInitialized
            } else {
                e == GovernanceError::SupplyNegative && supply < 0
            },
        },
{
}

/// Whoever holds 100 sXLM may propose any value for any parameter at any ledger. The proposal
/// gets the next number, is open for votes for the voting period from then on, and starts
/// without votes. Nothing else changes.
pub proof fn law_proposals_are_created(
    s: GovernanceState,
    ledger: u32,
    proposer: Address,
    param_key: Seq<u8>,
    new_value: Seq<u8>,
    balance: i128,
)
    ensures
        match model::create_proposal_step(s, ledger, proposer, param_key, new_value, balance) {
            Ok((t, out)) => {
                let id = s.proposal_count;
                &&& s.config is Some && balance >= 1_000_000_000
                &&& out.value == id
                &&& t.proposal_count == id + 1
                &&& t.proposals == s.proposals.insert(
                    id,
                    ProposalState {
                        id,
                        proposer,
                        param_key,
                        new_value,
                        votes_for: 0,
                        votes_against: 0,
                        start_ledger: ledger,
                        end_ledger: (ledger + s.voting_period) as u32,
                        executed: false,
                        queued: false,
                    },
                )
                &&& ledger + s.voting_period <= u32::MAX
                &&& t == (GovernanceState {
                    proposal_count: t.proposal_count,
                    proposals: t.proposals,
                    ..s
                })
                &&& out.auth == Some(proposer) && out.transfers.len() == 0
                &&& out.events == seq![GovernanceReport::Proposed { id, proposer, param_key }]
            },
            Err(e) => if s.config is None {
                e == GovernanceError::NotInitialized
            } else if balance < 1_000_000_000 {
                e == GovernanceError::InsufficientSxlm
            } else {
                &&& e == GovernanceError::Arithmetic
                &&& s.proposal_count == u64::MAX || ledger + s.voting_period > u32::MAX
            },
        },
{
}

/// Whoever holds sXLM and did not vote on a proposal yet may vote on it up to and at its last
/// ledger. Their whole balance counts for the side that they take. Nothing else changes.
pub proof fn law_votes_are_counted(
    s: GovernanceState,
    ledger: u32,
    voter: Address,
    id: u64,
    support: bool,
    weight: i128,
)
    ensures
        match model::vote_step(s, ledger, voter, id, support, weight) {
            Ok((t, out)) => {
                let p = s.proposals[id];
                let q = t.proposals[id];
                &&& s.config is Some && s.proposals.contains_key(id)
                &&& ledger <= p.end_ledger && !voted(s, id, voter) && weight > 0
                &&& q.votes_for == p.votes_for + (if support {
                    weight as int
                } else {
                    0
                })
                &&& q.votes_against == p.votes_against + (if support {
                    0
                } else {
                    weight as int
                })
                &&& q == (ProposalState {
                    votes_for: q.votes_for,
                    votes_against: q.votes_against,
                    ..p
                })
                &&& t == (GovernanceState {
                    proposals: s.proposals.insert(id, q),
                    votes: s.votes.insert((id * 4_294_967_296 + voter.id) as u128),
                    ..s
                })
                &&& out.auth == Some(voter) && out.transfers.len() == 0
                &&& out.events == seq![
                    GovernanceReport::Voted { proposal_id: id, voter, support, weight },
                ]
            },
            Err(e) => if !s.proposals.contains_key(id) {
                e == GovernanceError::ProposalNotFound
            } else if ledger > s.proposals[id].end_ledger {
                e == GovernanceError::VotingEnded
            } else if voted(s, id, voter) {
                e == GovernanceError::AlreadyVoted
            } else if s.config is None {
                e == GovernanceError::NotInitialized
            } else if weight <= 0 {
                e == GovernanceError::NoSxlm
            } else {
                &&& e == GovernanceError::Arithmetic
                &&& weight + (if support {
                    s.proposals[id].votes_for
                } else {
                    s.proposals[id].votes_against
                }) > i128::MAX
            },
        },
{
}

/// Whether `needed` is the number of votes that the quorum asks for: its part of the reference
/// supply, rounded down, and none without a reference supply.
pub open spec fn is_quorum(s: GovernanceState, needed: int) -> bool {
    if s.reference_supply > 0 {
        needed * 10_000 <= s.reference_supply * s.quorum_bps < (needed + 1) * 10_000
    } else {
        needed == 0
    }
}

/// Whether a proposal has passed at `ledger` where the quorum asks for `needed` votes: voting has
/// ended, somebody voted, the votes reach the quorum, and more of them are for it than against
/// it.
pub open spec fn has_passed(p: ProposalState, ledger: u32, needed: int) -> bool {
    &&& ledger > p.end_ledger
    &&& p.votes_for + p.votes_against > 0
    &&& p.votes_for + p.votes_against >= needed
    &&& p.votes_for > p.votes_against
}

/// A proposal that is neither queued nor finalized is handed to the timelock exactly if it has
/// passed and a timelock is configured, at every ledger after the end of voting, however late.
/// The timelock is asked to queue the change that was proposed. Besides, only a number that does
/// not fit stops it.
pub proof fn law_passed_proposals_are_queued(
    s: GovernanceState,
    contract: Address,
    ledger: u32,
    id: u64,
    needed: int,
)
    requires
        s.quorum_bps >= 0,
        is_quorum(s, needed),
        s.proposals.contains_key(id) ==> s.proposals[id].votes_for >= 0
            && s.proposals[id].votes_against >= 0,
    ensures
        match model::queue_call(s, contract, ledger, id) {
            Ok(call) => {
                let p = s.proposals[id];
                &&& s.proposals.contains_key(id) && !p.executed && !p.queued
                &&& has_passed(p, ledger, needed)
                &&& s.timelock == Some(call.timelock)
                &&& call.caller == contract && call.proposal_id == id
                &&& call.param_key == p.param_key && call.new_value == p.new_value
            },
            Err(e) => {
                let p = s.proposals[id];
                let total = p.votes_for + p.votes_against;
                if !s.proposals.contains_key(id) {
                    e == GovernanceError::ProposalNotFound
                } else if p.executed {
                    e == GovernanceError::AlreadyFinalized
                } else if p.queued {
                    e == GovernanceError::AlreadyInQueue
                } else if ledger <= p.end_ledger {
                    e == GovernanceError::VotingNotEnded
                } else if total == 0 {
                    e == GovernanceError::NoVotesCast
                } else {
                    ||| e == GovernanceError::QuorumNotMet && total < needed
                    ||| {
                        &&& e == GovernanceError::ProposalDidNotPass
                        &&& p.votes_for <= p.votes_against && total >= needed
                    }
                    ||| {
                        &&& e == GovernanceError::TimelockNotConfigured
                        &&& s.timelock is None && has_passed(p, ledger, needed)
                    }
                    ||| {
                        &&& e == GovernanceError::Arithmetic
                        &&& total > i128::MAX || (s.reference_supply > 0 && s.reference_supply
                            * s.quorum_bps > i128::MAX)
                    }
                }
            },
        },
{
    if s.reference_supply > 0 {
        assert(s.reference_supply * s.quorum_bps >= 0) by (nonlinear_arith)
            requires
                s.reference_supply > 0,
                s.quorum_bps >= 0,
        ;
        if s.reference_supply * s.quorum_bps <= i128::MAX {
            arith::lemma_mul_div_is(s.reference_supply, s.quorum_bps, 10_000, needed);
        }
    }
}

/// A proposal that may be queued at one ledger may be queued at every later one, until it is.
pub proof fn law_queueing_has_no_deadline(
    s: GovernanceState,
    contract: Address,
    ledger: u32,
    later: u32,
    id: u64,
)
    requires
        ledger <= later,
        model::queue_call(s, contract, ledger, id) is Ok,
    ensures
        model::queue_call(s, contract, later, id) == model::queue_call(s, contract, ledger, id),
{
}

/// Queueing a proposal is accepted exactly if it may be handed to the timelock. It marks the
/// proposal as queued and keeps the operation that the timelock named. Nothing else changes.
pub proof fn law_queueing_records_the_operation(
    s: GovernanceState,
    contract: Address,
    ledger: u32,
    id: u64,
    op_id: Seq<u8>,
)
    ensures
        match model::execute_proposal_step(s, contract, ledger, id, op_id) {
            Ok((t, out)) => {
                &&& model::queue_call(s, contract, ledger, id) is Ok
                &&& out.value == op_id
                &&& t == (GovernanceState {
                    op_ids: s.op_ids.insert(id, op_id),
                    proposals: s.proposals.insert(
                        id,
                        ProposalState { queued: true, ..s.proposals[id] },
                    ),
                    ..s
                })
                &&& out.auth is None && out.transfers.len() == 0
                &&& out.events == seq![GovernanceReport::Queued { proposal_id: id, op_id }]
            },
            Err(e) => model::queue_call(s, contract, ledger, id) matches Err(f) && e == f,
        },
{
}

/// The timelock is asked about the operation of every proposal that is queued and not finalized,
/// if a timelock is configured.
pub proof fn law_queued_proposals_are_asked_about(s: GovernanceState, id: u64)
    ensures
        match model::status_call(s, id) {
            Ok(call) => {
                &&& s.proposals.contains_key(id) && s.op_ids.contains_key(id)
                &&& s.proposals[id].queued && !s.proposals[id].executed
                &&& s.timelock == Some(call.timelock) && call.op_id == s.op_ids[id]
            },
            Err(e) => if !s.proposals.contains_key(id) {
                e == GovernanceError::ProposalNotFound
            } else if !s.proposals[id].queued {
                e == GovernanceError::NotInQueue
            } else if s.proposals[id].executed {
                e == GovernanceError::AlreadyFinalized
            } else if !s.op_ids.contains_key(id) {
                e == GovernanceError::OpIdNotFound
            } else {
                e == GovernanceError::TimelockNotConfigured && s.timelock is None
            },
        },
{
}

/// A queued proposal that is not finalized is finalized exactly if the timelock executed its
/// operation and is configured. The parameter gets the proposed value, whatever it was, and the
/// proposal is marked. Nothing else changes.
pub proof fn law_executed_proposals_are_finalized(s: GovernanceState, id: u64, is_executed: bool)
    ensures
        match model::finalize_proposal_step(s, id, is_executed) {
            Ok((t, out)) => {
                let p = s.proposals[id];
                &&& is_executed && s.timelock is Some
                &&& s.proposals.contains_key(id) && s.op_ids.contains_key(id)
                &&& p.queued && !p.executed
                &&& t == (GovernanceState {
                    params: s.params.insert(p.param_key, p.new_value),
                    proposals: s.proposals.insert(id, ProposalState { executed: true, ..p }),
                    ..s
                })
                &&& out.auth is None && out.transfers.len() == 0
                &&& out.events == seq![
                    GovernanceReport::Finalized {
                        proposal_id: id,
                        param_key: p.param_key,
                        new_value: p.new_value,
                    },
                ]
            },
            Err(e) => if !s.proposals.contains_key(id) {
                e == GovernanceError::ProposalNotFound
            } else if !s.proposals[id].queued {
                e == GovernanceError::NotInQueue
            } else if s.proposals[id].executed {
                e == GovernanceError::AlreadyFinalized
            } else if !s.op_ids.contains_key(id) {
                e == GovernanceError::OpIdNotFound
            } else if s.timelock is None {
                e == GovernanceError::TimelockNotConfigured
            } else {
                e == GovernanceError::NotYetExecuted && !is_executed
            },
        },
{
}

/// The admin may have the timelock cancel the operation of any proposal that is queued and not
/// finalized, in the name of governance.
pub proof fn law_admin_cancels_queued_proposals(
    s: GovernanceState,
    contract: Address,
    admin: Address,
    id: u64,
)
    ensures
        match model::cancel_proposal_step(s, contract, admin, id) {
            Ok(out) => {
                &&& s.config is Some && s.config->Some_0.admin == admin
                &&& s.proposals.contains_key(id) && s.op_ids.contains_key(id)
                &&& s.proposals[id].queued && !s.proposals[id].executed
                &&& s.timelock == Some(out.value.timelock)
                &&& out.value.canceller == contract && out.value.op_id == s.op_ids[id]
                &&& out.auth == Some(admin) && out.transfers.len() == 0
                &&& out.events == seq![
                    GovernanceReport::Cancelled { proposal_id: id, op_id: s.op_ids[id] },
                ]
            },
            Err(e) => match s.config {
                None => e == GovernanceError::NotInitialized,
                Some(c) => if c.admin != admin {
                    e == GovernanceError::OnlyAdminMayCancel
                } else if !s.proposals.contains_key(id) {
                    e == GovernanceError::ProposalNotFound
                } else if !s.proposals[id].queued {
                    e == GovernanceError::NothingToCancel
                } else if s.proposals[id].executed {
                    e == GovernanceError::AlreadyFinalized
                } else if !s.op_ids.contains_key(id) {
                    e == GovernanceError::OpIdNotFound
                } else {
                    e == GovernanceError::TimelockNotConfigured && s.timelock is None
                },
            },
        },
{
}

/// A new governance has no proposals, votes or parameters and is not initialized. Its voting period
/// is 17280 ledgers and its quorum 10 %.
pub proof fn law_new_governance_is_empty(id: u64, voter: Address, key: Seq<u8>)
    ensures
        ({
            let s = GovernanceState::blank();
            &&& s.config is None && s.timelock is None
            &&& s.voting_period == 17_280 && s.quorum_bps == 1_000
            &&& s.proposal_count == 0 && s.reference_supply == 0
            &&& !s.proposals.contains_key(id) && !s.op_ids.contains_key(id)
            &&& !voted(s, id, voter)
            &&& !s.params.contains_key(key)
        }),
{
}

} // verus!
