//! What holds of governance whatever calls it receives.

use vstd::prelude::*;
use crate::arith::{mul_div, BPS_DENOMINATOR};
use crate::host::Address;
use super::model;
use super::model::{
    GovernanceError, GovernanceState, GovernanceStep, ProposalState, QueueCall,
    MIN_PROPOSAL_BALANCE,
};

verus! {

/// A call that may change governance.
pub enum GovernanceCall {
    Initialize {
        admin: Address,
        sxlm_token: Address,
        voting_period_ledgers: u32,
        quorum_bps: u32,
    },
    SetTimelockContract { admin: Address, timelock: Address },
    SetReferenceSupply { supply: i128 },
    CreateProposal { proposer: Address, param_key: Seq<u8>, new_value: Seq<u8>, balance: i128 },
    Vote { voter: Address, proposal_id: u64, support: bool, weight: i128 },
    ExecuteProposal { proposal_id: u64, op_id: Seq<u8> },
    FinalizeProposal { proposal_id: u64, is_executed: bool },
}

/// The state after a step: the next one if the call was accepted, else the one before.
pub open spec fn settled<T>(s: GovernanceState, step: GovernanceStep<T>) -> GovernanceState {
    match step {
        Ok((next, _)) => next,
        Err(_) => s,
    }
}

/// The state after a call to the contract at address `contract` at `ledger`.
pub open spec fn after_call(
    s: GovernanceState,
    contract: Address,
    ledger: u32,
    call: GovernanceCall,
) -> GovernanceState {
    match call {
        GovernanceCall::Initialize { admin, sxlm_token, voting_period_ledgers, quorum_bps } => settled(
            s,
            model::initialize_step(s, admin, sxlm_token, voting_period_ledgers, quorum_bps),
        ),
        GovernanceCall::SetTimelockContract { admin, timelock } => settled(
            s,
            model::set_timelock_contract_step(s, admin, timelock),
        ),
        GovernanceCall::SetReferenceSupply { supply } => settled(
            s,
            model::set_reference_supply_step(s, supply),
        ),
        GovernanceCall::CreateProposal { proposer, param_key, new_value, balance } => settled(
            s,
            model::create_proposal_step(s, ledger, proposer, param_key, new_value, balance),
        ),
        GovernanceCall::Vote { voter, proposal_id, support, weight } => settled(
            s,
            model::vote_step(s, ledger, voter, proposal_id, support, weight),
        ),
        GovernanceCall::ExecuteProposal { proposal_id, op_id } => settled(
            s,
            model::execute_proposal_step(s, contract, ledger, proposal_id, op_id),
        ),
        GovernanceCall::FinalizeProposal { proposal_id, is_executed } => settled(
            s,
            model::finalize_proposal_step(s, proposal_id, is_executed),
        ),
    }
}

/// The state after calls at the given ledgers, one after the other, from the start.
pub open spec fn after_calls(contract: Address, calls: Seq<(u32, GovernanceCall)>) -> GovernanceState
    decreases calls.len(),
{
    if calls.len() == 0 {
        GovernanceState::blank()
    } else {
        after_call(
            after_calls(contract, calls.drop_last()),
            contract,
            calls.last().0,
            calls.last().1,
        )
    }
}

/// Whether the proposal `id` was finalized with the value that the parameter `key` has.
pub open spec fn backs(s: GovernanceState, id: u64, key: Seq<u8>) -> bool {
    &&& s.proposals.contains_key(id)
    &&& s.proposals[id].executed
    &&& s.proposals[id].param_key == key
    &&& s.proposals[id].new_value == s.params[key]
}

/// Whether a proposal is kept under its own number, has votes that are not negative, was
/// queued before it was finalized, and has an operation once it is queued.
pub open spec fn proposal_sound(s: GovernanceState, id: u64) -> bool {
    let p = s.proposals[id];
    &&& p.id == id
    &&& p.votes_for >= 0
    &&& p.votes_against >= 0
    &&& p.start_ledger <= p.end_ledger
    &&& p.executed ==> p.queued
    &&& p.queued ==> s.op_ids.contains_key(id)
}

/// What every call keeps: proposals are numbered from zero without gaps, each is sound, and
/// every parameter has the value of a finalized proposal.
pub open spec fn sound(s: GovernanceState) -> bool {
    &&& forall|id: u64| #[trigger] s.proposals.contains_key(id) <==> id < s.proposal_count
    &&& forall|id: u64| #[trigger] s.proposals.contains_key(id) ==> proposal_sound(s, id)
    &&& forall|key: Seq<u8>| #[trigger]
        s.params.contains_key(key) ==> exists|id: u64| backs(s, id, key)
}

/// Every call keeps governance sound.
pub proof fn law_sound_kept(
    s: GovernanceState,
    contract: Address,
    ledger: u32,
    call: GovernanceCall,
)
    requires
        sound(s),
    ensures
        sound(after_call(s, contract, ledger, call)),
{
    let t = after_call(s, contract, ledger, call);
    assert forall|key: Seq<u8>| #[trigger] t.params.contains_key(key) implies exists|id: u64|
        backs(t, id, key) by {
        if call is FinalizeProposal && t != s && key == s.proposals[call->FinalizeProposal_proposal_id].param_key {
            assert(backs(t, call->FinalizeProposal_proposal_id, key));
        } else {
            assert(s.params.contains_key(key));
            let id = choose|id: u64| backs(s, id, key);
            assert(backs(s, id, key));
            assert(backs(t, id, key));
        }
    }
}

/// Governance is sound after any calls.
pub proof fn law_always_sound(contract: Address, calls: Seq<(u32, GovernanceCall)>)
    ensures
        sound(after_calls(contract, calls)),
    decreases calls.len(),
{
    if calls.len() > 0 {
        law_always_sound(contract, calls.drop_last());
        law_sound_kept(
            after_calls(contract, calls.drop_last()),
            contract,
            calls.last().0,
            calls.last().1,
        );
    }
}

/// No call takes back a proposal, a vote, the queueing or the finalization of a proposal, or
/// changes who proposed what and until when votes are taken.
pub proof fn law_history_stays(
    s: GovernanceState,
    contract: Address,
    ledger: u32,
    call: GovernanceCall,
    id: u64,
    voter: Address,
)
    requires
        sound(s),
        s.proposals.contains_key(id),
    ensures
        ({
            let p = s.proposals[id];
            let t = after_call(s, contract, ledger, call);
            let q = t.proposals[id];
            &&& t.proposals.contains_key(id)
            &&& q == (ProposalState {
                votes_for: q.votes_for,
                votes_against: q.votes_against,
                queued: q.queued,
                executed: q.executed,
                ..p
            })
            &&& p.queued ==> q.queued
            &&& p.executed ==> q.executed
            &&& q.votes_for >= p.votes_for
            &&& q.votes_against >= p.votes_against
            &&& s.has_voted(id, voter) ==> t.has_voted(id, voter)
            &&& p.queued ==> t.op_ids.contains_key(id) && t.op_ids[id] == s.op_ids[id]
        }),
{
}

/// Once its voting period is over, the votes on a proposal do not change any more.
pub proof fn law_votes_close(
    s: GovernanceState,
    contract: Address,
    ledger: u32,
    call: GovernanceCall,
    id: u64,
)
    requires
        sound(s),
        s.proposals.contains_key(id),
        ledger > s.proposals[id].end_ledger,
    ensures
        after_call(s, contract, ledger, call).proposals[id].votes_for == s.proposals[id].votes_for,
        after_call(s, contract, ledger, call).proposals[id].votes_against
            == s.proposals[id].votes_against,
{
}

/// A proposal gets the number of proposals before it, no vote, and the voting period from
/// now; earlier proposals stay as they are.
pub proof fn law_created_proposal(
    s: GovernanceState,
    ledger: u32,
    proposer: Address,
    param_key: Seq<u8>,
    new_value: Seq<u8>,
    balance: i128,
    other: u64,
)
    requires
        model::create_proposal_step(s, ledger, proposer, param_key, new_value, balance) is Ok,
    ensures
        ({
            let (t, out) = model::create_proposal_step(
                s,
                ledger,
                proposer,
                param_key,
                new_value,
                balance,
            )->Ok_0;
            &&& balance >= MIN_PROPOSAL_BALANCE
            &&& out.value == s.proposal_count
            &&& t.proposal_count == s.proposal_count + 1
            &&& t.proposal(out.value) == Ok::<ProposalState, GovernanceError>(
                ProposalState {
                    id: s.proposal_count,
                    proposer,
                    param_key,
                    new_value,
                    votes_for: 0,
                    votes_against: 0,
                    start_ledger: ledger,
                    end_ledger: (ledger + s.voting_period) as u32,
                    executed: false,
                    queued: false,
                },
            )
            &&& other != s.proposal_count ==> t.proposal(other) == s.proposal(other)
        }),
{
}

/// A vote adds its weight to one side of one proposal and leaves everything else as it was,
/// and its voter cannot vote on that proposal again.
pub proof fn law_vote_counts_once(
    s: GovernanceState,
    ledger: u32,
    voter: Address,
    id: u64,
    support: bool,
    weight: i128,
    later: u32,
    again: bool,
    other_weight: i128,
    other: u64,
)
    requires
        model::vote_step(s, ledger, voter, id, support, weight) is Ok,
    ensures
        ({
            let p = s.proposals[id];
            let t = settled(s, model::vote_step(s, ledger, voter, id, support, weight));
            let q = t.proposals[id];
            &&& weight > 0
            &&& q.votes_for == p.votes_for + (if support {
                weight as int
            } else {
                0
            })
            &&& q.votes_against == p.votes_against + (if support {
                0
            } else {
                weight as int
            })
            &&& other != id ==> t.proposal(other) == s.proposal(other)
            &&& t.params == s.params
            &&& t.has_voted(id, voter)
            &&& later <= p.end_ledger ==> model::vote_step(
                t,
                later,
                voter,
                id,
                again,
                other_weight,
            ) == GovernanceStep::<()>::Err(GovernanceError::AlreadyVoted)
            &&& model::vote_step(t, later, voter, id, again, other_weight) is Err
        }),
{
}

/// A vote of one voter on one proposal does not count as a vote of another voter or on
/// another proposal.
pub proof fn law_votes_are_apart(
    s: GovernanceState,
    ledger: u32,
    voter: Address,
    id: u64,
    support: bool,
    weight: i128,
    other_voter: Address,
    other_id: u64,
)
    requires
        other_voter != voter || other_id != id,
    ensures
        settled(s, model::vote_step(s, ledger, voter, id, support, weight)).has_voted(
            other_id,
            other_voter,
        ) == s.has_voted(other_id, other_voter),
{
    model::lemma_vote_key_injective(id, voter, other_id, other_voter);
}

/// Whether the last of `calls` is an accepted vote on `id`, by `voter`.
pub open spec fn casts(contract: Address, calls: Seq<(u32, GovernanceCall)>, id: u64, voter: Address) -> bool {
    calls.len() > 0 && (calls.last().1 matches GovernanceCall::Vote {
        voter: v,
        proposal_id,
        support,
        weight,
    } && v == voter && proposal_id == id && model::vote_step(
        after_calls(contract, calls.drop_last()),
        calls.last().0,
        v,
        proposal_id,
        support,
        weight,
    ) is Ok)
}

/// How many votes of `voter` on `id` were accepted.
pub open spec fn votes_cast(
    contract: Address,
    calls: Seq<(u32, GovernanceCall)>,
    id: u64,
    voter: Address,
) -> nat
    decreases calls.len(),
{
    if calls.len() == 0 {
        0
    } else {
        votes_cast(contract, calls.drop_last(), id, voter) + (if casts(contract, calls, id, voter) {
            1nat
        } else {
            0nat
        })
    }
}

/// Of all calls ever made, at most one vote of a voter on a proposal is accepted.
pub proof fn law_one_vote_each(
    contract: Address,
    calls: Seq<(u32, GovernanceCall)>,
    id: u64,
    voter: Address,
)
    ensures
        votes_cast(contract, calls, id, voter) <= 1,
        votes_cast(contract, calls, id, voter) == 1 <==> after_calls(contract, calls).has_voted(
            id,
            voter,
        ),
    decreases calls.len(),
{
    if calls.len() > 0 {
        law_one_vote_each(contract, calls.drop_last(), id, voter);
        if calls.last().1 is Vote {
            let c = calls.last().1;
            model::lemma_vote_key_injective(c->Vote_proposal_id, c->Vote_voter, id, voter);
        }
    }
}

/// The weight that the accepted votes for or against `id` carry.
pub open spec fn weight_cast(
    contract: Address,
    calls: Seq<(u32, GovernanceCall)>,
    id: u64,
    side: bool,
) -> int
    decreases calls.len(),
{
    if calls.len() == 0 {
        0
    } else {
        weight_cast(contract, calls.drop_last(), id, side) + (match calls.last().1 {
            GovernanceCall::Vote { voter, proposal_id, support, weight } => if proposal_id == id
                && support == side && casts(contract, calls, id, voter) {
                weight as int
            } else {
                0
            },
            _ => 0,
        })
    }
}

/// The votes of a proposal are the weights of the accepted votes.
pub proof fn law_votes_add_up(contract: Address, calls: Seq<(u32, GovernanceCall)>, id: u64)
    ensures
        ({
            let s = after_calls(contract, calls);
            if s.proposals.contains_key(id) {
                &&& s.proposals[id].votes_for == weight_cast(contract, calls, id, true)
                &&& s.proposals[id].votes_against == weight_cast(contract, calls, id, false)
            } else {
                &&& weight_cast(contract, calls, id, true) == 0
                &&& weight_cast(contract, calls, id, false) == 0
            }
        }),
    decreases calls.len(),
{
    if calls.len() > 0 {
        law_votes_add_up(contract, calls.drop_last(), id);
        law_always_sound(contract, calls.drop_last());
    }
}

/// A proposal enters the queue only after its voting period, with a majority, and with the
/// quorum of the reference supply if there is one.
pub proof fn law_queued_proposals_passed(
    s: GovernanceState,
    contract: Address,
    ledger: u32,
    id: u64,
    op_id: Seq<u8>,
)
    requires
        model::execute_proposal_step(s, contract, ledger, id, op_id) is Ok,
    ensures
        ({
            let p = s.proposals[id];
            &&& ledger > p.end_ledger
            &&& p.votes_for > p.votes_against
            &&& p.votes_for + p.votes_against > 0
            &&& s.reference_supply > 0 ==> (mul_div(
                s.reference_supply,
                s.quorum_bps,
                BPS_DENOMINATOR,
            ) matches Some(min_votes) && p.votes_for + p.votes_against >= min_votes)
        }),
{
}

/// A proposal enters the queue at most once.
pub proof fn law_queued_once(
    s: GovernanceState,
    contract: Address,
    ledger: u32,
    id: u64,
    op_id: Seq<u8>,
    later: u32,
    other_op: Seq<u8>,
)
    requires
        model::execute_proposal_step(s, contract, ledger, id, op_id) is Ok,
    ensures
        ({
            let t = settled(s, model::execute_proposal_step(s, contract, ledger, id, op_id));
            &&& t.op_ids[id] == op_id
            &&& model::queue_call(t, contract, later, id) == Err::<QueueCall, GovernanceError>(
                GovernanceError::AlreadyInQueue,
            )
            &&& model::execute_proposal_step(t, contract, later, id, other_op) is Err
        }),
{
}

/// A finalized proposal gives its parameter its value, leaves every other parameter as it
/// was, and can be neither finalized, queued nor cancelled again.
pub proof fn law_finalized_once(
    s: GovernanceState,
    contract: Address,
    id: u64,
    later: u32,
    again: bool,
    op_id: Seq<u8>,
    admin: Address,
    other_key: Seq<u8>,
)
    requires
        model::finalize_proposal_step(s, id, true) is Ok,
    ensures
        ({
            let p = s.proposals[id];
            let t = settled(s, model::finalize_proposal_step(s, id, true));
            &&& t.param(p.param_key) == p.new_value
            &&& other_key != p.param_key ==> t.param(other_key) == s.param(other_key)
            &&& model::finalize_proposal_step(t, id, again) == GovernanceStep::<()>::Err(
                GovernanceError::AlreadyFinalized,
            )
            &&& model::execute_proposal_step(t, contract, later, id, op_id) is Err
            &&& model::cancel_proposal_step(t, contract, admin, id) is Err
        }),
{
}

/// Nothing is finalized on the word of a timelock that did not execute the operation.
pub proof fn law_no_finalization_unexecuted(s: GovernanceState, id: u64)
    ensures
        model::finalize_proposal_step(s, id, false) is Err,
{
}

/// Parameters change only when a queued proposal is finalized.
pub proof fn law_parameters_need_proposals(
    s: GovernanceState,
    contract: Address,
    ledger: u32,
    call: GovernanceCall,
    key: Seq<u8>,
)
    requires
        after_call(s, contract, ledger, call).param(key) != s.param(key),
    ensures
        call is FinalizeProposal,
        ({
            let p = s.proposals[call->FinalizeProposal_proposal_id];
            &&& p.queued
            &&& p.param_key == key
            &&& after_call(s, contract, ledger, call).param(key) == p.new_value
        }),
{
}

/// No call changes the admin, the voting token, the voting period or the quorum of an
/// initialized contract.
pub proof fn law_configuration_is_fixed(
    s: GovernanceState,
    contract: Address,
    ledger: u32,
    call: GovernanceCall,
)
    requires
        s.config is Some,
    ensures
        ({
            let t = after_call(s, contract, ledger, call);
            &&& t.config == s.config
            &&& t.voting_period == s.voting_period
            &&& t.quorum_bps == s.quorum_bps
        }),
{
}

} // verus!
