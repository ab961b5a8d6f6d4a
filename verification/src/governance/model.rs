//! What governance's calls do, as functions on a mathematical state.

use vstd::prelude::*;
use crate::arith;
use crate::arith::{mul_div, BPS_DENOMINATOR};
use crate::host::{Address, Outcome};

verus! {

/// 100 sXLM minimum to create a proposal.
pub const MIN_PROPOSAL_BALANCE: i128 = 1_000_000_000;

/// The voting period before initialization: about 24 hours.
pub const DEFAULT_VOTING_PERIOD: u32 = 17_280;

/// The quorum before initialization: 10 %, in basis points.
pub const DEFAULT_QUORUM_BPS: i128 = 1000;

/// What `initialize` fixes for the life of the contract.
#[derive(Clone, Copy, PartialEq, Eq, Structural, Debug)]
pub struct GovernanceConfig {
    pub admin: Address,
    /// The token whose balances are the votes.
    pub sxlm_token: Address,
}

/// A proposal and where it stands.
#[verifier::ext_equal]
pub struct ProposalState {
    pub id: u64,
    pub proposer: Address,
    pub param_key: Seq<u8>,
    pub new_value: Seq<u8>,
    pub votes_for: i128,
    pub votes_against: i128,
    pub start_ledger: u32,
    pub end_ledger: u32,
    pub executed: bool,
    pub queued: bool,
}

/// Why governance rejects a call.
#[derive(Clone, Copy, PartialEq, Eq, Structural, Debug)]
pub enum GovernanceError {
    AlreadyInitialized,
    NotInitialized,
    OnlyAdmin,
    SupplyNegative,
    InsufficientSxlm,
    ProposalNotFound,
    VotingEnded,
    AlreadyVoted,
    NoSxlm,
    AlreadyFinalized,
    AlreadyInQueue,
    VotingNotEnded,
    NoVotesCast,
    QuorumNotMet,
    ProposalDidNotPass,
    TimelockNotConfigured,
    NotInQueue,
    OpIdNotFound,
    NotYetExecuted,
    OnlyAdminMayCancel,
    NothingToCancel,
    NoOpIdForProposal,
    /// A number does not fit.
    Arithmetic,
}

impl GovernanceError {
    /// What is said when a call is rejected.
    pub open spec fn text(self) -> Seq<char> {
        match self {
            GovernanceError::AlreadyInitialized => "already initialized"@,
            GovernanceError::NotInitialized => "not initialized"@,
            GovernanceError::OnlyAdmin => "only admin"@,
            GovernanceError::SupplyNegative => "supply must be non-negative"@,
            GovernanceError::InsufficientSxlm => "insufficient sXLM to create proposal"@,
            GovernanceError::ProposalNotFound => "proposal not found"@,
            GovernanceError::VotingEnded => "voting period has ended"@,
            GovernanceError::AlreadyVoted => "already voted"@,
            GovernanceError::NoSxlm => "no sXLM to vote with"@,
            GovernanceError::AlreadyFinalized => "proposal already finalized"@,
            GovernanceError::AlreadyInQueue => "proposal already in timelock queue"@,
            GovernanceError::VotingNotEnded => "voting period not ended"@,
            GovernanceError::NoVotesCast => "no votes cast"@,
            GovernanceError::QuorumNotMet => "quorum not met"@,
            GovernanceError::ProposalDidNotPass => "proposal did not pass"@,
            GovernanceError::TimelockNotConfigured => "timelock contract not configured"@,
            GovernanceError::NotInQueue => "proposal not in timelock queue"@,
            GovernanceError::OpIdNotFound => "timelock op id not found"@,
            GovernanceError::NotYetExecuted => "timelock operation not yet executed"@,
            GovernanceError::OnlyAdminMayCancel => "only admin may cancel via governance"@,
            GovernanceError::NothingToCancel => "proposal is not in timelock queue"@,
            GovernanceError::NoOpIdForProposal => "no op id for proposal"@,
            GovernanceError::Arithmetic => "arithmetic overflow"@,
        }
    }

    /// What to say when a call is rejected.
    pub fn message(self) -> (r: &'static str)
        ensures
            r@ == self.text(),
    {
        match self {
            GovernanceError::AlreadyInitialized => "already initialized",
            GovernanceError::NotInitialized => "not initialized",
            GovernanceError::OnlyAdmin => "only admin",
            GovernanceError::SupplyNegative => "supply must be non-negative",
            GovernanceError::InsufficientSxlm => "insufficient sXLM to create proposal",
            GovernanceError::ProposalNotFound => "proposal not found",
            GovernanceError::VotingEnded => "voting period has ended",
            GovernanceError::AlreadyVoted => "already voted",
            GovernanceError::NoSxlm => "no sXLM to vote with",
            GovernanceError::AlreadyFinalized => "proposal already finalized",
            GovernanceError::AlreadyInQueue => "proposal already in timelock queue",
            GovernanceError::VotingNotEnded => "voting period not ended",
            GovernanceError::NoVotesCast => "no votes cast",
            GovernanceError::QuorumNotMet => "quorum not met",
            GovernanceError::ProposalDidNotPass => "proposal did not pass",
            GovernanceError::TimelockNotConfigured => "timelock contract not configured",
            GovernanceError::NotInQueue => "proposal not in timelock queue",
            GovernanceError::OpIdNotFound => "timelock op id not found",
            GovernanceError::NotYetExecuted => "timelock operation not yet executed",
            GovernanceError::OnlyAdminMayCancel => "only admin may cancel via governance",
            GovernanceError::NothingToCancel => "proposal is not in timelock queue",
            GovernanceError::NoOpIdForProposal => "no op id for proposal",
            GovernanceError::Arithmetic => "arithmetic overflow",
        }
    }
}

/// What governance reports.
#[verifier::ext_equal]
pub enum GovernanceReport {
    TimelockSet { timelock: Address },
    Proposed { id: u64, proposer: Address, param_key: Seq<u8> },
    Voted { proposal_id: u64, voter: Address, support: bool, weight: i128 },
    Queued { proposal_id: u64, op_id: Seq<u8> },
    Finalized { proposal_id: u64, param_key: Seq<u8>, new_value: Seq<u8> },
    Cancelled { proposal_id: u64, op_id: Seq<u8> },
}

/// The call `queue_operation` of a timelock.
#[verifier::ext_equal]
pub struct QueueCall {
    pub timelock: Address,
    pub caller: Address,
    pub proposal_id: u64,
    pub param_key: Seq<u8>,
    pub new_value: Seq<u8>,
}

/// The call `is_executed` of a timelock.
#[verifier::ext_equal]
pub struct StatusCall {
    pub timelock: Address,
    pub op_id: Seq<u8>,
}

/// The call `cancel_operation` of a timelock.
#[verifier::ext_equal]
pub struct CancelCall {
    pub timelock: Address,
    pub canceller: Address,
    pub op_id: Seq<u8>,
}

/// The mathematical state of governance.
#[verifier::ext_equal]
pub struct GovernanceState {
    pub config: Option<GovernanceConfig>,
    pub timelock: Option<Address>,
    pub voting_period: u32,
    pub quorum_bps: i128,
    pub proposal_count: u64,
    /// Total sXLM supply for the quorum; without it there is no quorum.
    pub reference_supply: i128,
    pub proposals: Map<u64, ProposalState>,
    /// Who voted on what, by `vote_key`.
    pub votes: Set<u128>,
    /// Approved parameter values.
    pub params: Map<Seq<u8>, Seq<u8>>,
    /// The timelock operation of each queued proposal.
    pub op_ids: Map<u64, Seq<u8>>,
}

/// What a call makes of a state: the next state and what it asks of the host, or an error.
pub type GovernanceStep<T> = Result<
    (GovernanceState, Outcome<T, GovernanceReport>),
    GovernanceError,
>;

/// The key of the vote of `voter` on a proposal.
pub open spec fn spec_vote_key(proposal_id: u64, voter: Address) -> u128 {
    (proposal_id * 0x1_0000_0000 + voter.id) as u128
}

/// The key of the vote of `voter` on a proposal.
#[verifier::when_used_as_spec(spec_vote_key)]
pub fn vote_key(proposal_id: u64, voter: Address) -> (key: u128)
    ensures
        key == vote_key(proposal_id, voter),
{
    proposal_id as u128 * 0x1_0000_0000 + voter.id as u128
}

/// Different votes have different keys.
pub proof fn lemma_vote_key_injective(p1: u64, v1: Address, p2: u64, v2: Address)
    ensures
        vote_key(p1, v1) == vote_key(p2, v2) ==> p1 == p2 && v1 == v2,
{
}

impl GovernanceState {
    /// Governance before it is initialized.
    pub open spec fn blank() -> GovernanceState {
        GovernanceState {
            config: None,
            timelock: None,
            voting_period: DEFAULT_VOTING_PERIOD,
            quorum_bps: DEFAULT_QUORUM_BPS,
            proposal_count: 0,
            reference_supply: 0,
            proposals: Map::empty(),
            votes: Set::empty(),
            params: Map::empty(),
            op_ids: Map::empty(),
        }
    }

    /// The proposal `id`.
    pub open spec fn proposal(self, id: u64) -> Result<ProposalState, GovernanceError> {
        if self.proposals.contains_key(id) {
            Ok(self.proposals[id])
        } else {
            Err(GovernanceError::ProposalNotFound)
        }
    }

    /// Whether `voter` has voted on the proposal.
    pub open spec fn has_voted(self, proposal_id: u64, voter: Address) -> bool {
        self.votes.contains(vote_key(proposal_id, voter))
    }

    /// The approved value of the parameter `key`; empty if there is none.
    pub open spec fn param(self, key: Seq<u8>) -> Seq<u8> {
        if self.params.contains_key(key) {
            self.params[key]
        } else {
            Seq::empty()
        }
    }

    /// The votes that a proposal needs: the quorum's part of the reference supply, and none
    /// without a reference supply.
    pub open spec fn min_votes(self) -> Option<i128> {
        if self.reference_supply > 0 {
            mul_div(self.reference_supply, self.quorum_bps, BPS_DENOMINATOR)
        } else {
            Some(0)
        }
    }

    /// Whether the votes carry a proposal: there are votes, they reach the quorum, and more
    /// of them are for it than against it.
    pub open spec fn tally(self, votes_for: i128, votes_against: i128) -> Result<
        (),
        GovernanceError,
    > {
        let total = votes_for + votes_against;
        if !arith::fits(total) {
            Err(GovernanceError::Arithmetic)
        } else if total <= 0 {
            Err(GovernanceError::NoVotesCast)
        } else {
            match self.min_votes() {
                None => Err(GovernanceError::Arithmetic),
                Some(min_votes) => if total < min_votes {
                    Err(GovernanceError::QuorumNotMet)
                } else if votes_for <= votes_against {
                    Err(GovernanceError::ProposalDidNotPass)
                } else {
                    Ok(())
                },
            }
        }
    }

    /// The timelock, if one is configured.
    pub open spec fn timelock_address(self) -> Result<Address, GovernanceError> {
        match self.timelock {
            Some(timelock) => Ok(timelock),
            None => Err(GovernanceError::TimelockNotConfigured),
        }
    }
}

/// What the timelock is asked when a proposal has passed at `ledger`.
pub open spec fn queue_call(s: GovernanceState, contract: Address, ledger: u32, proposal_id: u64) -> Result<
    QueueCall,
    GovernanceError,
> {
    match s.proposal(proposal_id) {
        Err(e) => Err(e),
        Ok(p) => if p.executed {
            Err(GovernanceError::AlreadyFinalized)
        } else if p.queued {
            Err(GovernanceError::AlreadyInQueue)
        } else if ledger <= p.end_ledger {
            Err(GovernanceError::VotingNotEnded)
        } else {
            match s.tally(p.votes_for, p.votes_against) {
                Err(e) => Err(e),
                Ok(_) => match s.timelock_address() {
                    Err(e) => Err(e),
                    Ok(timelock) => Ok(
                        QueueCall {
                            timelock,
                            caller: contract,
                            proposal_id,
                            param_key: p.param_key,
                            new_value: p.new_value,
                        },
                    ),
                },
            }
        },
    }
}

/// What the timelock is asked before a proposal is finalized.
pub open spec fn status_call(s: GovernanceState, proposal_id: u64) -> Result<
    StatusCall,
    GovernanceError,
> {
    match s.proposal(proposal_id) {
        Err(e) => Err(e),
        Ok(p) => if !p.queued {
            Err(GovernanceError::NotInQueue)
        } else if p.executed {
            Err(GovernanceError::AlreadyFinalized)
        } else if !s.op_ids.contains_key(proposal_id) {
            Err(GovernanceError::OpIdNotFound)
        } else {
            match s.timelock_address() {
                Err(e) => Err(e),
                Ok(timelock) => Ok(StatusCall { timelock, op_id: s.op_ids[proposal_id] }),
            }
        },
    }
}

// ---------------------------------------------------------------------------
// Calls
// ---------------------------------------------------------------------------

/// `initialize`.
pub open spec fn initialize_step(
    s: GovernanceState,
    admin: Address,
    sxlm_token: Address,
    voting_period_ledgers: u32,
    quorum_bps: u32,
) -> GovernanceStep<()> {
    if s.config is Some {
        Err(GovernanceError::AlreadyInitialized)
    } else {
        Ok(
            (
                GovernanceState {
                    config: Some(GovernanceConfig { admin, sxlm_token }),
                    voting_period: voting_period_ledgers,
                    quorum_bps: quorum_bps as i128,
                    reference_supply: 0,
                    ..s
                },
                Outcome { value: (), auth: None, transfers: Seq::empty(), events: Seq::empty() },
            ),
        )
    }
}

/// `set_timelock_contract`.
pub open spec fn set_timelock_contract_step(s: GovernanceState, admin: Address, timelock: Address) -> GovernanceStep<
    (),
> {
    match s.config {
        None => Err(GovernanceError::NotInitialized),
        Some(c) => if admin != c.admin {
            Err(GovernanceError::OnlyAdmin)
        } else {
            Ok(
                (
                    GovernanceState { timelock: Some(timelock), ..s },
                    Outcome {
                        value: (),
                        auth: Some(admin),
                        transfers: Seq::empty(),
                        events: seq![GovernanceReport::TimelockSet { timelock }],
                    },
                ),
            )
        },
    }
}

/// `set_reference_supply`.
pub open spec fn set_reference_supply_step(s: GovernanceState, supply: i128) -> GovernanceStep<()> {
    match s.config {
        None => Err(GovernanceError::NotInitialized),
        Some(c) => if supply < 0 {
            Err(GovernanceError::SupplyNegative)
        } else {
            Ok(
                (
                    GovernanceState { reference_supply: supply, ..s },
                    Outcome {
                        value: (),
                        auth: Some(c.admin),
                        transfers: Seq::empty(),
                        events: Seq::empty(),
                    },
                ),
            )
        },
    }
}

/// `create_proposal`, by a proposer who holds `balance` sXLM.
pub open spec fn create_proposal_step(
    s: GovernanceState,
    ledger: u32,
    proposer: Address,
    param_key: Seq<u8>,
    new_value: Seq<u8>,
    balance: i128,
) -> GovernanceStep<u64> {
    if s.config is None {
        Err(GovernanceError::NotInitialized)
    } else if balance < MIN_PROPOSAL_BALANCE {
        Err(GovernanceError::InsufficientSxlm)
    } else if s.proposal_count == u64::MAX || ledger + s.voting_period > u32::MAX {
        Err(GovernanceError::Arithmetic)
    } else {
        let id = s.proposal_count;
        Ok(
            (
                GovernanceState {
                    proposal_count: (id + 1) as u64,
                    proposals: s.proposals.insert(
                        id,
                        ProposalState {
                            id,
                            proposer,
                            param_key,
                            new_value,
                            votes_for: 0,
                            votes_against: 0,
                            start_ledger: ledger,
                            end_ledger: (ledger + s.voting_period) as u32,
                            executed: false,
                            queued: false,
                        },
                    ),
                    ..s
                },
                Outcome {
                    value: id,
                    auth: Some(proposer),
                    transfers: Seq::empty(),
                    events: seq![GovernanceReport::Proposed { id, proposer, param_key }],
                },
            ),
        )
    }
}

/// A proposal with one more vote of the given weight, if the votes fit.
pub open spec fn with_vote(p: ProposalState, support: bool, weight: i128) -> Option<ProposalState> {
    if support {
        if arith::fits(p.votes_for + weight) {
            Some(ProposalState { votes_for: (p.votes_for + weight) as i128, ..p })
        } else {
            None
        }
    } else {
        if arith::fits(p.votes_against + weight) {
            Some(ProposalState { votes_against: (p.votes_against + weight) as i128, ..p })
        } else {
            None
        }
    }
}

/// `vote`, by a voter who holds `weight` sXLM.
pub open spec fn vote_step(
    s: GovernanceState,
    ledger: u32,
    voter: Address,
    proposal_id: u64,
    support: bool,
    weight: i128,
) -> GovernanceStep<()> {
    match s.proposal(proposal_id) {
        Err(e) => Err(e),
        Ok(p) => if ledger > p.end_ledger {
            Err(GovernanceError::VotingEnded)
        } else if s.has_voted(proposal_id, voter) {
            Err(GovernanceError::AlreadyVoted)
        } else if s.config is None {
            Err(GovernanceError::NotInitialized)
        } else if weight <= 0 {
            Err(GovernanceError::NoSxlm)
        } else {
            match with_vote(p, support, weight) {
                None => Err(GovernanceError::Arithmetic),
                Some(counted) => Ok(
                    (
                        GovernanceState {
                            votes: s.votes.insert(vote_key(proposal_id, voter)),
                            proposals: s.proposals.insert(proposal_id, counted),
                            ..s
                        },
                        Outcome {
                            value: (),
                            auth: Some(voter),
                            transfers: Seq::empty(),
                            events: seq![
                                GovernanceReport::Voted { proposal_id, voter, support, weight },
                            ],
                        },
                    ),
                ),
            }
        },
    }
}

/// `execute_proposal`, where the timelock answered the call with `op_id`.
pub open spec fn execute_proposal_step(
    s: GovernanceState,
    contract: Address,
    ledger: u32,
    proposal_id: u64,
    op_id: Seq<u8>,
) -> GovernanceStep<Seq<u8>> {
    match queue_call(s, contract, ledger, proposal_id) {
        Err(e) => Err(e),
        Ok(_) => Ok(
            (
                GovernanceState {
                    op_ids: s.op_ids.insert(proposal_id, op_id),
                    proposals: s.proposals.insert(
                        proposal_id,
                        ProposalState { queued: true, ..s.proposals[proposal_id] },
                    ),
                    ..s
                },
                Outcome {
                    value: op_id,
                    auth: None,
                    transfers: Seq::empty(),
                    events: seq![GovernanceReport::Queued { proposal_id, op_id }],
                },
            ),
        ),
    }
}

/// `finalize_proposal`, where the timelock said whether the operation was executed.
pub open spec fn finalize_proposal_step(s: GovernanceState, proposal_id: u64, is_executed: bool) -> GovernanceStep<
    (),
> {
    match status_call(s, proposal_id) {
        Err(e) => Err(e),
        Ok(_) => if !is_executed {
            Err(GovernanceError::NotYetExecuted)
        } else {
            let p = s.proposals[proposal_id];
            Ok(
                (
                    GovernanceState {
                        params: s.params.insert(p.param_key, p.new_value),
                        proposals: s.proposals.insert(
                            proposal_id,
                            ProposalState { executed: true, ..p },
                        ),
                        ..s
                    },
                    Outcome {
                        value: (),
                        auth: None,
                        transfers: Seq::empty(),
                        events: seq![
                            GovernanceReport::Finalized {
                                proposal_id,
                                param_key: p.param_key,
                                new_value: p.new_value,
                            },
                        ],
                    },
                ),
            )
        },
    }
}

/// `cancel_proposal`: the timelock is asked to drop the operation; governance itself keeps
/// the proposal as it is.
pub open spec fn cancel_proposal_step(
    s: GovernanceState,
    contract: Address,
    admin: Address,
    proposal_id: u64,
) -> Result<Outcome<CancelCall, GovernanceReport>, GovernanceError> {
    match s.config {
        None => Err(GovernanceError::NotInitialized),
        Some(c) => if admin != c.admin {
            Err(GovernanceError::OnlyAdminMayCancel)
        } else {
            match status_call(s, proposal_id) {
                Err(GovernanceError::NotInQueue) => Err(GovernanceError::NothingToCancel),
                Err(e) => Err(e),
                Ok(call) => Ok(
                    Outcome {
                        value: CancelCall {
                            timelock: call.timelock,
                            canceller: contract,
                            op_id: call.op_id,
                        },
                        auth: Some(admin),
                        transfers: Seq::empty(),
                        events: seq![
                            GovernanceReport::Cancelled { proposal_id, op_id: call.op_id },
                        ],
                    },
                ),
            }
        },
    }
}

} // verus!
