//! Parameter governance of the sXLM protocol.
//!
//! ## Lifecycle of a proposal
//!
//! ```text
//! create_proposal()  ->  vote()  ->  execute_proposal()  ->  [48 h timelock]  ->  finalize_proposal()
//!                                    (enters timelock queue)                      (applies the parameter)
//! ```
//!
//! `execute_proposal` validates quorum and majority once the change has been offered to the
//! companion timelock. Only after the mandatory delay may anyone call `finalize_proposal`,
//! which relies on the state of the timelock and writes the parameter value.
//!
//! At any point before finalization the admin may call `cancel_proposal` to abort the change
//! in the timelock.

use std::collections::{HashMap, HashSet};
use vstd::prelude::*;
use crate::arith::{mul_div, BPS_DENOMINATOR};
use crate::bytes::{copy_bytes, ByteMap};
use crate::host;
use crate::host::{none_of, one_of, Address, Extension, Invocation, Receipt};

pub mod call_laws;
pub mod laws;
pub mod model;

use model::{
    vote_key, CancelCall, GovernanceConfig, GovernanceError, GovernanceReport, GovernanceState,
    ProposalState, QueueCall, StatusCall, DEFAULT_QUORUM_BPS, DEFAULT_VOTING_PERIOD,
    MIN_PROPOSAL_BALANCE,
};

verus! {

broadcast use vstd::std_specs::hash::group_hash_axioms;

/// A proposal to change a parameter.
#[derive(Debug)]
pub struct Proposal {
    pub id: u64,
    pub proposer: Address,
    pub param_key: Vec<u8>,
    pub new_value: Vec<u8>,
    pub votes_for: i128,
    pub votes_against: i128,
    pub start_ledger: u32,
    pub end_ledger: u32,
    /// True once the proposal has been finalized (param applied on-chain).
    pub executed: bool,
    /// True once the proposal has passed voting and entered the timelock queue.
    pub queued: bool,
}

impl View for Proposal {
    type V = ProposalState;

    open spec fn view(&self) -> ProposalState {
        ProposalState {
            id: self.id,
            proposer: self.proposer,
            param_key: self.param_key@,
            new_value: self.new_value@,
            votes_for: self.votes_for,
            votes_against: self.votes_against,
            start_ledger: self.start_ledger,
            end_ledger: self.end_ledger,
            executed: self.executed,
            queued: self.queued,
        }
    }
}

impl Proposal {
    fn copy(&self) -> (r: Proposal)
        ensures
            r@ == self@,
    {
        Proposal {
            id: self.id,
            proposer: self.proposer,
            param_key: copy_bytes(self.param_key.as_slice()),
            new_value: copy_bytes(self.new_value.as_slice()),
            votes_for: self.votes_for,
            votes_against: self.votes_against,
            start_ledger: self.start_ledger,
            end_ledger: self.end_ledger,
            executed: self.executed,
            queued: self.queued,
        }
    }
}

/// What governance reports.
#[derive(Debug)]
pub enum GovernanceEvent {
    TimelockSet { timelock: Address },
    Proposed { id: u64, proposer: Address, param_key: Vec<u8> },
    Voted { proposal_id: u64, voter: Address, support: bool, weight: i128 },
    Queued { proposal_id: u64, op_id: [u8; 32] },
    Finalized { proposal_id: u64, param_key: Vec<u8>, new_value: Vec<u8> },
    Cancelled { proposal_id: u64, op_id: [u8; 32] },
}

impl View for GovernanceEvent {
    type V = GovernanceReport;

    open spec fn view(&self) -> GovernanceReport {
        match *self {
            GovernanceEvent::TimelockSet { timelock } => GovernanceReport::TimelockSet { timelock },
            GovernanceEvent::Proposed { id, proposer, param_key } => GovernanceReport::Proposed {
                id,
                proposer,
                param_key: param_key@,
            },
            GovernanceEvent::Voted { proposal_id, voter, support, weight } => GovernanceReport::Voted {
                proposal_id,
                voter,
                support,
                weight,
            },
            GovernanceEvent::Queued { proposal_id, op_id } => GovernanceReport::Queued {
                proposal_id,
                op_id: op_id@,
            },
            GovernanceEvent::Finalized { proposal_id, param_key, new_value } => GovernanceReport::Finalized {
                proposal_id,
                param_key: param_key@,
                new_value: new_value@,
            },
            GovernanceEvent::Cancelled { proposal_id, op_id } => GovernanceReport::Cancelled {
                proposal_id,
                op_id: op_id@,
            },
        }
    }
}

impl GovernanceEvent {
    /// The topic under which the event is published.
    pub open spec fn topic_text(self) -> Seq<char> {
        match self {
            GovernanceEvent::TimelockSet { .. } => "tl_set"@,
            GovernanceEvent::Proposed { .. } => "propose"@,
            GovernanceEvent::Voted { .. } => "voted"@,
            GovernanceEvent::Queued { .. } => "queued"@,
            GovernanceEvent::Finalized { .. } => "finalized"@,
            GovernanceEvent::Cancelled { .. } => "cancelled"@,
        }
    }

    /// The topic under which to publish the event.
    pub fn topic(&self) -> (r: &'static str)
        ensures
            r@ == self.topic_text(),
    {
        match self {
            GovernanceEvent::TimelockSet { .. } => "tl_set",
            GovernanceEvent::Proposed { .. } => "propose",
            GovernanceEvent::Voted { .. } => "voted",
            GovernanceEvent::Queued { .. } => "queued",
            GovernanceEvent::Finalized { .. } => "finalized",
            GovernanceEvent::Cancelled { .. } => "cancelled",
        }
    }
}

/// A call of `queue_operation` that the host makes to the timelock.
#[derive(Debug)]
pub struct QueueRequest {
    pub timelock: Address,
    pub caller: Address,
    pub proposal_id: u64,
    pub param_key: Vec<u8>,
    pub new_value: Vec<u8>,
}

impl View for QueueRequest {
    type V = QueueCall;

    open spec fn view(&self) -> QueueCall {
        QueueCall {
            timelock: self.timelock,
            caller: self.caller,
            proposal_id: self.proposal_id,
            param_key: self.param_key@,
            new_value: self.new_value@,
        }
    }
}

/// A call of `is_executed` that the host makes to the timelock.
#[derive(Clone, Copy, Debug)]
pub struct StatusRequest {
    pub timelock: Address,
    pub op_id: [u8; 32],
}

impl View for StatusRequest {
    type V = StatusCall;

    open spec fn view(&self) -> StatusCall {
        StatusCall { timelock: self.timelock, op_id: self.op_id@ }
    }
}

/// A call of `cancel_operation` that the host makes to the timelock.
#[derive(Clone, Copy, Debug)]
pub struct CancelRequest {
    pub timelock: Address,
    pub canceller: Address,
    pub op_id: [u8; 32],
}

impl View for CancelRequest {
    type V = CancelCall;

    open spec fn view(&self) -> CancelCall {
        CancelCall { timelock: self.timelock, canceller: self.canceller, op_id: self.op_id@ }
    }
}

/// The result of a governance call.
pub type GovernanceResult<T> = Result<Receipt<T, GovernanceEvent>, GovernanceError>;

/// Governance.
pub struct GovernanceContract {
    /// Set by `initialize`.
    pub config: Option<GovernanceConfig>,
    /// Address of the companion timelock.
    pub timelock: Option<Address>,
    pub voting_period: u32,
    pub quorum_bps: i128,
    pub proposal_count: u64,
    /// Total sXLM supply reference for quorum calculation (set by admin).
    pub reference_supply: i128,
    pub proposals: HashMap<u64, Proposal>,
    /// Who voted on what, by `vote_key`.
    pub votes: HashSet<u128>,
    /// Approved governance parameter values (set by finalize_proposal).
    pub params: ByteMap<Vec<u8>>,
    /// Maps a proposal to its timelock operation.
    pub op_ids: HashMap<u64, [u8; 32]>,
}

impl View for GovernanceContract {
    type V = GovernanceState;

    open spec fn view(&self) -> GovernanceState {
        GovernanceState {
            config: self.config,
            timelock: self.timelock,
            voting_period: self.voting_period,
            quorum_bps: self.quorum_bps,
            proposal_count: self.proposal_count,
            reference_supply: self.reference_supply,
            proposals: self.proposals@.map_values(|p: Proposal| p@),
            votes: self.votes@,
            params: self.params@,
            op_ids: self.op_ids@.map_values(|id: [u8; 32]| id@),
        }
    }
}

impl GovernanceContract {
    /// Whether no parameter is kept twice.
    pub open spec fn wf(self) -> bool {
        self.params.wf()
    }

    /// A contract that is not initialized yet.
    pub fn new() -> (governance: GovernanceContract)
        ensures
            governance.wf(),
            governance@ == GovernanceState::blank(),
    {
        let governance = GovernanceContract {
            config: None,
            timelock: None,
            voting_period: DEFAULT_VOTING_PERIOD,
            quorum_bps: DEFAULT_QUORUM_BPS,
            proposal_count: 0,
            reference_supply: 0,
            proposals: HashMap::new(),
            votes: HashSet::new(),
            params: ByteMap::new(),
            op_ids: HashMap::new(),
        };
        proof {
            assert(governance@ =~= GovernanceState::blank());
        }
        governance
    }

    // -----------------------------------------------------------------------
    // Lifecycle
    // -----------------------------------------------------------------------

    /// One-time initialization.
    ///
    /// The timelock is set by `set_timelock_contract` once it is deployed.
    pub fn initialize(
        &mut self,
        admin: Address,
        sxlm_token: Address,
        voting_period_ledgers: u32,
        quorum_bps: u32,
    ) -> (r: GovernanceResult<()>)
        requires
            old(self).wf(),
        ensures
            final(self).wf(),
            match model::initialize_step(
                old(self)@,
                admin,
                sxlm_token,
                voting_period_ledgers,
                quorum_bps,
            ) {
                Ok((next, out)) => r is Ok && r->Ok_0.viewed() == out && final(self)@ == next,
                Err(e) => r == GovernanceResult::<()>::Err(e) && *final(self) == *old(self),
            },
    {
        if self.config.is_some() {
            return Err(GovernanceError::AlreadyInitialized);
        }
        self.config = Some(GovernanceConfig { admin, sxlm_token });
        self.voting_period = voting_period_ledgers;
        self.quorum_bps = quorum_bps as i128;
        self.reference_supply = 0;
        Ok(Receipt { value: (), auth: None, transfers: none_of(), events: none_of() })
    }

    /// Set or update the companion timelock address. Admin-only.
    ///
    /// Call this after deploying the timelock if it was not available at
    /// initialization time.
    pub fn set_timelock_contract(&mut self, admin: Address, timelock: Address) -> (r:
        GovernanceResult<()>)
        requires
            old(self).wf(),
        ensures
            final(self).wf(),
            match model::set_timelock_contract_step(old(self)@, admin, timelock) {
                Ok((next, out)) => r is Ok && r->Ok_0.viewed() == out && final(self)@ == next,
                Err(e) => r == GovernanceResult::<()>::Err(e) && *final(self) == *old(self),
            },
    {
        match self.config {
            None => return Err(GovernanceError::NotInitialized),
            Some(c) => if admin != c.admin {
                return Err(GovernanceError::OnlyAdmin);
            },
        }
        self.timelock = Some(timelock);
        Ok(
            Receipt {
                value: (),
                auth: Some(admin),
                transfers: none_of(),
                events: one_of(GovernanceEvent::TimelockSet { timelock }),
            },
        )
    }

    /// Upgrade the contract WASM. Admin-only. Returns the hash of the code to install.
    pub fn upgrade(&self, new_wasm_hash: [u8; 32]) -> (r: GovernanceResult<[u8; 32]>)
        ensures
            match self@.config {
                Some(c) => r is Ok && r->Ok_0.value == new_wasm_hash && r->Ok_0.auth == Some(
                    c.admin,
                ) && r->Ok_0.transfers@.len() == 0 && r->Ok_0.events@.len() == 0,
                None => r == GovernanceResult::<[u8; 32]>::Err(GovernanceError::NotInitialized),
            },
    {
        match self.config {
            None => Err(GovernanceError::NotInitialized),
            Some(c) => Ok(
                Receipt {
                    value: new_wasm_hash,
                    auth: Some(c.admin),
                    transfers: none_of(),
                    events: none_of(),
                },
            ),
        }
    }

    /// The extension of the instance storage that keeps the contract alive. Anyone may ask
    /// for it.
    pub fn bump_instance(&self) -> (r: Extension)
        ensures
            r.threshold == host::INSTANCE_LIFETIME_THRESHOLD,
            r.extend_to == host::INSTANCE_BUMP_AMOUNT,
    {
        Extension {
            threshold: host::INSTANCE_LIFETIME_THRESHOLD,
            extend_to: host::INSTANCE_BUMP_AMOUNT,
        }
    }

    /// Set the reference total supply used for quorum calculation. Admin-only.
    pub fn set_reference_supply(&mut self, supply: i128) -> (r: GovernanceResult<()>)
        requires
            old(self).wf(),
        ensures
            final(self).wf(),
            match model::set_reference_supply_step(old(self)@, supply) {
                Ok((next, out)) => r is Ok && r->Ok_0.viewed() == out && final(self)@ == next,
                Err(e) => r == GovernanceResult::<()>::Err(e) && *final(self) == *old(self),
            },
    {
        let config: GovernanceConfig = match self.config {
            None => return Err(GovernanceError::NotInitialized),
            Some(c) => c,
        };
        if supply < 0 {
            return Err(GovernanceError::SupplyNegative);
        }
        self.reference_supply = supply;
        Ok(
            Receipt {
                value: (),
                auth: Some(config.admin),
                transfers: none_of(),
                events: none_of(),
            },
        )
    }

    // -----------------------------------------------------------------------
    // Proposal creation
    // -----------------------------------------------------------------------

    /// Create a new governance proposal. Proposer must hold at least 100 sXLM; `balance` is
    /// what the proposer holds.
    pub fn create_proposal(
        &mut self,
        inv: &Invocation,
        proposer: Address,
        param_key: Vec<u8>,
        new_value: Vec<u8>,
        balance: i128,
    ) -> (r: GovernanceResult<u64>)
        requires
            old(self).wf(),
        ensures
            final(self).wf(),
            match model::create_proposal_step(
                old(self)@,
                inv.ledger,
                proposer,
                param_key@,
                new_value@,
                balance,
            ) {
                Ok((next, out)) => r is Ok && r->Ok_0.viewed() == out && final(self)@ == next,
                Err(e) => r == GovernanceResult::<u64>::Err(e) && *final(self) == *old(self),
            },
    {
        if self.config.is_none() {
            return Err(GovernanceError::NotInitialized);
        }
        if balance < MIN_PROPOSAL_BALANCE {
            return Err(GovernanceError::InsufficientSxlm);
        }
        let id: u64 = self.proposal_count;
        let next_id: u64 = match id.checked_add(1) {
            None => return Err(GovernanceError::Arithmetic),
            Some(next_id) => next_id,
        };
        let end_ledger: u32 = match inv.ledger.checked_add(self.voting_period) {
            None => return Err(GovernanceError::Arithmetic),
            Some(end_ledger) => end_ledger,
        };
        let event = GovernanceEvent::Proposed {
            id,
            proposer,
            param_key: copy_bytes(param_key.as_slice()),
        };
        self.proposal_count = next_id;
        self.write_proposal(
            id,
            Proposal {
                id,
                proposer,
                param_key,
                new_value,
                votes_for: 0,
                votes_against: 0,
                start_ledger: inv.ledger,
                end_ledger,
                executed: false,
                queued: false,
            },
        );
        Ok(
            Receipt {
                value: id,
                auth: Some(proposer),
                transfers: none_of(),
                events: one_of(event),
            },
        )
    }

    fn write_proposal(&mut self, id: u64, proposal: Proposal)
        ensures
            final(self).params == old(self).params,
            final(self)@ == (GovernanceState {
                proposals: old(self)@.proposals.insert(id, proposal@),
                ..old(self)@
            }),
    {
        self.proposals.insert(id, proposal);
        proof {
            assert(self@.proposals =~= old(self)@.proposals.insert(id, proposal@));
        }
    }

    fn read_proposal(&self, id: u64) -> (r: Result<&Proposal, GovernanceError>)
        ensures
            match self@.proposal(id) {
                Ok(p) => r is Ok && r->Ok_0@ == p,
                Err(e) => r == Err::<&Proposal, GovernanceError>(e),
            },
    {
        match self.proposals.get(&id) {
            None => Err(GovernanceError::ProposalNotFound),
            Some(proposal) => Ok(proposal),
        }
    }

    // -----------------------------------------------------------------------
    // Voting
    // -----------------------------------------------------------------------

    /// Vote on a proposal. Vote weight equals the voter's sXLM balance.
    pub fn vote(
        &mut self,
        inv: &Invocation,
        voter: Address,
        proposal_id: u64,
        support: bool,
        weight: i128,
    ) -> (r: GovernanceResult<()>)
        requires
            old(self).wf(),
        ensures
            final(self).wf(),
            match model::vote_step(
                old(self)@,
                inv.ledger,
                voter,
                proposal_id,
                support,
                weight,
            ) {
                Ok((next, out)) => r is Ok && r->Ok_0.viewed() == out && final(self)@ == next,
                Err(e) => r == GovernanceResult::<()>::Err(e) && *final(self) == *old(self),
            },
    {
        let mut proposal: Proposal = match self.read_proposal(proposal_id) {
            Err(e) => return Err(e),
            Ok(proposal) => proposal.copy(),
        };
        if inv.ledger > proposal.end_ledger {
            return Err(GovernanceError::VotingEnded);
        }
        if self.votes.contains(&vote_key(proposal_id, voter)) {
            return Err(GovernanceError::AlreadyVoted);
        }
        if self.config.is_none() {
            return Err(GovernanceError::NotInitialized);
        }
        if weight <= 0 {
            return Err(GovernanceError::NoSxlm);
        }
        if support {
            match proposal.votes_for.checked_add(weight) {
                None => return Err(GovernanceError::Arithmetic),
                Some(votes) => {
                    proposal.votes_for = votes;
                },
            }
        } else {
            match proposal.votes_against.checked_add(weight) {
                None => return Err(GovernanceError::Arithmetic),
                Some(votes) => {
                    proposal.votes_against = votes;
                },
            }
        }
        self.votes.insert(vote_key(proposal_id, voter));
        self.write_proposal(proposal_id, proposal);
        Ok(
            Receipt {
                value: (),
                auth: Some(voter),
                transfers: none_of(),
                events: one_of(GovernanceEvent::Voted { proposal_id, voter, support, weight }),
            },
        )
    }

    // -----------------------------------------------------------------------
    // Timelock queue entry
    // -----------------------------------------------------------------------

    /// Whether the given votes carry a proposal.
    pub fn tally(&self, votes_for: i128, votes_against: i128) -> (r: Result<(), GovernanceError>)
        ensures
            r == self@.tally(votes_for, votes_against),
    {
        let total_votes: i128 = match votes_for.checked_add(votes_against) {
            None => return Err(GovernanceError::Arithmetic),
            Some(total_votes) => total_votes,
        };
        if total_votes <= 0 {
            return Err(GovernanceError::NoVotesCast);
        }
        if self.reference_supply > 0 {
            let min_votes_required: i128 = match mul_div(
                self.reference_supply,
                self.quorum_bps,
                BPS_DENOMINATOR,
            ) {
                None => return Err(GovernanceError::Arithmetic),
                Some(min_votes) => min_votes,
            };
            if total_votes < min_votes_required {
                return Err(GovernanceError::QuorumNotMet);
            }
        }
        if votes_for <= votes_against {
            return Err(GovernanceError::ProposalDidNotPass);
        }
        Ok(())
    }

    /// What to ask the timelock before `execute_proposal`: to enqueue the change, if the
    /// proposal passed.
    pub fn queue_request(&self, inv: &Invocation, proposal_id: u64) -> (r: Result<
        QueueRequest,
        GovernanceError,
    >)
        ensures
            match model::queue_call(self@, inv.contract, inv.ledger, proposal_id) {
                Ok(call) => r is Ok && r->Ok_0@ == call,
                Err(e) => r == Err::<QueueRequest, GovernanceError>(e),
            },
    {
        let proposal: &Proposal = match self.read_proposal(proposal_id) {
            Err(e) => return Err(e),
            Ok(proposal) => proposal,
        };
        if proposal.executed {
            return Err(GovernanceError::AlreadyFinalized);
        }
        if proposal.queued {
            return Err(GovernanceError::AlreadyInQueue);
        }
        if inv.ledger <= proposal.end_ledger {
            return Err(GovernanceError::VotingNotEnded);
        }
        match self.tally(proposal.votes_for, proposal.votes_against) {
            Err(e) => return Err(e),
            Ok(_) => {},
        }
        match self.timelock {
            None => Err(GovernanceError::TimelockNotConfigured),
            Some(timelock) => Ok(
                QueueRequest {
                    timelock,
                    caller: inv.contract,
                    proposal_id,
                    param_key: copy_bytes(proposal.param_key.as_slice()),
                    new_value: copy_bytes(proposal.new_value.as_slice()),
                },
            ),
        }
    }

    /// Validate that a proposal passed and record that the timelock enqueued it as `op_id`,
    /// its answer to `queue_request`.
    ///
    /// Can be called by anyone once the voting period has ended and the proposal
    /// has achieved quorum with more votes-for than votes-against.
    ///
    /// Returns the timelock operation ID.
    pub fn execute_proposal(&mut self, inv: &Invocation, proposal_id: u64, op_id: [u8; 32]) -> (r:
        GovernanceResult<[u8; 32]>)
        requires
            old(self).wf(),
        ensures
            final(self).wf(),
            match model::execute_proposal_step(
                old(self)@,
                inv.contract,
                inv.ledger,
                proposal_id,
                op_id@,
            ) {
                Ok((next, out)) => r is Ok && r->Ok_0.viewed() == out && final(self)@ == next,
                Err(e) => r == GovernanceResult::<[u8; 32]>::Err(e) && *final(self) == *old(self),
            },
    {
        match self.queue_request(inv, proposal_id) {
            Err(e) => return Err(e),
            Ok(_) => {},
        }
        let mut proposal: Proposal = match self.read_proposal(proposal_id) {
            Err(e) => return Err(e),
            Ok(proposal) => proposal.copy(),
        };
        proposal.queued = true;
        self.op_ids.insert(proposal_id, op_id);
        self.write_proposal(proposal_id, proposal);
        proof {
            assert(self@.op_ids =~= old(self)@.op_ids.insert(proposal_id, op_id@));
        }
        Ok(
            Receipt {
                value: op_id,
                auth: None,
                transfers: none_of(),
                events: one_of(GovernanceEvent::Queued { proposal_id, op_id }),
            },
        )
    }

    // -----------------------------------------------------------------------
    // Finalization (after timelock delay)
    // -----------------------------------------------------------------------

    /// What to ask the timelock before `finalize_proposal`: whether the operation of the
    /// proposal was executed.
    pub fn status_request(&self, proposal_id: u64) -> (r: Result<StatusRequest, GovernanceError>)
        ensures
            match model::status_call(self@, proposal_id) {
                Ok(call) => r is Ok && r->Ok_0@ == call,
                Err(e) => r == Err::<StatusRequest, GovernanceError>(e),
            },
    {
        let proposal: &Proposal = match self.read_proposal(proposal_id) {
            Err(e) => return Err(e),
            Ok(proposal) => proposal,
        };
        if !proposal.queued {
            return Err(GovernanceError::NotInQueue);
        }
        if proposal.executed {
            return Err(GovernanceError::AlreadyFinalized);
        }
        let op_id: [u8; 32] = match self.op_ids.get(&proposal_id) {
            None => return Err(GovernanceError::OpIdNotFound),
            Some(op_id) => *op_id,
        };
        match self.timelock {
            None => Err(GovernanceError::TimelockNotConfigured),
            Some(timelock) => Ok(StatusRequest { timelock, op_id }),
        }
    }

    /// Apply the parameter change after the timelock delay has elapsed. `is_executed` is the
    /// timelock's answer to `status_request`.
    ///
    /// Anyone may call this.
    pub fn finalize_proposal(&mut self, proposal_id: u64, is_executed: bool) -> (r:
        GovernanceResult<()>)
        requires
            old(self).wf(),
        ensures
            final(self).wf(),
            match model::finalize_proposal_step(old(self)@, proposal_id, is_executed) {
                Ok((next, out)) => r is Ok && r->Ok_0.viewed() == out && final(self)@ == next,
                Err(e) => r == GovernanceResult::<()>::Err(e) && *final(self) == *old(self),
            },
    {
        match self.status_request(proposal_id) {
            Err(e) => return Err(e),
            Ok(_) => {},
        }
        if !is_executed {
            return Err(GovernanceError::NotYetExecuted);
        }
        let mut proposal: Proposal = match self.read_proposal(proposal_id) {
            Err(e) => return Err(e),
            Ok(proposal) => proposal.copy(),
        };
        proposal.executed = true;
        let event = GovernanceEvent::Finalized {
            proposal_id,
            param_key: copy_bytes(proposal.param_key.as_slice()),
            new_value: copy_bytes(proposal.new_value.as_slice()),
        };
        self.params.insert(
            copy_bytes(proposal.param_key.as_slice()),
            copy_bytes(proposal.new_value.as_slice()),
        );
        self.write_proposal(proposal_id, proposal);
        Ok(Receipt { value: (), auth: None, transfers: none_of(), events: one_of(event) })
    }

    // -----------------------------------------------------------------------
    // Emergency cancellation
    // -----------------------------------------------------------------------

    /// Cancel a queued proposal: the host passes the returned request on to the timelock.
    ///
    /// Callable by the admin (protocol admin key). Guardians may cancel directly through the
    /// timelock using their own address.
    pub fn cancel_proposal(&self, inv: &Invocation, admin: Address, proposal_id: u64) -> (r:
        GovernanceResult<CancelRequest>)
        ensures
            match model::cancel_proposal_step(self@, inv.contract, admin, proposal_id) {
                Ok(out) => r is Ok && r->Ok_0.viewed() == out,
                Err(e) => r == GovernanceResult::<CancelRequest>::Err(e),
            },
    {
        match self.config {
            None => return Err(GovernanceError::NotInitialized),
            Some(c) => if admin != c.admin {
                return Err(GovernanceError::OnlyAdminMayCancel);
            },
        }
        let status: StatusRequest = match self.status_request(proposal_id) {
            Err(GovernanceError::NotInQueue) => return Err(GovernanceError::NothingToCancel),
            Err(e) => return Err(e),
            Ok(status) => status,
        };
        Ok(
            Receipt {
                value: CancelRequest {
                    timelock: status.timelock,
                    canceller: inv.contract,
                    op_id: status.op_id,
                },
                auth: Some(admin),
                transfers: none_of(),
                events: one_of(GovernanceEvent::Cancelled { proposal_id, op_id: status.op_id }),
            },
        )
    }

    // -----------------------------------------------------------------------
    // Views
    // -----------------------------------------------------------------------

    pub fn get_proposal(&self, id: u64) -> (r: Result<Proposal, GovernanceError>)
        ensures
            match self@.proposal(id) {
                Ok(p) => r is Ok && r->Ok_0@ == p,
                Err(e) => r == Err::<Proposal, GovernanceError>(e),
            },
    {
        match self.read_proposal(id) {
            Err(e) => Err(e),
            Ok(proposal) => Ok(proposal.copy()),
        }
    }

    pub fn proposal_count(&self) -> (r: u64)
        ensures
            r == self@.proposal_count,
    {
        self.proposal_count
    }

    /// Returns the votes for and against a proposal.
    pub fn get_vote_count(&self, id: u64) -> (r: Result<(i128, i128), GovernanceError>)
        ensures
            match self@.proposal(id) {
                Ok(p) => r == Ok::<(i128, i128), GovernanceError>((p.votes_for, p.votes_against)),
                Err(e) => r == Err::<(i128, i128), GovernanceError>(e),
            },
    {
        match self.read_proposal(id) {
            Err(e) => Err(e),
            Ok(proposal) => Ok((proposal.votes_for, proposal.votes_against)),
        }
    }

    /// Read the op_id stored for a queued proposal.
    pub fn get_proposal_op_id(&self, proposal_id: u64) -> (r: Result<[u8; 32], GovernanceError>)
        ensures
            if self@.op_ids.contains_key(proposal_id) {
                r is Ok && r->Ok_0@ == self@.op_ids[proposal_id]
            } else {
                r == Err::<[u8; 32], GovernanceError>(GovernanceError::NoOpIdForProposal)
            },
    {
        match self.op_ids.get(&proposal_id) {
            None => Err(GovernanceError::NoOpIdForProposal),
            Some(op_id) => Ok(*op_id),
        }
    }

    /// Read an approved governance parameter value; empty if there is none.
    pub fn get_param(&self, key: &[u8]) -> (r: Vec<u8>)
        requires
            self.wf(),
        ensures
            r@ == self@.param(key@),
    {
        match self.params.get(key) {
            None => none_of(),
            Some(value) => copy_bytes(value.as_slice()),
        }
    }
}

} // verus!
