//! Governance, alone and with a timelock.

use stello_contracts::governance::model::{GovernanceError, MIN_PROPOSAL_BALANCE};
use stello_contracts::governance::{GovernanceContract, GovernanceEvent};
use stello_contracts::host::{Address, Invocation};
use stello_contracts::timelock::{compute_op_id, TimelockContract};

const CONTRACT: Address = Address { id: 0 };
const ADMIN: Address = Address { id: 1 };
const SXLM: Address = Address { id: 2 };
const TIMELOCK: Address = Address { id: 3 };
const PROPOSER: Address = Address { id: 4 };
const VOTER: Address = Address { id: 5 };
const GUARDIAN: Address = Address { id: 6 };

/// A timelock that knows an identifier for each proposal and what was executed.
struct MockTimelock {
    executed: Vec<[u8; 32]>,
}

impl MockTimelock {
    fn queue_operation(&self, env: &soroban_sdk::Env, proposal_id: u64) -> [u8; 32] {
        // Use fixed eta=0 for simplicity in tests
        compute_op_id(env, proposal_id, 0)
    }

    fn is_executed(&self, op_id: [u8; 32]) -> bool {
        self.executed.contains(&op_id)
    }

    fn mock_execute(&mut self, op_id: [u8; 32]) {
        self.executed.push(op_id);
    }
}

struct World {
    env: soroban_sdk::Env,
    governance: GovernanceContract,
    timelock: MockTimelock,
    ledger: u32,
}

fn done<T>(r: Result<T, GovernanceError>) -> T {
    match r {
        Ok(value) => value,
        Err(e) => panic!("{}", e.message()),
    }
}

/// The sXLM that was minted to each account.
fn balance_of(holder: Address) -> i128 {
    if holder == PROPOSER {
        10_000_0000000
    } else if holder == VOTER {
        5_000_0000000
    } else {
        0
    }
}

impl World {
    fn inv(&self) -> Invocation {
        Invocation { env: self.env.clone(), contract: CONTRACT, ledger: self.ledger }
    }

    fn create_proposal(&mut self, proposer: Address, key: &str, value: &str) -> u64 {
        let inv = self.inv();
        done(
            self.governance.create_proposal(
                &inv,
                proposer,
                key.as_bytes().to_vec(),
                value.as_bytes().to_vec(),
                balance_of(proposer),
            ),
        )
        .value
    }

    fn vote(&mut self, voter: Address, proposal_id: u64, support: bool) {
        let inv = self.inv();
        done(self.governance.vote(&inv, voter, proposal_id, support, balance_of(voter)));
    }

    fn execute_proposal(&mut self, proposal_id: u64) -> [u8; 32] {
        let inv = self.inv();
        let request = done(self.governance.queue_request(&inv, proposal_id));
        assert_eq!(request.timelock, TIMELOCK);
        assert_eq!(request.caller, CONTRACT);
        let op_id = self.timelock.queue_operation(&self.env, request.proposal_id);
        done(self.governance.execute_proposal(&inv, proposal_id, op_id)).value
    }

    fn finalize_proposal(&mut self, proposal_id: u64) {
        let request = done(self.governance.status_request(proposal_id));
        assert_eq!(request.timelock, TIMELOCK);
        let is_executed = self.timelock.is_executed(request.op_id);
        done(self.governance.finalize_proposal(proposal_id, is_executed));
    }
}

fn setup_test() -> World {
    let mut governance = GovernanceContract::new();
    // 100 ledgers voting, 10% quorum
    done(governance.initialize(ADMIN, SXLM, 100, 1000));
    done(governance.set_timelock_contract(ADMIN, TIMELOCK));
    World {
        env: soroban_sdk::Env::default(),
        governance,
        timelock: MockTimelock { executed: Vec::new() },
        ledger: 0,
    }
}

#[test]
fn lib_test_initialize() {
    let w = setup_test();
    assert_eq!(w.governance.proposal_count(), 0);
}

#[test]
fn test_create_proposal() {
    let mut w = setup_test();

    let id = w.create_proposal(PROPOSER, "protocol_fee_bps", "500");
    assert_eq!(id, 0);
    assert_eq!(w.governance.proposal_count(), 1);

    let p = w.governance.get_proposal(0).unwrap();
    assert_eq!(p.votes_for, 0);
    assert!(!p.executed);
    assert!(!p.queued);
}

#[test]
fn test_vote() {
    let mut w = setup_test();

    w.create_proposal(PROPOSER, "protocol_fee_bps", "500");

    w.vote(VOTER, 0, true);

    let (votes_for, votes_against) = w.governance.get_vote_count(0).unwrap();
    assert_eq!(votes_for, 5_000_0000000);
    assert_eq!(votes_against, 0);
}

#[test]
#[should_panic(expected = "already voted")]
fn test_double_vote() {
    let mut w = setup_test();

    w.create_proposal(PROPOSER, "protocol_fee_bps", "500");

    w.vote(VOTER, 0, true);
    w.vote(VOTER, 0, false); // should panic
}

#[test]
fn test_execute_proposal_enters_timelock() {
    let mut w = setup_test();

    w.create_proposal(PROPOSER, "collateral_factor", "7500");

    w.vote(PROPOSER, 0, true);
    w.vote(VOTER, 0, true);

    w.ledger += 101;

    let _op_id = w.execute_proposal(0);

    let p = w.governance.get_proposal(0).unwrap();
    assert!(p.queued);
    assert!(!p.executed); // not finalized yet: still in timelock
}

#[test]
fn test_finalize_proposal_stores_param() {
    let mut w = setup_test();

    w.create_proposal(PROPOSER, "collateral_factor", "7500");

    w.vote(PROPOSER, 0, true);
    w.vote(VOTER, 0, true);

    w.ledger += 101;

    let op_id = w.execute_proposal(0);

    // Simulate timelock executing the operation
    w.timelock.mock_execute(op_id);

    w.finalize_proposal(0);

    let p = w.governance.get_proposal(0).unwrap();
    assert!(p.executed);

    let value = w.governance.get_param("collateral_factor".as_bytes());
    assert_eq!(value, "7500".as_bytes());
}

#[test]
#[should_panic(expected = "timelock operation not yet executed")]
fn test_cannot_finalize_before_timelock_executes() {
    let mut w = setup_test();

    w.create_proposal(PROPOSER, "collateral_factor", "7500");

    w.vote(PROPOSER, 0, true);
    w.vote(VOTER, 0, true);

    w.ledger += 101;

    w.execute_proposal(0);
    // Do NOT call mock_execute: timelock not yet done
    w.finalize_proposal(0); // should panic
}

#[test]
#[should_panic(expected = "voting period not ended")]
fn test_execute_too_early() {
    let mut w = setup_test();

    w.create_proposal(PROPOSER, "fee", "100");

    w.vote(PROPOSER, 0, true);
    w.vote(VOTER, 0, true);

    // Don't advance ledger
    w.execute_proposal(0);
}

#[test]
#[should_panic(expected = "proposal did not pass")]
fn test_execute_failed_proposal() {
    let mut w = setup_test();

    w.create_proposal(PROPOSER, "fee", "100");

    w.vote(PROPOSER, 0, false); // 10k against
    w.vote(VOTER, 0, true); // 5k for

    w.ledger += 101;

    w.execute_proposal(0); // should panic
}

#[test]
fn test_vote_against() {
    let mut w = setup_test();

    w.create_proposal(PROPOSER, "fee", "100");

    w.vote(VOTER, 0, false);

    let (votes_for, votes_against) = w.governance.get_vote_count(0).unwrap();
    assert_eq!(votes_for, 0);
    assert_eq!(votes_against, 5_000_0000000);
}

#[test]
fn test_get_param_default() {
    let w = setup_test();
    let val = w.governance.get_param("nonexistent".as_bytes());
    assert_eq!(val, "".as_bytes());
}

#[test]
fn test_cancel_proposal() {
    let mut w = setup_test();

    w.create_proposal(PROPOSER, "collateral_factor", "9900"); // "malicious"

    w.vote(PROPOSER, 0, true);
    w.vote(VOTER, 0, true);

    w.ledger += 101;
    let op_id = w.execute_proposal(0);

    // Admin cancels the queued proposal
    let r = done(w.governance.cancel_proposal(&w.inv(), ADMIN, 0));
    assert_eq!(r.auth, Some(ADMIN));
    assert_eq!(r.value.timelock, TIMELOCK);
    assert_eq!(r.value.canceller, CONTRACT);
    assert_eq!(r.value.op_id, op_id);
    assert_eq!(r.events[0].topic(), "cancelled");

    let p = w.governance.get_proposal(0).unwrap();
    assert!(p.queued); // still marked queued in governance state
    assert!(!p.executed); // was not finalized
}

// ---------------------------------------------------------------------------
// Voting
// ---------------------------------------------------------------------------

#[test]
fn proposals_are_numbered_in_order() {
    let mut w = setup_test();
    w.ledger = 7;
    assert_eq!(w.create_proposal(PROPOSER, "a", "1"), 0);
    assert_eq!(w.create_proposal(VOTER, "b", "2"), 1);
    assert_eq!(w.governance.proposal_count(), 2);
    let p = w.governance.get_proposal(1).unwrap();
    assert_eq!(p.id, 1);
    assert_eq!(p.proposer, VOTER);
    assert_eq!(p.param_key, b"b".to_vec());
    assert_eq!(p.new_value, b"2".to_vec());
    assert_eq!((p.start_ledger, p.end_ledger), (7, 107));
}

#[test]
fn votes_add_up_and_close() {
    let mut w = setup_test();
    w.create_proposal(PROPOSER, "a", "1");
    w.create_proposal(PROPOSER, "b", "2");
    w.ledger = 100;
    w.vote(PROPOSER, 0, true);
    w.vote(VOTER, 0, false);
    // The same voter may vote on another proposal.
    w.vote(VOTER, 1, true);
    assert_eq!(w.governance.get_vote_count(0), Ok((10_000_0000000, 5_000_0000000)));
    assert_eq!(w.governance.get_vote_count(1), Ok((5_000_0000000, 0)));
    w.ledger = 101;
    let inv = w.inv();
    assert_eq!(
        w.governance.vote(&inv, PROPOSER, 1, true, 5).unwrap_err(),
        GovernanceError::VotingEnded
    );
    assert_eq!(w.governance.get_vote_count(1), Ok((5_000_0000000, 0)));
}

#[test]
fn quorum_is_a_part_of_the_reference_supply() {
    let mut w = setup_test();
    done(w.governance.set_reference_supply(1000));
    assert_eq!(w.governance.tally(99, 0), Err(GovernanceError::QuorumNotMet));
    assert_eq!(w.governance.tally(100, 0), Ok(()));
    assert_eq!(w.governance.tally(50, 50), Err(GovernanceError::ProposalDidNotPass));
    assert_eq!(w.governance.tally(51, 49), Ok(()));
    assert_eq!(w.governance.tally(0, 0), Err(GovernanceError::NoVotesCast));
    assert_eq!(w.governance.tally(i128::MAX, 1), Err(GovernanceError::Arithmetic));
    done(w.governance.set_reference_supply(0));
    assert_eq!(w.governance.tally(1, 0), Ok(()));
    done(w.governance.set_reference_supply(i128::MAX));
    assert_eq!(w.governance.tally(1, 0), Err(GovernanceError::Arithmetic));
}

// ---------------------------------------------------------------------------
// Queueing and finalization
// ---------------------------------------------------------------------------

#[test]
fn proposals_are_queued_and_finalized_once() {
    let mut w = setup_test();
    w.create_proposal(PROPOSER, "a", "1");
    w.vote(PROPOSER, 0, true);
    w.ledger = 101;
    let op_id = w.execute_proposal(0);
    assert_eq!(w.governance.get_proposal_op_id(0), Ok(op_id));
    let inv = w.inv();
    assert_eq!(
        w.governance.queue_request(&inv, 0).unwrap_err(),
        GovernanceError::AlreadyInQueue
    );
    assert_eq!(
        w.governance.execute_proposal(&inv, 0, [1; 32]).unwrap_err(),
        GovernanceError::AlreadyInQueue
    );
    w.timelock.mock_execute(op_id);
    w.finalize_proposal(0);
    assert_eq!(
        w.governance.finalize_proposal(0, true).unwrap_err(),
        GovernanceError::AlreadyFinalized
    );
    assert_eq!(
        w.governance.queue_request(&inv, 0).unwrap_err(),
        GovernanceError::AlreadyFinalized
    );
    assert_eq!(
        w.governance.cancel_proposal(&inv, ADMIN, 0).unwrap_err(),
        GovernanceError::AlreadyFinalized
    );
}

#[test]
fn finalization_sets_one_parameter() {
    let mut w = setup_test();
    for (id, key, value) in [(0u64, "a", "1"), (1, "b", "2"), (2, "a", "3")] {
        let start = w.ledger;
        w.create_proposal(PROPOSER, key, value);
        w.vote(PROPOSER, id, true);
        w.ledger = start + 101;
        let op_id = w.execute_proposal(id);
        w.timelock.mock_execute(op_id);
        w.finalize_proposal(id);
        assert_eq!(w.governance.get_param(key.as_bytes()), value.as_bytes());
    }
    assert_eq!(w.governance.get_param(b"a"), b"3".to_vec());
    assert_eq!(w.governance.get_param(b"b"), b"2".to_vec());
}

#[test]
fn a_change_waits_for_the_timelock() {
    let mut w = setup_test();
    let mut timelock = TimelockContract::new();
    timelock.initialize(CONTRACT, GUARDIAN, 50).unwrap();

    w.create_proposal(PROPOSER, "collateral_factor", "7500");
    w.vote(PROPOSER, 0, true);
    w.ledger = 101;
    let inv = w.inv();
    let q = w.governance.queue_request(&inv, 0).unwrap();
    let op_id = timelock
        .queue_operation(&inv, q.caller, q.proposal_id, q.param_key, q.new_value)
        .unwrap()
        .value;
    w.governance.execute_proposal(&inv, 0, op_id).unwrap();

    w.ledger = 150;
    let inv = w.inv();
    assert!(timelock.execute_operation(&inv, VOTER, op_id).is_err());
    assert_eq!(
        w.governance.finalize_proposal(0, timelock.is_executed(op_id)).unwrap_err(),
        GovernanceError::NotYetExecuted
    );
    assert_eq!(w.governance.get_param(b"collateral_factor"), Vec::<u8>::new());

    w.ledger = 151;
    let inv = w.inv();
    timelock.execute_operation(&inv, VOTER, op_id).unwrap();
    w.governance.finalize_proposal(0, timelock.is_executed(op_id)).unwrap();
    assert_eq!(w.governance.get_param(b"collateral_factor"), b"7500".to_vec());
}

#[test]
fn a_cancelled_change_is_never_applied() {
    let mut w = setup_test();
    let mut timelock = TimelockContract::new();
    timelock.initialize(CONTRACT, GUARDIAN, 50).unwrap();

    w.create_proposal(PROPOSER, "collateral_factor", "9900");
    w.vote(PROPOSER, 0, true);
    w.ledger = 101;
    let inv = w.inv();
    let q = w.governance.queue_request(&inv, 0).unwrap();
    let op_id = timelock
        .queue_operation(&inv, q.caller, q.proposal_id, q.param_key, q.new_value)
        .unwrap()
        .value;
    w.governance.execute_proposal(&inv, 0, op_id).unwrap();
    let c = w.governance.cancel_proposal(&inv, ADMIN, 0).unwrap().value;
    timelock.cancel_operation(c.canceller, c.op_id).unwrap();

    w.ledger = 1000;
    let inv = w.inv();
    assert!(timelock.execute_operation(&inv, VOTER, op_id).is_err());
    assert_eq!(
        w.governance.finalize_proposal(0, timelock.is_executed(op_id)).unwrap_err(),
        GovernanceError::NotYetExecuted
    );
    // The proposal cannot be queued again, and keeps its cancelled operation.
    assert!(w.governance.queue_request(&inv, 0).is_err());
    assert!(w.governance.execute_proposal(&inv, 0, [7; 32]).is_err());
    assert!(timelock
        .queue_operation(&inv, CONTRACT, 0, b"other".to_vec(), b"1".to_vec())
        .is_ok());
    assert!(timelock.is_cancelled(op_id));
    assert_eq!(
        w.governance.finalize_proposal(0, timelock.is_executed(op_id)).unwrap_err(),
        GovernanceError::NotYetExecuted
    );
}

#[test]
fn receipts_of_governance() {
    let mut w = setup_test();
    let r = w.governance.set_timelock_contract(ADMIN, TIMELOCK).unwrap();
    assert_eq!((r.auth, r.events[0].topic()), (Some(ADMIN), "tl_set"));
    let inv = w.inv();
    let r = w
        .governance
        .create_proposal(&inv, PROPOSER, b"k".to_vec(), b"v".to_vec(), MIN_PROPOSAL_BALANCE)
        .unwrap();
    assert_eq!((r.auth, r.value, r.events[0].topic()), (Some(PROPOSER), 0, "propose"));
    let r = w.governance.vote(&inv, VOTER, 0, true, 17).unwrap();
    assert_eq!((r.auth, r.events[0].topic()), (Some(VOTER), "voted"));
    match &r.events[0] {
        GovernanceEvent::Voted { proposal_id, voter, support, weight } => {
            assert_eq!((*proposal_id, *voter, *support, *weight), (0, VOTER, true, 17));
        }
        _ => panic!("another event"),
    }
    w.ledger = 101;
    let inv = w.inv();
    let r = w.governance.execute_proposal(&inv, 0, [5; 32]).unwrap();
    assert_eq!((r.auth, r.value, r.events[0].topic()), (None, [5; 32], "queued"));
    let r = w.governance.finalize_proposal(0, true).unwrap();
    assert_eq!((r.auth, r.events[0].topic()), (None, "finalized"));
    match &r.events[0] {
        GovernanceEvent::Finalized { proposal_id, param_key, new_value } => {
            assert_eq!(*proposal_id, 0);
            assert_eq!(*param_key, b"k".to_vec());
            assert_eq!(*new_value, b"v".to_vec());
        }
        _ => panic!("another event"),
    }
    let r = w.governance.upgrade([3; 32]).unwrap();
    assert_eq!((r.auth, r.value), (Some(ADMIN), [3; 32]));
    let r = w.governance.set_reference_supply(5).unwrap();
    assert_eq!(r.auth, Some(ADMIN));
    let x = w.governance.bump_instance();
    assert_eq!((x.threshold, x.extend_to), (100_800, 518_400));
}

#[test]
fn governance_rejections() {
    let mut bare = GovernanceContract::new();
    let w0 = setup_test();
    let inv = w0.inv();
    assert_eq!(
        bare.create_proposal(&inv, PROPOSER, vec![], vec![], i128::MAX).unwrap_err(),
        GovernanceError::NotInitialized
    );
    assert_eq!(
        bare.set_timelock_contract(ADMIN, TIMELOCK).unwrap_err(),
        GovernanceError::NotInitialized
    );
    assert_eq!(bare.upgrade([0; 32]).unwrap_err(), GovernanceError::NotInitialized);
    done(bare.initialize(ADMIN, SXLM, 100, 1000));
    done(bare.create_proposal(&inv, PROPOSER, vec![], vec![], MIN_PROPOSAL_BALANCE));
    done(bare.vote(&inv, VOTER, 0, true, 1));
    let later = Invocation { env: w0.env.clone(), contract: CONTRACT, ledger: 101 };
    assert_eq!(
        bare.queue_request(&later, 0).unwrap_err(),
        GovernanceError::TimelockNotConfigured
    );

    let mut w = setup_test();
    assert_eq!(
        w.governance.initialize(ADMIN, SXLM, 1, 1).unwrap_err(),
        GovernanceError::AlreadyInitialized
    );
    assert_eq!(
        w.governance.set_timelock_contract(VOTER, TIMELOCK).unwrap_err(),
        GovernanceError::OnlyAdmin
    );
    assert_eq!(
        w.governance.set_reference_supply(-1).unwrap_err(),
        GovernanceError::SupplyNegative
    );
    assert_eq!(
        w.governance
            .create_proposal(&inv, PROPOSER, vec![], vec![], MIN_PROPOSAL_BALANCE - 1)
            .unwrap_err(),
        GovernanceError::InsufficientSxlm
    );
    assert_eq!(
        w.governance.vote(&inv, VOTER, 0, true, 5).unwrap_err(),
        GovernanceError::ProposalNotFound
    );
    assert_eq!(w.governance.get_proposal(0).unwrap_err(), GovernanceError::ProposalNotFound);
    assert_eq!(
        w.governance.get_proposal_op_id(0).unwrap_err(),
        GovernanceError::NoOpIdForProposal
    );
    w.create_proposal(PROPOSER, "a", "1");
    assert_eq!(
        w.governance.vote(&inv, VOTER, 0, true, 0).unwrap_err(),
        GovernanceError::NoSxlm
    );
    assert_eq!(
        w.governance.queue_request(&later, 0).unwrap_err(),
        GovernanceError::NoVotesCast
    );
    assert_eq!(w.governance.status_request(0).unwrap_err(), GovernanceError::NotInQueue);
    assert_eq!(
        w.governance.finalize_proposal(0, true).unwrap_err(),
        GovernanceError::NotInQueue
    );
    assert_eq!(
        w.governance.cancel_proposal(&inv, VOTER, 0).unwrap_err(),
        GovernanceError::OnlyAdminMayCancel
    );
    assert_eq!(
        w.governance.cancel_proposal(&inv, ADMIN, 0).unwrap_err(),
        GovernanceError::NothingToCancel
    );
    done(w.governance.vote(&inv, PROPOSER, 0, true, i128::MAX));
    assert_eq!(
        w.governance.vote(&inv, VOTER, 0, true, 1).unwrap_err(),
        GovernanceError::Arithmetic
    );
    let last = Invocation { env: w0.env.clone(), contract: CONTRACT, ledger: u32::MAX };
    assert_eq!(
        w.governance
            .create_proposal(&last, PROPOSER, vec![], vec![], MIN_PROPOSAL_BALANCE)
            .unwrap_err(),
        GovernanceError::Arithmetic
    );
}

#[test]
fn a_queued_proposal_without_operation_is_not_finalized() {
    let mut w = setup_test();
    w.create_proposal(PROPOSER, "a", "1");
    w.vote(PROPOSER, 0, true);
    w.ledger = 101;
    w.execute_proposal(0);
    w.governance.op_ids.clear();
    assert_eq!(w.governance.status_request(0).unwrap_err(), GovernanceError::OpIdNotFound);
}

#[test]
fn governance_messages() {
    let texts = [
        (GovernanceError::AlreadyInitialized, "already initialized"),
        (GovernanceError::OnlyAdmin, "only admin"),
        (GovernanceError::SupplyNegative, "supply must be non-negative"),
        (GovernanceError::InsufficientSxlm, "insufficient sXLM to create proposal"),
        (GovernanceError::VotingEnded, "voting period has ended"),
        (GovernanceError::NoSxlm, "no sXLM to vote with"),
        (GovernanceError::AlreadyFinalized, "proposal already finalized"),
        (GovernanceError::AlreadyInQueue, "proposal already in timelock queue"),
        (GovernanceError::NoVotesCast, "no votes cast"),
        (GovernanceError::QuorumNotMet, "quorum not met"),
        (GovernanceError::TimelockNotConfigured, "timelock contract not configured"),
        (GovernanceError::NotInQueue, "proposal not in timelock queue"),
        (GovernanceError::OpIdNotFound, "timelock op id not found"),
        (GovernanceError::OnlyAdminMayCancel, "only admin may cancel via governance"),
        (GovernanceError::NothingToCancel, "proposal is not in timelock queue"),
        (GovernanceError::NoOpIdForProposal, "no op id for proposal"),
    ];
    for (e, text) in texts {
        assert_eq!(e.message(), text);
    }
}
