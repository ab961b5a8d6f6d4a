//! The timelock.

use stello_contracts::bytes::{bytes_equal, copy_bytes, push_be_bytes, ByteMap};
use stello_contracts::host::{Address, Invocation, Receipt};
use stello_contracts::timelock::model::{
    OperationStatus, TimelockError, DEFAULT_DELAY_LEDGERS, GRACE_PERIOD_LEDGERS,
};
use stello_contracts::timelock::{compute_op_id, QueuedOperation, TimelockContract, TimelockEvent};

const CONTRACT: Address = Address { id: 0 };
const ADMIN: Address = Address { id: 1 };
const GUARDIAN: Address = Address { id: 2 };
const EXECUTOR: Address = Address { id: 3 };

struct World {
    env: soroban_sdk::Env,
    timelock: TimelockContract,
    ledger: u32,
}

fn done<T>(r: Result<T, TimelockError>) -> T {
    match r {
        Ok(value) => value,
        Err(e) => panic!("{}", e.message()),
    }
}

impl World {
    fn inv(&self) -> Invocation {
        Invocation { env: self.env.clone(), contract: CONTRACT, ledger: self.ledger }
    }

    fn queue(&mut self, caller: Address, id: u64, key: &str, value: &str) -> Result<
        Receipt<[u8; 32], TimelockEvent>,
        TimelockError,
    > {
        let inv = self.inv();
        self.timelock.queue_operation(
            &inv,
            caller,
            id,
            key.as_bytes().to_vec(),
            value.as_bytes().to_vec(),
        )
    }

    fn queue_operation(&mut self, caller: Address, id: u64, key: &str, value: &str) -> [u8; 32] {
        done(self.queue(caller, id, key, value)).value
    }

    fn execute_operation(&mut self, executor: Address, op_id: [u8; 32]) -> QueuedOperation {
        let inv = self.inv();
        done(self.timelock.execute_operation(&inv, executor, op_id)).value
    }

    fn cancel_operation(&mut self, canceller: Address, op_id: [u8; 32]) {
        done(self.timelock.cancel_operation(canceller, op_id));
    }

    fn ready(&self, op_id: [u8; 32]) -> bool {
        self.timelock.is_operation_ready(&self.inv(), op_id)
    }
}

fn setup() -> World {
    let mut timelock = TimelockContract::new();
    done(timelock.initialize(ADMIN, GUARDIAN, 0)); // 0 stands for the default 34 560 ledgers
    World { env: soroban_sdk::Env::default(), timelock, ledger: 0 }
}

#[test]
fn timelock_test_initialize() {
    let w = setup();
    assert_eq!(w.timelock.get_delay(), DEFAULT_DELAY_LEDGERS);
    assert_eq!(w.timelock.get_guardian(), Ok(GUARDIAN));
}

#[test]
fn test_queue_and_execute() {
    let mut w = setup();

    let op_id = w.queue_operation(ADMIN, 0u64, "collateral_factor", "7500");

    // Cannot execute before delay
    assert!(!w.ready(op_id));

    // Advance ledger past eta
    w.ledger += DEFAULT_DELAY_LEDGERS + 1;

    assert!(w.ready(op_id));
    assert!(!w.timelock.is_executed(op_id));

    let op = w.execute_operation(EXECUTOR, op_id);
    assert_eq!(op.proposal_id, 0u64);
    assert_eq!(op.param_key, "collateral_factor".as_bytes());
    assert_eq!(op.new_value, "7500".as_bytes());
    assert!(w.timelock.is_executed(op_id));
    assert!(!w.ready(op_id));
}

#[test]
#[should_panic(expected = "timelock delay not elapsed")]
fn test_cannot_execute_before_delay() {
    let mut w = setup();

    let op_id = w.queue_operation(ADMIN, 1u64, "borrow_rate_bps", "400");

    // Do NOT advance ledger
    w.execute_operation(EXECUTOR, op_id);
}

#[test]
#[should_panic(expected = "operation expired")]
fn test_cannot_execute_after_expiry() {
    let mut w = setup();

    let op_id = w.queue_operation(ADMIN, 2u64, "protocol_fee_bps", "500");

    // Advance past both delay AND grace period
    w.ledger += DEFAULT_DELAY_LEDGERS + GRACE_PERIOD_LEDGERS + 1;

    w.execute_operation(EXECUTOR, op_id);
}

#[test]
fn test_guardian_cancel() {
    let mut w = setup();

    let op_id = w.queue_operation(ADMIN, 3u64, "collateral_factor", "9500"); // malicious value

    w.cancel_operation(GUARDIAN, op_id);
    assert!(w.timelock.is_cancelled(op_id));
}

#[test]
fn test_admin_cancel() {
    let mut w = setup();

    let op_id = w.queue_operation(ADMIN, 4u64, "borrow_rate_bps", "9999");

    w.cancel_operation(ADMIN, op_id);
    assert!(w.timelock.is_cancelled(op_id));
    assert!(!w.timelock.is_executed(op_id));
}

#[test]
#[should_panic(expected = "operation not queued")]
fn test_cannot_execute_cancelled_op() {
    let mut w = setup();

    let op_id = w.queue_operation(ADMIN, 5u64, "collateral_factor", "9900");

    w.cancel_operation(GUARDIAN, op_id);

    w.ledger += DEFAULT_DELAY_LEDGERS + 1;

    w.execute_operation(EXECUTOR, op_id); // should panic
}

#[test]
#[should_panic(expected = "only guardian or admin may cancel")]
fn test_random_cannot_cancel() {
    let mut w = setup();
    let rando = Address { id: 9 };

    let op_id = w.queue_operation(ADMIN, 6u64, "collateral_factor", "7500");

    w.cancel_operation(rando, op_id);
}

#[test]
fn test_set_delay() {
    let mut w = setup();

    done(w.timelock.set_delay(ADMIN, 50_000u32));
    assert_eq!(w.timelock.get_delay(), 50_000u32);
}

#[test]
fn test_set_guardian() {
    let mut w = setup();

    let new_guardian = Address { id: 11 };
    done(w.timelock.set_guardian(ADMIN, new_guardian));
    assert_eq!(w.timelock.get_guardian(), Ok(new_guardian));
}

#[test]
#[should_panic(expected = "operation already queued")]
fn test_no_duplicate_queue() {
    let mut w = setup();

    w.queue_operation(ADMIN, 7u64, "collateral_factor", "7500");
    // Same proposal, same eta, same hash: duplicate
    w.queue_operation(ADMIN, 7u64, "collateral_factor", "7500");
}

// ---------------------------------------------------------------------------
// Identifiers
// ---------------------------------------------------------------------------

#[test]
fn operation_identifiers_are_digests() {
    let mut w = setup();
    let expected: [u8; 32] = [
        245, 163, 8, 214, 71, 94, 78, 134, 7, 38, 255, 137, 217, 4, 200, 95, 205, 133, 69, 111,
        237, 34, 123, 191, 154, 182, 154, 174, 105, 57, 57, 180,
    ];
    assert_eq!(compute_op_id(&w.env, 7, 34_560), expected);
    assert_eq!(w.queue_operation(ADMIN, 7, "k", "v"), expected);
    assert_eq!(
        compute_op_id(&w.env, 0x0102_0304_0506_0708, 0x0a0b_0c0d),
        [
            80, 33, 62, 217, 64, 232, 248, 146, 122, 211, 165, 243, 158, 53, 103, 41, 102, 147,
            55, 126, 114, 164, 156, 236, 11, 46, 23, 143, 210, 92, 237, 189,
        ]
    );
    assert_ne!(compute_op_id(&w.env, 7, 34_561), expected);
}

#[test]
fn numbers_are_written_big_endian() {
    let mut out: Vec<u8> = vec![9];
    push_be_bytes(&mut out, 0x0102_0304_0506_0708, 8);
    push_be_bytes(&mut out, 0x0a0b_0c0d, 4);
    assert_eq!(out, vec![9, 1, 2, 3, 4, 5, 6, 7, 8, 10, 11, 12, 13]);
    assert_eq!(out[1..9], 0x0102_0304_0506_0708u64.to_be_bytes());
}

#[test]
fn byte_strings_and_tables() {
    assert!(bytes_equal(b"abc", b"abc"));
    assert!(!bytes_equal(b"abc", b"abd"));
    assert!(!bytes_equal(b"abc", b"abcd"));
    assert_eq!(copy_bytes(b"xyz"), b"xyz".to_vec());
    let mut m: ByteMap<u64> = ByteMap::new();
    assert_eq!(m.get(b"a"), None);
    m.insert(b"a".to_vec(), 1);
    m.insert(b"b".to_vec(), 2);
    m.insert(b"a".to_vec(), 3);
    assert_eq!(m.get(b"a"), Some(&3));
    assert_eq!(m.get(b"b"), Some(&2));
    assert_eq!(m.get(b""), None);
}

// ---------------------------------------------------------------------------
// What holds throughout
// ---------------------------------------------------------------------------

#[test]
fn operations_run_from_eta_to_expiry() {
    let mut w = setup();
    done(w.timelock.set_delay(ADMIN, 10));
    w.ledger = 100;
    let a = w.queue_operation(ADMIN, 1, "a", "1");
    let b = w.queue_operation(ADMIN, 2, "b", "2");
    let op = w.timelock.get_operation(a).unwrap();
    assert_eq!(op.id, a);
    assert_eq!(op.queued_at_ledger, 100);
    assert_eq!(op.eta_ledger, 110);
    assert_eq!(op.expiry_ledger, 110 + 120_960);
    assert_eq!(op.status, OperationStatus::Queued);
    w.ledger = 109;
    assert!(!w.ready(a));
    w.ledger = 110;
    assert!(w.ready(a));
    assert_eq!(w.execute_operation(EXECUTOR, a).status, OperationStatus::Executed);
    w.ledger = 110 + 120_960;
    assert!(w.ready(b));
    w.ledger += 1;
    assert!(!w.ready(b));
}

#[test]
fn a_new_delay_spares_queued_operations() {
    let mut w = setup();
    let a = w.queue_operation(ADMIN, 1, "a", "1");
    done(w.timelock.set_delay(ADMIN, 1_000_000));
    w.ledger = DEFAULT_DELAY_LEDGERS;
    assert!(w.ready(a));
}

#[test]
fn settled_operations_do_not_change() {
    let mut w = setup();
    let a = w.queue_operation(ADMIN, 1, "a", "1");
    w.ledger = DEFAULT_DELAY_LEDGERS;
    w.execute_operation(EXECUTOR, a);
    let inv = w.inv();
    assert_eq!(
        w.timelock.execute_operation(&inv, EXECUTOR, a).unwrap_err(),
        TimelockError::OperationNotQueued
    );
    assert_eq!(
        w.timelock.cancel_operation(ADMIN, a).unwrap_err(),
        TimelockError::OperationNotQueued
    );
    assert!(w.timelock.is_executed(a));
    assert!(!w.timelock.is_cancelled(a));
}

#[test]
fn receipts_of_the_timelock() {
    let mut w = setup();
    let r = w.queue(ADMIN, 1, "a", "1").unwrap();
    assert_eq!(r.auth, Some(ADMIN));
    assert_eq!(r.events.len(), 1);
    assert_eq!(r.events[0].topic(), "tl_queue");
    match &r.events[0] {
        TimelockEvent::Queued { op_id, proposal_id, param_key, eta } => {
            assert_eq!(*op_id, r.value);
            assert_eq!(*proposal_id, 1);
            assert_eq!(*param_key, b"a".to_vec());
            assert_eq!(*eta, 34_560);
        }
        _ => panic!("another event"),
    }
    w.ledger = 34_560;
    let inv = w.inv();
    let e = w.timelock.execute_operation(&inv, EXECUTOR, r.value).unwrap();
    assert_eq!(e.auth, Some(EXECUTOR));
    assert_eq!(e.events[0].topic(), "tl_exec");
    let r = w.queue(ADMIN, 2, "a", "1").unwrap();
    let c = w.timelock.cancel_operation(GUARDIAN, r.value).unwrap();
    assert_eq!(c.auth, Some(GUARDIAN));
    assert_eq!(c.events[0].topic(), "tl_cncl");
    let d = w.timelock.set_delay(ADMIN, 5).unwrap();
    assert_eq!((d.auth, d.events[0].topic()), (Some(ADMIN), "tl_dlay"));
    let g = w.timelock.set_guardian(ADMIN, EXECUTOR).unwrap();
    assert_eq!((g.auth, g.events[0].topic()), (Some(ADMIN), "tl_grd"));
    let x = w.timelock.bump_instance();
    assert_eq!((x.threshold, x.extend_to), (100_800, 518_400));
}

#[test]
fn timelock_rejections() {
    let mut bare = World {
        env: soroban_sdk::Env::default(),
        timelock: TimelockContract::new(),
        ledger: 0,
    };
    assert_eq!(bare.queue(ADMIN, 1, "a", "1").unwrap_err(), TimelockError::NotInitialized);
    assert_eq!(bare.timelock.get_guardian(), Err(TimelockError::NotInitialized));
    assert_eq!(bare.timelock.get_delay(), DEFAULT_DELAY_LEDGERS);
    assert_eq!(
        bare.timelock.cancel_operation(ADMIN, [0; 32]).unwrap_err(),
        TimelockError::NotInitialized
    );

    let mut w = setup();
    let inv = w.inv();
    assert_eq!(
        w.timelock.initialize(ADMIN, GUARDIAN, 5).unwrap_err(),
        TimelockError::AlreadyInitialized
    );
    assert_eq!(
        w.queue(GUARDIAN, 1, "a", "1").unwrap_err(),
        TimelockError::OnlyGovernanceMayQueue
    );
    assert_eq!(
        w.timelock.execute_operation(&inv, EXECUTOR, [0; 32]).unwrap_err(),
        TimelockError::OperationNotFound
    );
    assert_eq!(
        w.timelock.get_operation([0; 32]).unwrap_err(),
        TimelockError::OperationNotFound
    );
    assert_eq!(
        w.timelock.set_delay(GUARDIAN, 5).unwrap_err(),
        TimelockError::OnlyAdminMaySetDelay
    );
    assert_eq!(w.timelock.set_delay(ADMIN, 0).unwrap_err(), TimelockError::DelayNotPositive);
    assert_eq!(
        w.timelock.set_guardian(GUARDIAN, EXECUTOR).unwrap_err(),
        TimelockError::OnlyAdminMaySetGuardian
    );
    assert!(!w.timelock.is_executed([0; 32]));
    assert!(!w.timelock.is_cancelled([0; 32]));
    w.ledger = u32::MAX - 34_560;
    assert_eq!(w.queue(ADMIN, 1, "a", "1").unwrap_err(), TimelockError::Arithmetic);
    w.ledger = u32::MAX - 34_560 - 120_960;
    assert!(w.queue(ADMIN, 1, "a", "1").is_ok());
}

#[test]
fn timelock_messages() {
    let texts = [
        (TimelockError::AlreadyInitialized, "already initialized"),
        (TimelockError::OnlyGovernanceMayQueue, "only governance may queue operations"),
        (TimelockError::OperationNotFound, "operation not found"),
        (TimelockError::OnlyAdminMaySetDelay, "only admin may set delay"),
        (TimelockError::DelayNotPositive, "delay must be positive"),
        (TimelockError::OnlyAdminMaySetGuardian, "only admin may set guardian"),
    ];
    for (e, text) in texts {
        assert_eq!(e.message(), text);
    }
}
