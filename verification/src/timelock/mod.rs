//! A mandatory delay between the approval of a governance proposal and its application.
//!
//! Passed proposals enter this queue; only after the configured delay (by default about
//! 48 hours, 34 560 ledgers of 5 seconds) may they be finalized.
//!
//! ## Roles
//! - **Admin**: the governance contract. The only address permitted to enqueue operations.
//!   It also holds the emergency-cancel right.
//! - **Guardian**: a fast-response multisig or security council. It may cancel malicious or
//!   erroneous operations before they execute.

use vstd::prelude::*;
use crate::bytes;
use crate::bytes::{copy_bytes, push_be_bytes, ByteMap};
use crate::host;
use crate::host::{none_of, one_of, Address, Extension, Invocation, Receipt};
use crate::sdk::sha256;

pub mod call_laws;
pub mod laws;
pub mod model;

use model::{
    OperationState, OperationStatus, TimelockConfig, TimelockError, TimelockReport, TimelockState,
    DEFAULT_DELAY_LEDGERS, GRACE_PERIOD_LEDGERS,
};

verus! {

/// An operation in the queue.
#[derive(Debug)]
pub struct QueuedOperation {
    /// Deterministic identifier: SHA-256(proposal_id || eta_ledger).
    pub id: [u8; 32],
    /// The governance proposal that generated this operation.
    pub proposal_id: u64,
    /// The protocol parameter key being changed (e.g. "collateral_factor").
    pub param_key: Vec<u8>,
    /// The new value to be applied (e.g. "7500" for 75 % in bps).
    pub new_value: Vec<u8>,
    /// Ledger at which the operation was queued.
    pub queued_at_ledger: u32,
    /// Earliest ledger at which the operation may be executed.
    pub eta_ledger: u32,
    /// Latest ledger by which the operation must be executed (eta + grace period).
    pub expiry_ledger: u32,
    /// Current lifecycle state.
    pub status: OperationStatus,
}

impl View for QueuedOperation {
    type V = OperationState;

    open spec fn view(&self) -> OperationState {
        OperationState {
            id: self.id@,
            proposal_id: self.proposal_id,
            param_key: self.param_key@,
            new_value: self.new_value@,
            queued_at_ledger: self.queued_at_ledger,
            eta_ledger: self.eta_ledger,
            expiry_ledger: self.expiry_ledger,
            status: self.status,
        }
    }
}

impl QueuedOperation {
    /// A copy of the operation that stands at `status`.
    fn copy_at(&self, status: OperationStatus) -> (r: QueuedOperation)
        ensures
            r@ == (OperationState { status, ..self@ }),
    {
        QueuedOperation {
            id: self.id,
            proposal_id: self.proposal_id,
            param_key: copy_bytes(self.param_key.as_slice()),
            new_value: copy_bytes(self.new_value.as_slice()),
            queued_at_ledger: self.queued_at_ledger,
            eta_ledger: self.eta_ledger,
            expiry_ledger: self.expiry_ledger,
            status,
        }
    }
}

/// What the timelock reports.
#[derive(Debug)]
pub enum TimelockEvent {
    Queued { op_id: [u8; 32], proposal_id: u64, param_key: Vec<u8>, eta: u32 },
    Executed { op_id: [u8; 32], proposal_id: u64 },
    Cancelled { op_id: [u8; 32], proposal_id: u64 },
    DelaySet { delay: u32 },
    GuardianSet { guardian: Address },
}

impl View for TimelockEvent {
    type V = TimelockReport;

    open spec fn view(&self) -> TimelockReport {
        match *self {
            TimelockEvent::Queued { op_id, proposal_id, param_key, eta } => TimelockReport::Queued {
                op_id: op_id@,
                proposal_id,
                param_key: param_key@,
                eta,
            },
            TimelockEvent::Executed { op_id, proposal_id } => TimelockReport::Executed {
                op_id: op_id@,
                proposal_id,
            },
            TimelockEvent::Cancelled { op_id, proposal_id } => TimelockReport::Cancelled {
                op_id: op_id@,
                proposal_id,
            },
            TimelockEvent::DelaySet { delay } => TimelockReport::DelaySet { delay },
            TimelockEvent::GuardianSet { guardian } => TimelockReport::GuardianSet { guardian },
        }
    }
}

impl TimelockEvent {
    /// The topic under which the event is published.
    pub open spec fn topic_text(self) -> Seq<char> {
        match self {
            TimelockEvent::Queued { .. } => "tl_queue"@,
            TimelockEvent::Executed { .. } => "tl_exec"@,
            TimelockEvent::Cancelled { .. } => "tl_cncl"@,
            TimelockEvent::DelaySet { .. } => "tl_dlay"@,
            TimelockEvent::GuardianSet { .. } => "tl_grd"@,
        }
    }

    /// The topic under which to publish the event.
    pub fn topic(&self) -> (r: &'static str)
        ensures
            r@ == self.topic_text(),
    {
        match self {
            TimelockEvent::Queued { .. } => "tl_queue",
            TimelockEvent::Executed { .. } => "tl_exec",
            TimelockEvent::Cancelled { .. } => "tl_cncl",
            TimelockEvent::DelaySet { .. } => "tl_dlay",
            TimelockEvent::GuardianSet { .. } => "tl_grd",
        }
    }
}

/// The result of a timelock call.
pub type TimelockResult<T> = Result<Receipt<T, TimelockEvent>, TimelockError>;

/// The timelock.
pub struct TimelockContract {
    /// Set by `initialize`.
    pub config: Option<TimelockConfig>,
    /// Timelock delay in ledgers.
    pub delay: u32,
    /// The operations by their identifiers.
    pub operations: ByteMap<QueuedOperation>,
}

impl View for TimelockContract {
    type V = TimelockState;

    open spec fn view(&self) -> TimelockState {
        TimelockState { config: self.config, delay: self.delay, operations: self.operations@ }
    }
}

/// Deterministic operation ID: SHA-256 over (proposal_id as big-endian u64) || (eta as
/// big-endian u32).
pub fn compute_op_id(env: &soroban_sdk::Env, proposal_id: u64, eta: u32) -> (id: [u8; 32])
    ensures
        id@ == model::op_id(proposal_id, eta),
{
    let mut data: Vec<u8> = Vec::new();
    push_be_bytes(&mut data, proposal_id, 8);
    push_be_bytes(&mut data, eta as u64, 4);
    proof {
        assert(data@ =~= model::op_preimage(proposal_id, eta));
        bytes::lemma_be_bytes_len(proposal_id as nat, 8);
        bytes::lemma_be_bytes_len(eta as nat, 4);
    }
    sha256(env, data.as_slice())
}

impl TimelockContract {
    /// Whether no operation is kept twice.
    pub open spec fn wf(self) -> bool {
        self.operations.wf()
    }

    /// A timelock that is not initialized yet.
    pub fn new() -> (timelock: TimelockContract)
        ensures
            timelock.wf(),
            timelock@ == TimelockState::blank(),
    {
        TimelockContract { config: None, delay: DEFAULT_DELAY_LEDGERS, operations: ByteMap::new() }
    }

    // -----------------------------------------------------------------------
    // Lifecycle
    // -----------------------------------------------------------------------

    /// One-time initialization.
    ///
    /// * `admin`          - The governance contract address (enqueuing authority).
    /// * `guardian`       - Emergency cancellation authority.
    /// * `delay_ledgers`  - Override the default 48 h delay (0 = use default).
    pub fn initialize(&mut self, admin: Address, guardian: Address, delay_ledgers: u32) -> (r:
        TimelockResult<()>)
        requires
            old(self).wf(),
        ensures
            final(self).wf(),
            match model::initialize_step(old(self)@, admin, guardian, delay_ledgers) {
                Ok((next, out)) => r is Ok && r->Ok_0.viewed() == out && final(self)@ == next,
                Err(e) => r == TimelockResult::<()>::Err(e) && *final(self) == *old(self),
            },
    {
        if self.config.is_some() {
            return Err(TimelockError::AlreadyInitialized);
        }
        self.config = Some(TimelockConfig { admin, guardian });
        self.delay = if delay_ledgers == 0 {
            DEFAULT_DELAY_LEDGERS
        } else {
            delay_ledgers
        };
        Ok(Receipt { value: (), auth: None, transfers: none_of(), events: none_of() })
    }

    /// The extension of the instance storage that keeps the contract alive. Anyone may ask
    /// for it.
    pub fn bump_instance(&self) -> (r: Extension)
        ensures
            r.threshold == host::INSTANCE_LIFETIME_THRESHOLD,
            r.extend_to == host::INSTANCE_BUMP_AMOUNT,
    {
        Extension {
            threshold: host::INSTANCE_LIFETIME_THRESHOLD,
            extend_to: host::INSTANCE_BUMP_AMOUNT,
        }
    }

    // -----------------------------------------------------------------------
    // Core timelock operations
    // -----------------------------------------------------------------------

    /// Enqueue a governance operation.
    ///
    /// Only the admin (governance contract) may call this.
    /// Returns the deterministic operation ID.
    pub fn queue_operation(
        &mut self,
        inv: &Invocation,
        caller: Address,
        proposal_id: u64,
        param_key: Vec<u8>,
        new_value: Vec<u8>,
    ) -> (r: TimelockResult<[u8; 32]>)
        requires
            old(self).wf(),
        ensures
            final(self).wf(),
            match model::queue_operation_step(
                old(self)@,
                inv.ledger,
                caller,
                proposal_id,
                param_key@,
                new_value@,
            ) {
                Ok((next, out)) => r is Ok && r->Ok_0.viewed() == out && final(self)@ == next,
                Err(e) => r == TimelockResult::<[u8; 32]>::Err(e) && *final(self) == *old(self),
            },
    {
        match self.config {
            None => return Err(TimelockError::NotInitialized),
            Some(c) => if caller != c.admin {
                return Err(TimelockError::OnlyGovernanceMayQueue);
            },
        }
        let eta: u32 = match inv.ledger.checked_add(self.delay) {
            None => return Err(TimelockError::Arithmetic),
            Some(eta) => eta,
        };
        let expiry: u32 = match eta.checked_add(GRACE_PERIOD_LEDGERS) {
            None => return Err(TimelockError::Arithmetic),
            Some(expiry) => expiry,
        };
        let op_id: [u8; 32] = compute_op_id(&inv.env, proposal_id, eta);
        if self.operations.get(op_id.as_slice()).is_some() {
            return Err(TimelockError::OperationAlreadyQueued);
        }
        let event = TimelockEvent::Queued {
            op_id,
            proposal_id,
            param_key: copy_bytes(param_key.as_slice()),
            eta,
        };
        self.operations.insert(
            copy_bytes(op_id.as_slice()),
            QueuedOperation {
                id: op_id,
                proposal_id,
                param_key,
                new_value,
                queued_at_ledger: inv.ledger,
                eta_ledger: eta,
                expiry_ledger: expiry,
                status: OperationStatus::Queued,
            },
        );
        Ok(
            Receipt {
                value: op_id,
                auth: Some(caller),
                transfers: none_of(),
                events: one_of(event),
            },
        )
    }

    /// The operation `op_id`, if it is queued.
    fn queued(&self, op_id: &[u8; 32]) -> (r: Result<&QueuedOperation, TimelockError>)
        requires
            self.wf(),
        ensures
            match self@.operation(op_id@) {
                None => r == Err::<&QueuedOperation, TimelockError>(
                    TimelockError::OperationNotFound,
                ),
                Some(op) => if op.status == OperationStatus::Queued {
                    r is Ok && r->Ok_0@ == op
                } else {
                    r == Err::<&QueuedOperation, TimelockError>(TimelockError::OperationNotQueued)
                },
            },
    {
        match self.operations.get(op_id.as_slice()) {
            None => Err(TimelockError::OperationNotFound),
            Some(op) => if op.status != OperationStatus::Queued {
                Err(TimelockError::OperationNotQueued)
            } else {
                Ok(op)
            },
        }
    }

    /// Execute a queued operation after the delay has elapsed.
    ///
    /// Anyone may call this once `current_ledger >= eta_ledger`.
    /// Returns the operation data so the caller can apply parameter changes.
    pub fn execute_operation(&mut self, inv: &Invocation, executor: Address, op_id: [u8; 32]) -> (r:
        TimelockResult<QueuedOperation>)
        requires
            old(self).wf(),
        ensures
            final(self).wf(),
            match model::execute_operation_step(old(self)@, inv.ledger, executor, op_id@) {
                Ok((next, out)) => r is Ok && r->Ok_0.viewed() == out && final(self)@ == next,
                Err(e) => r == TimelockResult::<QueuedOperation>::Err(e) && *final(self)
                    == *old(self),
            },
    {
        let executed: QueuedOperation = match self.queued(&op_id) {
            Err(e) => return Err(e),
            Ok(op) => {
                if inv.ledger < op.eta_ledger {
                    return Err(TimelockError::DelayNotElapsed);
                }
                if inv.ledger > op.expiry_ledger {
                    return Err(TimelockError::OperationExpired);
                }
                op.copy_at(OperationStatus::Executed)
            },
        };
        let proposal_id: u64 = executed.proposal_id;
        let kept: QueuedOperation = executed.copy_at(OperationStatus::Executed);
        self.operations.insert(copy_bytes(op_id.as_slice()), kept);
        Ok(
            Receipt {
                value: executed,
                auth: Some(executor),
                transfers: none_of(),
                events: one_of(TimelockEvent::Executed { op_id, proposal_id }),
            },
        )
    }

    /// Cancel a queued operation before it executes.
    ///
    /// Only the guardian or admin (governance) may call this. Use for emergency
    /// cancellation of malicious or erroneous proposals.
    pub fn cancel_operation(&mut self, canceller: Address, op_id: [u8; 32]) -> (r: TimelockResult<
        (),
    >)
        requires
            old(self).wf(),
        ensures
            final(self).wf(),
            match model::cancel_operation_step(old(self)@, canceller, op_id@) {
                Ok((next, out)) => r is Ok && r->Ok_0.viewed() == out && final(self)@ == next,
                Err(e) => r == TimelockResult::<()>::Err(e) && *final(self) == *old(self),
            },
    {
        match self.config {
            None => return Err(TimelockError::NotInitialized),
            Some(c) => if canceller != c.admin && canceller != c.guardian {
                return Err(TimelockError::OnlyGuardianOrAdminMayCancel);
            },
        }
        let cancelled: QueuedOperation = match self.queued(&op_id) {
            Err(e) => return Err(e),
            Ok(op) => op.copy_at(OperationStatus::Cancelled),
        };
        let proposal_id: u64 = cancelled.proposal_id;
        self.operations.insert(copy_bytes(op_id.as_slice()), cancelled);
        Ok(
            Receipt {
                value: (),
                auth: Some(canceller),
                transfers: none_of(),
                events: one_of(TimelockEvent::Cancelled { op_id, proposal_id }),
            },
        )
    }

    // -----------------------------------------------------------------------
    // Admin configuration
    // -----------------------------------------------------------------------

    /// Update the timelock delay. Only callable by admin (governance).
    ///
    /// Note: for a fully decentralized protocol, changes to the delay should
    /// themselves be timelocked; enforce this at the governance layer.
    pub fn set_delay(&mut self, admin: Address, new_delay_ledgers: u32) -> (r: TimelockResult<()>)
        requires
            old(self).wf(),
        ensures
            final(self).wf(),
            match model::set_delay_step(old(self)@, admin, new_delay_ledgers) {
                Ok((next, out)) => r is Ok && r->Ok_0.viewed() == out && final(self)@ == next,
                Err(e) => r == TimelockResult::<()>::Err(e) && *final(self) == *old(self),
            },
    {
        match self.config {
            None => return Err(TimelockError::NotInitialized),
            Some(c) => if admin != c.admin {
                return Err(TimelockError::OnlyAdminMaySetDelay);
            },
        }
        if new_delay_ledgers == 0 {
            return Err(TimelockError::DelayNotPositive);
        }
        self.delay = new_delay_ledgers;
        Ok(
            Receipt {
                value: (),
                auth: Some(admin),
                transfers: none_of(),
                events: one_of(TimelockEvent::DelaySet { delay: new_delay_ledgers }),
            },
        )
    }

    /// Rotate the guardian address. Only callable by admin (governance).
    pub fn set_guardian(&mut self, admin: Address, new_guardian: Address) -> (r: TimelockResult<()>)
        requires
            old(self).wf(),
        ensures
            final(self).wf(),
            match model::set_guardian_step(old(self)@, admin, new_guardian) {
                Ok((next, out)) => r is Ok && r->Ok_0.viewed() == out && final(self)@ == next,
                Err(e) => r == TimelockResult::<()>::Err(e) && *final(self) == *old(self),
            },
    {
        match self.config {
            None => return Err(TimelockError::NotInitialized),
            Some(c) => {
                if admin != c.admin {
                    return Err(TimelockError::OnlyAdminMaySetGuardian);
                }
                self.config = Some(TimelockConfig { admin: c.admin, guardian: new_guardian });
            },
        }
        Ok(
            Receipt {
                value: (),
                auth: Some(admin),
                transfers: none_of(),
                events: one_of(TimelockEvent::GuardianSet { guardian: new_guardian }),
            },
        )
    }

    // -----------------------------------------------------------------------
    // Views
    // -----------------------------------------------------------------------

    pub fn get_operation(&self, op_id: [u8; 32]) -> (r: Result<QueuedOperation, TimelockError>)
        requires
            self.wf(),
        ensures
            match self@.operation(op_id@) {
                Some(op) => r is Ok && r->Ok_0@ == op,
                None => r == Err::<QueuedOperation, TimelockError>(
                    TimelockError::OperationNotFound,
                ),
            },
    {
        match self.operations.get(op_id.as_slice()) {
            None => Err(TimelockError::OperationNotFound),
            Some(op) => Ok(op.copy_at(op.status)),
        }
    }

    pub fn get_delay(&self) -> (r: u32)
        ensures
            r == self@.delay,
    {
        self.delay
    }

    pub fn get_guardian(&self) -> (r: Result<Address, TimelockError>)
        ensures
            match self@.config {
                Some(c) => r == Ok::<Address, TimelockError>(c.guardian),
                None => r == Err::<Address, TimelockError>(TimelockError::NotInitialized),
            },
    {
        match self.config {
            None => Err(TimelockError::NotInitialized),
            Some(c) => Ok(c.guardian),
        }
    }

    /// Returns true when a queued operation has passed its delay and is ready to execute.
    pub fn is_operation_ready(&self, inv: &Invocation, op_id: [u8; 32]) -> (r: bool)
        requires
            self.wf(),
        ensures
            r == self@.ready(op_id@, inv.ledger),
    {
        match self.operations.get(op_id.as_slice()) {
            None => false,
            Some(op) => op.status == OperationStatus::Queued && inv.ledger >= op.eta_ledger
                && inv.ledger <= op.expiry_ledger,
        }
    }

    /// Returns true when an operation has been successfully executed.
    /// Used by the governance contract's `finalize_proposal` to verify on-chain.
    pub fn is_executed(&self, op_id: [u8; 32]) -> (r: bool)
        requires
            self.wf(),
        ensures
            r == self@.stands_at(op_id@, OperationStatus::Executed),
    {
        match self.operations.get(op_id.as_slice()) {
            None => false,
            Some(op) => op.status == OperationStatus::Executed,
        }
    }

    /// Returns true when an operation has been cancelled.
    pub fn is_cancelled(&self, op_id: [u8; 32]) -> (r: bool)
        requires
            self.wf(),
        ensures
            r == self@.stands_at(op_id@, OperationStatus::Cancelled),
    {
        match self.operations.get(op_id.as_slice()) {
            None => false,
            Some(op) => op.status == OperationStatus::Cancelled,
        }
    }
}

} // verus!
