//! What the timelock's calls do, as functions on a mathematical state.

use vstd::prelude::*;
use crate::bytes;
use crate::host::{Address, Outcome};
use crate::sdk;

verus! {

/// Default timelock delay: about 48 hours at 5 seconds per ledger.
pub const DEFAULT_DELAY_LEDGERS: u32 = 34_560;

/// Grace period after `eta` during which the operation must be executed.
/// After this window the operation expires and can no longer run (about 7 days).
pub const GRACE_PERIOD_LEDGERS: u32 = 120_960;

/// Where an operation stands.
#[derive(Clone, Copy, PartialEq, Eq, Structural, Debug)]
pub enum OperationStatus {
    Queued,
    Executed,
    Cancelled,
}

/// An operation and what became of it.
#[verifier::ext_equal]
pub struct OperationState {
    pub id: Seq<u8>,
    pub proposal_id: u64,
    pub param_key: Seq<u8>,
    pub new_value: Seq<u8>,
    pub queued_at_ledger: u32,
    pub eta_ledger: u32,
    pub expiry_ledger: u32,
    pub status: OperationStatus,
}

/// Who runs the timelock.
#[derive(Clone, Copy, PartialEq, Eq, Structural, Debug)]
pub struct TimelockConfig {
    /// The governance contract. Only this address may queue operations.
    pub admin: Address,
    /// Emergency guardian: may cancel queued operations.
    pub guardian: Address,
}

/// Why the timelock rejects a call.
#[derive(Clone, Copy, PartialEq, Eq, Structural, Debug)]
pub enum TimelockError {
    AlreadyInitialized,
    NotInitialized,
    OnlyGovernanceMayQueue,
    OperationAlreadyQueued,
    OperationNotFound,
    OperationNotQueued,
    DelayNotElapsed,
    OperationExpired,
    OnlyGuardianOrAdminMayCancel,
    OnlyAdminMaySetDelay,
    DelayNotPositive,
    OnlyAdminMaySetGuardian,
    /// A ledger number does not fit.
    Arithmetic,
}

impl TimelockError {
    /// What is said when a call is rejected.
    pub open spec fn text(self) -> Seq<char> {
        match self {
            TimelockError::AlreadyInitialized => "already initialized"@,
            TimelockError::NotInitialized => "not initialized"@,
            TimelockError::OnlyGovernanceMayQueue => "only governance may queue operations"@,
            TimelockError::OperationAlreadyQueued => "operation already queued"@,
            TimelockError::OperationNotFound => "operation not found"@,
            TimelockError::OperationNotQueued => "operation not queued"@,
            TimelockError::DelayNotElapsed => "timelock delay not elapsed"@,
            TimelockError::OperationExpired => "operation expired"@,
            TimelockError::OnlyGuardianOrAdminMayCancel => "only guardian or admin may cancel"@,
            TimelockError::OnlyAdminMaySetDelay => "only admin may set delay"@,
            TimelockError::DelayNotPositive => "delay must be positive"@,
            TimelockError::OnlyAdminMaySetGuardian => "only admin may set guardian"@,
            TimelockError::Arithmetic => "arithmetic overflow"@,
        }
    }

    /// What to say when a call is rejected.
    pub fn message(self) -> (r: &'static str)
        ensures
            r@ == self.text(),
    {
        match self {
            TimelockError::AlreadyInitialized => "already initialized",
            TimelockError::NotInitialized => "not initialized",
            TimelockError::OnlyGovernanceMayQueue => "only governance may queue operations",
            TimelockError::OperationAlreadyQueued => "operation already queued",
            TimelockError::OperationNotFound => "operation not found",
            TimelockError::OperationNotQueued => "operation not queued",
            TimelockError::DelayNotElapsed => "timelock delay not elapsed",
            TimelockError::OperationExpired => "operation expired",
            TimelockError::OnlyGuardianOrAdminMayCancel => "only guardian or admin may cancel",
            TimelockError::OnlyAdminMaySetDelay => "only admin may set delay",
            TimelockError::DelayNotPositive => "delay must be positive",
            TimelockError::OnlyAdminMaySetGuardian => "only admin may set guardian",
            TimelockError::Arithmetic => "arithmetic overflow",
        }
    }
}

/// What the timelock reports.
#[verifier::ext_equal]
pub enum TimelockReport {
    Queued { op_id: Seq<u8>, proposal_id: u64, param_key: Seq<u8>, eta: u32 },
    Executed { op_id: Seq<u8>, proposal_id: u64 },
    Cancelled { op_id: Seq<u8>, proposal_id: u64 },
    DelaySet { delay: u32 },
    GuardianSet { guardian: Address },
}

/// The mathematical state of the timelock.
#[verifier::ext_equal]
pub struct TimelockState {
    pub config: Option<TimelockConfig>,
    /// The delay in ledgers.
    pub delay: u32,
    /// The operations by their identifiers.
    pub operations: Map<Seq<u8>, OperationState>,
}

/// What a call makes of a state: the next state and what it asks of the host, or an error.
pub type TimelockStep<T> = Result<(TimelockState, Outcome<T, TimelockReport>), TimelockError>;

/// What an operation identifier is the digest of: the proposal number and the eta, both
/// big-endian.
pub open spec fn op_preimage(proposal_id: u64, eta: u32) -> Seq<u8> {
    bytes::be_bytes(proposal_id as nat, 8) + bytes::be_bytes(eta as nat, 4)
}

/// Deterministic operation ID: SHA-256 over (proposal_id as big-endian u64) || (eta as
/// big-endian u32).
pub open spec fn op_id(proposal_id: u64, eta: u32) -> Seq<u8> {
    sdk::sha256_digest(op_preimage(proposal_id, eta))
}

impl TimelockState {
    /// The timelock before it is initialized.
    pub open spec fn blank() -> TimelockState {
        TimelockState { config: None, delay: DEFAULT_DELAY_LEDGERS, operations: Map::empty() }
    }

    /// The operation `id`, if it is known.
    pub open spec fn operation(self, id: Seq<u8>) -> Option<OperationState> {
        if self.operations.contains_key(id) {
            Some(self.operations[id])
        } else {
            None
        }
    }

    /// Whether the operation `id` is known and stands at `status`.
    pub open spec fn stands_at(self, id: Seq<u8>, status: OperationStatus) -> bool {
        self.operations.contains_key(id) && self.operations[id].status == status
    }

    /// Whether the operation `id` may be executed at `ledger`.
    pub open spec fn ready(self, id: Seq<u8>, ledger: u32) -> bool {
        self.stands_at(id, OperationStatus::Queued) && self.operations[id].eta_ledger <= ledger
            <= self.operations[id].expiry_ledger
    }

    /// The timelock after the operation `id` moved to `status`.
    pub open spec fn with_status(self, id: Seq<u8>, status: OperationStatus) -> TimelockState {
        TimelockState {
            operations: self.operations.insert(id, OperationState { status, ..self.operations[id] }),
            ..self
        }
    }
}

// ---------------------------------------------------------------------------
// Calls
// ---------------------------------------------------------------------------

/// `initialize`: a delay of zero stands for the default.
pub open spec fn initialize_step(
    s: TimelockState,
    admin: Address,
    guardian: Address,
    delay_ledgers: u32,
) -> TimelockStep<()> {
    if s.config is Some {
        Err(TimelockError::AlreadyInitialized)
    } else {
        Ok(
            (
                TimelockState {
                    config: Some(TimelockConfig { admin, guardian }),
                    delay: if delay_ledgers == 0 {
                        DEFAULT_DELAY_LEDGERS
                    } else {
                        delay_ledgers
                    },
                    ..s
                },
                Outcome { value: (), auth: None, transfers: Seq::empty(), events: Seq::empty() },
            ),
        )
    }
}

/// `queue_operation`: the operation may run from `delay` ledgers after now until the end of
/// the grace period.
pub open spec fn queue_operation_step(
    s: TimelockState,
    ledger: u32,
    caller: Address,
    proposal_id: u64,
    param_key: Seq<u8>,
    new_value: Seq<u8>,
) -> TimelockStep<Seq<u8>> {
    match s.config {
        None => Err(TimelockError::NotInitialized),
        Some(c) => if caller != c.admin {
            Err(TimelockError::OnlyGovernanceMayQueue)
        } else if ledger + s.delay + GRACE_PERIOD_LEDGERS > u32::MAX {
            Err(TimelockError::Arithmetic)
        } else {
            let eta = (ledger + s.delay) as u32;
            let id = op_id(proposal_id, eta);
            if s.operations.contains_key(id) {
                Err(TimelockError::OperationAlreadyQueued)
            } else {
                Ok(
                    (
                        TimelockState {
                            operations: s.operations.insert(
                                id,
                                OperationState {
                                    id,
                                    proposal_id,
                                    param_key,
                                    new_value,
                                    queued_at_ledger: ledger,
                                    eta_ledger: eta,
                                    expiry_ledger: (eta + GRACE_PERIOD_LEDGERS) as u32,
                                    status: OperationStatus::Queued,
                                },
                            ),
                            ..s
                        },
                        Outcome {
                            value: id,
                            auth: Some(caller),
                            transfers: Seq::empty(),
                            events: seq![
                                TimelockReport::Queued { op_id: id, proposal_id, param_key, eta },
                            ],
                        },
                    ),
                )
            }
        },
    }
}

/// `execute_operation`: a queued operation runs once its delay has elapsed, and not after
/// its grace period.
pub open spec fn execute_operation_step(
    s: TimelockState,
    ledger: u32,
    executor: Address,
    id: Seq<u8>,
) -> TimelockStep<OperationState> {
    match s.operation(id) {
        None => Err(TimelockError::OperationNotFound),
        Some(op) => if op.status != OperationStatus::Queued {
            Err(TimelockError::OperationNotQueued)
        } else if ledger < op.eta_ledger {
            Err(TimelockError::DelayNotElapsed)
        } else if ledger > op.expiry_ledger {
            Err(TimelockError::OperationExpired)
        } else {
            let next = s.with_status(id, OperationStatus::Executed);
            Ok(
                (
                    next,
                    Outcome {
                        value: next.operations[id],
                        auth: Some(executor),
                        transfers: Seq::empty(),
                        events: seq![
                            TimelockReport::Executed { op_id: id, proposal_id: op.proposal_id },
                        ],
                    },
                ),
            )
        },
    }
}

/// `cancel_operation`: the guardian and the admin may stop a queued operation.
pub open spec fn cancel_operation_step(s: TimelockState, canceller: Address, id: Seq<u8>) -> TimelockStep<
    (),
> {
    match s.config {
        None => Err(TimelockError::NotInitialized),
        Some(c) => if canceller != c.admin && canceller != c.guardian {
            Err(TimelockError::OnlyGuardianOrAdminMayCancel)
        } else {
            match s.operation(id) {
                None => Err(TimelockError::OperationNotFound),
                Some(op) => if op.status != OperationStatus::Queued {
                    Err(TimelockError::OperationNotQueued)
                } else {
                    Ok(
                        (
                            s.with_status(id, OperationStatus::Cancelled),
                            Outcome {
                                value: (),
                                auth: Some(canceller),
                                transfers: Seq::empty(),
                                events: seq![
                                    TimelockReport::Cancelled {
                                        op_id: id,
                                        proposal_id: op.proposal_id,
                                    },
                                ],
                            },
                        ),
                    )
                },
            }
        },
    }
}

/// `set_delay`.
pub open spec fn set_delay_step(s: TimelockState, admin: Address, new_delay_ledgers: u32) -> TimelockStep<
    (),
> {
    match s.config {
        None => Err(TimelockError::NotInitialized),
        Some(c) => if admin != c.admin {
            Err(TimelockError::OnlyAdminMaySetDelay)
        } else if new_delay_ledgers == 0 {
            Err(TimelockError::DelayNotPositive)
        } else {
            Ok(
                (
                    TimelockState { delay: new_delay_ledgers, ..s },
                    Outcome {
                        value: (),
                        auth: Some(admin),
                        transfers: Seq::empty(),
                        events: seq![TimelockReport::DelaySet { delay: new_delay_ledgers }],
                    },
                ),
            )
        },
    }
}

/// `set_guardian`.
pub open spec fn set_guardian_step(s: TimelockState, admin: Address, new_guardian: Address) -> TimelockStep<
    (),
> {
    match s.config {
        None => Err(TimelockError::NotInitialized),
        Some(c) => if admin != c.admin {
            Err(TimelockError::OnlyAdminMaySetGuardian)
        } else {
            Ok(
                (
                    TimelockState {
                        config: Some(TimelockConfig { guardian: new_guardian, ..c }),
                        ..s
                    },
                    Outcome {
                        value: (),
                        auth: Some(admin),
                        transfers: Seq::empty(),
                        events: seq![TimelockReport::GuardianSet { guardian: new_guardian }],
                    },
                ),
            )
        },
    }
}

} // verus!
