//! What each call of the timelock accepts and records.

use vstd::prelude::*;
use crate::bytes;
use crate::host::Address;
use crate::sdk;
use super::model;
use super::model::{
    OperationState, OperationStatus, TimelockConfig, TimelockError, TimelockReport, TimelockState,
};

verus! {

/// The bytes of a proposal number and a ledger, eight and four of them, the most significant
/// first.
pub open spec fn number_and_ledger(proposal_id: u64, eta: u32) -> Seq<u8> {
    seq![
        (proposal_id / 0x100_0000_0000_0000) as u8,
        (proposal_id / 0x1_0000_0000_0000 % 256) as u8,
        (proposal_id / 0x100_0000_0000 % 256) as u8,
        (proposal_id / 0x1_0000_0000 % 256) as u8,
        (proposal_id / 0x100_0000 % 256) as u8,
        (proposal_id / 0x1_0000 % 256) as u8,
        (proposal_id / 0x100 % 256) as u8,
        (proposal_id % 256) as u8,
        (eta / 0x100_0000) as u8,
        (eta / 0x1_0000 % 256) as u8,
        (eta / 0x100 % 256) as u8,
        (eta % 256) as u8,
    ]
}

/// The four bytes of a number.
proof fn lemma_four_bytes(x: u32)
    ensures
        bytes::be_bytes(x as nat, 4) == seq![
            (x / 0x1000000) as u8,
            (x / 0x10000 % 256) as u8,
            (x / 0x100 % 256) as u8,
            (x % 256) as u8,
        ],
{
    let x1 = (x / 0x100) as nat;
    let x2 = (x / 0x10000) as nat;
    let x3 = (x / 0x1000000) as nat;
    assert((x as nat) / 256 == x1);
    assert(x1 / 256 == x2);
    assert(x2 / 256 == x3);
    assert(x3 < 256);
    assert(bytes::be_bytes(0, 0) =~= Seq::<u8>::empty());
    assert(x3 / 256 == 0);
    assert(bytes::be_bytes(x3, 1) =~= seq![(x3 % 256) as u8]);
    assert(bytes::be_bytes(x2, 2) =~= seq![(x3 % 256) as u8, (x2 % 256) as u8]);
    assert(bytes::be_bytes(x1, 3) =~= seq![(x3 % 256) as u8, (x2 % 256) as u8, (x1 % 256) as u8]);
    assert(bytes::be_bytes(x as nat, 4) =~= seq![(x3 % 256) as u8, (x2 % 256) as u8, (x1 % 256) as u8, (x % 256) as u8]);
}

/// The eight bytes of a number.
proof fn lemma_eight_bytes(x: u64)
    ensures
        bytes::be_bytes(x as nat, 8) == seq![
            (x / 0x100000000000000) as u8,
            (x / 0x1000000000000 % 256) as u8,
            (x / 0x10000000000 % 256) as u8,
            (x / 0x100000000 % 256) as u8,
            (x / 0x1000000 % 256) as u8,
            (x / 0x10000 % 256) as u8,
            (x / 0x100 % 256) as u8,
            (x % 256) as u8,
        ],
{
    let x1 = (x / 0x100) as nat;
    let x2 = (x / 0x10000) as nat;
    let x3 = (x / 0x1000000) as nat;
    let x4 = (x / 0x100000000) as nat;
    let x5 = (x / 0x10000000000) as nat;
    let x6 = (x / 0x1000000000000) as nat;
    let x7 = (x / 0x100000000000000) as nat;
    assert((x as nat) / 256 == x1);
    assert(x1 / 256 == x2);
    assert(x2 / 256 == x3);
    assert(x3 / 256 == x4);
    assert(x4 / 256 == x5);
    assert(x5 / 256 == x6);
    assert(x6 / 256 == x7);
    assert(x7 < 256);
    assert(bytes::be_bytes(0, 0) =~= Seq::<u8>::empty());
    assert(x7 / 256 == 0);
    assert(bytes::be_bytes(x7, 1) =~= seq![(x7 % 256) as u8]);
    assert(bytes::be_bytes(x6, 2) =~= seq![(x7 % 256) as u8, (x6 % 256) as u8]);
    assert(bytes::be_bytes(x5, 3) =~= seq![(x7 % 256) as u8, (x6 % 256) as u8, (x5 % 256) as u8]);
    assert(bytes::be_bytes(x4, 4) =~= seq![(x7 % 256) as u8, (x6 % 256) as u8, (x5 % 256) as u8, (x4 % 256) as u8]);
    assert(bytes::be_bytes(x3, 5) =~= seq![(x7 % 256) as u8, (x6 % 256) as u8, (x5 % 256) as u8, (x4 % 256) as u8, (x3 % 256) as u8]);
    assert(bytes::be_bytes(x2, 6) =~= seq![(x7 % 256) as u8, (x6 % 256) as u8, (x5 % 256) as u8, (x4 % 256) as u8, (x3 % 256) as u8, (x2 % 256) as u8]);
    assert(bytes::be_bytes(x1, 7) =~= seq![(x7 % 256) as u8, (x6 % 256) as u8, (x5 % 256) as u8, (x4 % 256) as u8, (x3 % 256) as u8, (x2 % 256) as u8, (x1 % 256) as u8]);
    assert(bytes::be_bytes(x as nat, 8) =~= seq![(x7 % 256) as u8, (x6 % 256) as u8, (x5 % 256) as u8, (x4 % 256) as u8, (x3 % 256) as u8, (x2 % 256) as u8, (x1 % 256) as u8, (x % 256) as u8]);
}

/// The identifier of an operation is the SHA-256 digest of its proposal number and its eta.
pub proof fn law_identifiers_are_digests(proposal_id: u64, eta: u32)
    ensures
        model::op_id(proposal_id, eta) == sdk::sha256_digest(number_and_ledger(proposal_id, eta)),
{
    lemma_eight_bytes(proposal_id);
    lemma_four_bytes(eta);
    assert(model::op_preimage(proposal_id, eta) =~= number_and_ledger(proposal_id, eta));
}

/// Initialization happens once. It fixes the admin and the guardian, and the delay as asked, or
/// 34560 ledgers where none is asked for.
pub proof fn law_initialization(s: TimelockState, admin: Address, guardian: Address, delay: u32)
    ensures
        match model::initialize_step(s, admin, guardian, delay) {
            Ok((t, out)) => {
                &&& s.config is None
                &&& t.config == Some(TimelockConfig { admin, guardian })
                &&& t.delay == (if delay > 0 {
                    delay
                } else {
                    34_560
                })
                &&& t.operations == s.operations
                &&& out.auth is None && out.transfers.len() == 0 && out.events.len() == 0
            },
            Err(e) => s.config is Some && e == TimelockError::AlreadyInitialized,
        },
{
}

/// The admin may queue any change at any ledger, unless there is an operation of that identifier.
/// It may run from the end of the delay on, and expires 120960 ledgers after that. Nothing else
/// changes.
pub proof fn law_operations_are_queued(
    s: TimelockState,
    ledger: u32,
    caller: Address,
    proposal_id: u64,
    param_key: Seq<u8>,
    new_value: Seq<u8>,
)
    ensures
        ({
            let eta = (ledger + s.delay) as u32;
            let id = sdk::sha256_digest(number_and_ledger(proposal_id, eta));
            match model::queue_operation_step(
                s,
                ledger,
                caller,
                proposal_id,
                param_key,
                new_value,
            ) {
                Ok((t, out)) => {
                    &&& s.config is Some && s.config->Some_0.admin == caller
                    &&& ledger + s.delay + 120_960 <= u32::MAX
                    &&& !s.operations.contains_key(id)
                    &&& out.value == id
                    &&& t == (TimelockState {
                        operations: s.operations.insert(
                            id,
                            OperationState {
                                id,
                                proposal_id,
                                param_key,
                                new_value,
                                queued_at_ledger: ledger,
                                eta_ledger: eta,
                                expiry_ledger: (eta + 120_960) as u32,
                                status: OperationStatus::Queued,
                            },
                        ),
                        ..s
                    })
                    &&& out.auth == Some(caller) && out.transfers.len() == 0
                    &&& out.events == seq![
                        TimelockReport::Queued { op_id: id, proposal_id, param_key, eta },
                    ]
                },
                Err(e) => match s.config {
                    None => e == TimelockError::NotInitialized,
                    Some(c) => if c.admin != caller {
                        e == TimelockError::OnlyGovernanceMayQueue
                    } else if ledger + s.delay + 120_960 > u32::MAX {
                        e == TimelockError::Arithmetic
                    } else {
                        e == TimelockError::OperationAlreadyQueued && s.operations.contains_key(id)
                    },
                },
            }
        }),
{
    law_identifiers_are_digests(proposal_id, (ledger + s.delay) as u32);
}

/// Anybody may execute a queued operation from its eta up to and at its expiry, and nobody before
/// or after. It is marked as executed; nothing else changes. It is reported ready exactly then.
pub proof fn law_operations_are_executed(
    s: TimelockState,
    ledger: u32,
    executor: Address,
    id: Seq<u8>,
)
    ensures
        ({
            let op = s.operations[id];
            match model::execute_operation_step(s, ledger, executor, id) {
                Ok((t, out)) => {
                    &&& s.operations.contains_key(id) && op.status == OperationStatus::Queued
                    &&& op.eta_ledger <= ledger <= op.expiry_ledger
                    &&& s.ready(id, ledger)
                    &&& out.value == (OperationState { status: OperationStatus::Executed, ..op })
                    &&& t == (TimelockState {
                        operations: s.operations.insert(id, out.value),
                        ..s
                    })
                    &&& out.auth == Some(executor) && out.transfers.len() == 0
                    &&& out.events == seq![
                        TimelockReport::Executed { op_id: id, proposal_id: op.proposal_id },
                    ]
                },
                Err(e) => !s.ready(id, ledger) && if !s.operations.contains_key(id) {
                    e == TimelockError::OperationNotFound
                } else if op.status != OperationStatus::Queued {
                    e == TimelockError::OperationNotQueued
                } else if ledger < op.eta_ledger {
                    e == TimelockError::DelayNotElapsed
                } else {
                    e == TimelockError::OperationExpired && ledger > op.expiry_ledger
                },
            }
        }),
{
}

/// The admin and the guardian, and nobody else, may cancel an operation as long as it is queued,
/// at any ledger. It is marked as cancelled; nothing else changes.
pub proof fn law_operations_are_cancelled(s: TimelockState, canceller: Address, id: Seq<u8>)
    ensures
        ({
            let op = s.operations[id];
            match model::cancel_operation_step(s, canceller, id) {
                Ok((t, out)) => {
                    &&& s.config is Some
                    &&& canceller == s.config->Some_0.admin || canceller == s.config->Some_0.guardian
                    &&& s.operations.contains_key(id) && op.status == OperationStatus::Queued
                    &&& t == (TimelockState {
                        operations: s.operations.insert(
                            id,
                            OperationState { status: OperationStatus::Cancelled, ..op },
                        ),
                        ..s
                    })
                    &&& out.auth == Some(canceller) && out.transfers.len() == 0
                    &&& out.events == seq![
                        TimelockReport::Cancelled { op_id: id, proposal_id: op.proposal_id },
                    ]
                },
                Err(e) => match s.config {
                    None => e == TimelockError::NotInitialized,
                    Some(c) => if canceller != c.admin && canceller != c.guardian {
                        e == TimelockError::OnlyGuardianOrAdminMayCancel
                    } else if !s.operations.contains_key(id) {
                        e == TimelockError::OperationNotFound
                    } else {
                        e == TimelockError::OperationNotQueued && op.status
                            != OperationStatus::Queued
                    },
                },
            }
        }),
{
}

/// The admin may set any positive delay. Operations that are queued already keep their ledgers.
pub proof fn law_delay_is_set(s: TimelockState, admin: Address, delay: u32)
    ensures
        match model::set_delay_step(s, admin, delay) {
            Ok((t, out)) => {
                &&& s.config is Some && s.config->Some_0.admin == admin && delay > 0
                &&& t == (TimelockState { delay, ..s })
                &&& out.auth == Some(admin) && out.transfers.len() == 0
                &&& out.events == seq![TimelockReport::DelaySet { delay }]
            },
            Err(e) => match s.config {
                None => e == TimelockError::NotInitialized,
                Some(c) => if c.admin != admin {
                    e == TimelockError::OnlyAdminMaySetDelay
                } else {
                    e == TimelockError::DelayNotPositive && delay == 0
                },
            },
        },
{
}

/// The admin may name any guardian and stays the admin.
pub proof fn law_guardian_is_set(s: TimelockState, admin: Address, guardian: Address)
    ensures
        match model::set_guardian_step(s, admin, guardian) {
            Ok((t, out)) => {
                &&& s.config is Some && s.config->Some_0.admin == admin
                &&& t == (TimelockState {
                    config: Some(TimelockConfig { admin, guardian }),
                    ..s
                })
                &&& out.auth == Some(admin) && out.transfers.len() == 0
                &&& out.events == seq![TimelockReport::GuardianSet { guardian }]
            },
            Err(e) => match s.config {
                None => e == TimelockError::NotInitialized,
                Some(c) => e == TimelockError::OnlyAdminMaySetGuardian && c.admin != admin,
            },
        },
{
}

/// What is read of an operation is what is kept.
pub proof fn law_operations_are_read_as_kept(
    s: TimelockState,
    id: Seq<u8>,
    status: OperationStatus,
    ledger: u32,
)
    ensures
        s.operation(id) == (if s.operations.contains_key(id) {
            Some(s.operations[id])
        } else {
            None
        }),
        s.stands_at(id, status) <==> s.operations.contains_key(id) && s.operations[id].status
            == status,
        s.ready(id, ledger) <==> s.operations.contains_key(id) && s.operations[id].status
            == OperationStatus::Queued && s.operations[id].eta_ledger <= ledger
            <= s.operations[id].expiry_ledger,
{
}

/// A new timelock has no operations and is not initialized. Its delay is 34560 ledgers.
pub proof fn law_new_timelock_is_empty(id: Seq<u8>)
    ensures
        ({
            let s = TimelockState::blank();
            s.config is None && s.delay == 34_560 && !s.operations.contains_key(id)
        }),
{
}

} // verus!
