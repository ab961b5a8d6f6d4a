//! What holds of the timelock whatever calls it receives.

use vstd::prelude::*;
use crate::bytes;
use crate::host::Address;
use super::model;
use super::model::{
    OperationState, OperationStatus, TimelockState, TimelockStep, GRACE_PERIOD_LEDGERS,
};

verus! {

/// A call that may change the timelock.
pub enum TimelockCall {
    Initialize { admin: Address, guardian: Address, delay_ledgers: u32 },
    QueueOperation {
        caller: Address,
        proposal_id: u64,
        param_key: Seq<u8>,
        new_value: Seq<u8>,
    },
    ExecuteOperation { executor: Address, id: Seq<u8> },
    CancelOperation { canceller: Address, id: Seq<u8> },
    SetDelay { admin: Address, new_delay_ledgers: u32 },
    SetGuardian { admin: Address, new_guardian: Address },
}

/// The state after a step: the next one if the call was accepted, else the one before.
pub open spec fn settled<T>(s: TimelockState, step: TimelockStep<T>) -> TimelockState {
    match step {
        Ok((next, _)) => next,
        Err(_) => s,
    }
}

/// The state after a call at `ledger`.
pub open spec fn after_call(s: TimelockState, ledger: u32, call: TimelockCall) -> TimelockState {
    match call {
        TimelockCall::Initialize { admin, guardian, delay_ledgers } => settled(
            s,
            model::initialize_step(s, admin, guardian, delay_ledgers),
        ),
        TimelockCall::QueueOperation { caller, proposal_id, param_key, new_value } => settled(
            s,
            model::queue_operation_step(s, ledger, caller, proposal_id, param_key, new_value),
        ),
        TimelockCall::ExecuteOperation { executor, id } => settled(
            s,
            model::execute_operation_step(s, ledger, executor, id),
        ),
        TimelockCall::CancelOperation { canceller, id } => settled(
            s,
            model::cancel_operation_step(s, canceller, id),
        ),
        TimelockCall::SetDelay { admin, new_delay_ledgers } => settled(
            s,
            model::set_delay_step(s, admin, new_delay_ledgers),
        ),
        TimelockCall::SetGuardian { admin, new_guardian } => settled(
            s,
            model::set_guardian_step(s, admin, new_guardian),
        ),
    }
}

/// The state after calls at the given ledgers, one after the other.
pub open spec fn after_calls(s: TimelockState, calls: Seq<(u32, TimelockCall)>) -> TimelockState
    decreases calls.len(),
{
    if calls.len() == 0 {
        s
    } else {
        after_call(after_calls(s, calls.drop_last()), calls.last().0, calls.last().1)
    }
}

/// Whether an operation is kept under its own identifier, waits for its eta, and expires
/// one grace period later.
pub open spec fn operation_sound(id: Seq<u8>, op: OperationState) -> bool {
    &&& op.id == id
    &&& id == model::op_id(op.proposal_id, op.eta_ledger)
    &&& op.queued_at_ledger < op.eta_ledger
    &&& op.expiry_ledger == op.eta_ledger + GRACE_PERIOD_LEDGERS
}

/// What every call keeps: there is a delay, and every operation is sound.
pub open spec fn sound(s: TimelockState) -> bool {
    &&& s.delay > 0
    &&& forall|id: Seq<u8>| #[trigger]
        s.operations.contains_key(id) ==> operation_sound(id, s.operations[id])
}

/// Every call keeps the timelock sound.
pub proof fn law_sound_kept(s: TimelockState, ledger: u32, call: TimelockCall)
    requires
        sound(s),
    ensures
        sound(after_call(s, ledger, call)),
{
}

/// A timelock is sound after any calls.
pub proof fn law_always_sound(calls: Seq<(u32, TimelockCall)>)
    ensures
        sound(after_calls(TimelockState::blank(), calls)),
    decreases calls.len(),
{
    if calls.len() > 0 {
        law_always_sound(calls.drop_last());
        law_sound_kept(
            after_calls(TimelockState::blank(), calls.drop_last()),
            calls.last().0,
            calls.last().1,
        );
    }
}

/// An operation can be executed exactly when it is reported as ready.
pub proof fn law_ready_means_executable(
    s: TimelockState,
    ledger: u32,
    executor: Address,
    id: Seq<u8>,
)
    ensures
        model::execute_operation_step(s, ledger, executor, id) is Ok <==> s.ready(id, ledger),
{
}

/// No call forgets an operation or changes what it is about; one that is no longer queued
/// does not change at all.
pub proof fn law_operations_stay(s: TimelockState, ledger: u32, call: TimelockCall, id: Seq<u8>)
    requires
        s.operations.contains_key(id),
    ensures
        ({
            let before = s.operations[id];
            let next = after_call(s, ledger, call);
            &&& next.operations.contains_key(id)
            &&& next.operations[id] == (OperationState {
                status: next.operations[id].status,
                ..before
            })
            &&& before.status != OperationStatus::Queued ==> next.operations[id] == before
        }),
{
}

/// An operation becomes executed only by a call at a ledger from its eta to its expiry, which
/// is later than the ledger at which it was queued.
pub proof fn law_executed_in_window(s: TimelockState, ledger: u32, call: TimelockCall, id: Seq<u8>)
    requires
        sound(s),
        !s.stands_at(id, OperationStatus::Executed),
        after_call(s, ledger, call).stands_at(id, OperationStatus::Executed),
    ensures
        call is ExecuteOperation,
        s.ready(id, ledger),
        s.operations[id].queued_at_ledger < s.operations[id].eta_ledger <= ledger
            <= s.operations[id].expiry_ledger,
{
}

/// Whether call `i` of `calls` executed the operation `id` when it was ready.
pub open spec fn executes_at(calls: Seq<(u32, TimelockCall)>, i: int, id: Seq<u8>) -> bool {
    &&& 0 <= i < calls.len()
    &&& calls[i].1 is ExecuteOperation
    &&& after_calls(TimelockState::blank(), calls.take(i)).ready(id, calls[i].0)
}

/// Whether call `i` of `calls` queued the operation `op`: the admin of that moment queued it,
/// and its eta is the delay of that moment later.
pub open spec fn queues_at(calls: Seq<(u32, TimelockCall)>, i: int, op: OperationState) -> bool {
    let s = after_calls(TimelockState::blank(), calls.take(i));
    &&& 0 <= i < calls.len()
    &&& calls[i].1 matches TimelockCall::QueueOperation { caller, proposal_id, param_key, new_value }
        && s.config matches Some(c) && caller == c.admin && op.proposal_id == proposal_id
        && op.param_key == param_key && op.new_value == new_value
    &&& op.queued_at_ledger == calls[i].0
    &&& op.eta_ledger == calls[i].0 + s.delay
}

/// Every operation was queued by the admin, and waits for the delay of that moment.
pub proof fn law_operations_were_queued(calls: Seq<(u32, TimelockCall)>, id: Seq<u8>)
    requires
        after_calls(TimelockState::blank(), calls).operations.contains_key(id),
    ensures
        exists|i: int|
            queues_at(
                calls,
                i,
                after_calls(TimelockState::blank(), calls).operations[id],
            ),
    decreases calls.len(),
{
    let blank = TimelockState::blank();
    if calls.len() > 0 {
        let n = calls.len() - 1;
        let rest = calls.drop_last();
        let s = after_calls(blank, rest);
        let t = after_calls(blank, calls);
        assert(calls.take(n) =~= rest);
        if s.operations.contains_key(id) {
            law_operations_were_queued(rest, id);
            law_operations_stay(s, calls.last().0, calls.last().1, id);
            let i = choose|i: int| queues_at(rest, i, s.operations[id]);
            assert(calls.take(i) =~= rest.take(i));
            assert(queues_at(calls, i, t.operations[id]));
        } else {
            assert(queues_at(calls, n, t.operations[id]));
        }
    }
}

/// An operation that stands as executed was executed by some call, at a ledger at which its
/// delay had elapsed and its grace period had not.
pub proof fn law_executed_was_ready(calls: Seq<(u32, TimelockCall)>, id: Seq<u8>)
    requires
        after_calls(TimelockState::blank(), calls).stands_at(id, OperationStatus::Executed),
    ensures
        exists|i: int| executes_at(calls, i, id),
    decreases calls.len(),
{
    let blank = TimelockState::blank();
    if calls.len() > 0 {
        let n = calls.len() - 1;
        let rest = calls.drop_last();
        let s = after_calls(blank, rest);
        assert(calls.take(n) =~= rest);
        if s.stands_at(id, OperationStatus::Executed) {
            law_executed_was_ready(rest, id);
            let i = choose|i: int| executes_at(rest, i, id);
            assert(calls.take(i) =~= rest.take(i));
            assert(executes_at(calls, i, id));
        } else {
            law_always_sound(rest);
            law_executed_in_window(s, calls.last().0, calls.last().1, id);
            assert(executes_at(calls, n, id));
        }
    }
}

/// A cancelled operation stays cancelled whatever calls follow: it never executes.
pub proof fn law_cancelled_stays_cancelled(
    s: TimelockState,
    calls: Seq<(u32, TimelockCall)>,
    id: Seq<u8>,
)
    requires
        s.stands_at(id, OperationStatus::Cancelled),
    ensures
        after_calls(s, calls).stands_at(id, OperationStatus::Cancelled),
    decreases calls.len(),
{
    if calls.len() > 0 {
        law_cancelled_stays_cancelled(s, calls.drop_last(), id);
        law_operations_stay(
            after_calls(s, calls.drop_last()),
            calls.last().0,
            calls.last().1,
            id,
        );
    }
}

/// A new delay or guardian leaves the operations as they are, with the eta they were given.
pub proof fn law_configuration_spares_operations(
    s: TimelockState,
    admin: Address,
    new_delay_ledgers: u32,
    new_guardian: Address,
)
    ensures
        settled(s, model::set_delay_step(s, admin, new_delay_ledgers)).operations == s.operations,
        settled(s, model::set_guardian_step(s, admin, new_guardian)).operations == s.operations,
{
}

/// An executed operation can be neither executed nor cancelled again.
pub proof fn law_executed_once(
    s: TimelockState,
    ledger: u32,
    executor: Address,
    id: Seq<u8>,
    later: u32,
    other: Address,
)
    requires
        model::execute_operation_step(s, ledger, executor, id) is Ok,
    ensures
        ({
            let t = settled(s, model::execute_operation_step(s, ledger, executor, id));
            &&& t.stands_at(id, OperationStatus::Executed)
            &&& model::execute_operation_step(t, later, other, id) is Err
            &&& model::cancel_operation_step(t, other, id) is Err
        }),
{
}

/// Operations of different proposals or etas are digested from different bytes.
pub proof fn law_preimages_differ(p1: u64, e1: u32, p2: u64, e2: u32)
    requires
        model::op_preimage(p1, e1) == model::op_preimage(p2, e2),
    ensures
        p1 == p2,
        e1 == e2,
{
    let a = model::op_preimage(p1, e1);
    let b = model::op_preimage(p2, e2);
    bytes::lemma_be_bytes_len(p1 as nat, 8);
    bytes::lemma_be_bytes_len(p2 as nat, 8);
    bytes::lemma_be_bytes_len(e1 as nat, 4);
    bytes::lemma_be_bytes_len(e2 as nat, 4);
    assert(a.take(8) =~= bytes::be_bytes(p1 as nat, 8));
    assert(b.take(8) =~= bytes::be_bytes(p2 as nat, 8));
    assert(a.skip(8) =~= bytes::be_bytes(e1 as nat, 4));
    assert(b.skip(8) =~= bytes::be_bytes(e2 as nat, 4));
    reveal_with_fuel(bytes::byte_range, 9);
    bytes::lemma_be_bytes_injective(p1 as nat, p2 as nat, 8);
    bytes::lemma_be_bytes_injective(e1 as nat, e2 as nat, 4);
}

/// Queueing the same proposal twice in one ledger is refused the second time.
pub proof fn law_no_duplicate_queue(
    s: TimelockState,
    ledger: u32,
    caller: Address,
    proposal_id: u64,
    param_key: Seq<u8>,
    new_value: Seq<u8>,
    other_key: Seq<u8>,
    other_value: Seq<u8>,
)
    requires
        model::queue_operation_step(s, ledger, caller, proposal_id, param_key, new_value) is Ok,
    ensures
        model::queue_operation_step(
            settled(
                s,
                model::queue_operation_step(s, ledger, caller, proposal_id, param_key, new_value),
            ),
            ledger,
            caller,
            proposal_id,
            other_key,
            other_value,
        ) == TimelockStep::<Seq<u8>>::Err(model::TimelockError::OperationAlreadyQueued),
{
}

/// No call changes the admin of an initialized timelock.
pub proof fn law_admin_is_fixed(s: TimelockState, ledger: u32, call: TimelockCall)
    requires
        s.config is Some,
    ensures
        after_call(s, ledger, call).config matches Some(c) && c.admin == s.config->Some_0.admin,
{
}

} // verus!
