//! Governance and its timelock together: what has to happen before a parameter changes.

use vstd::prelude::*;
use crate::governance;
use crate::governance::laws::GovernanceCall;
use crate::governance::model::GovernanceState;
use crate::host::Address;
use crate::timelock;
use crate::timelock::laws::TimelockCall;
use crate::timelock::model::{OperationStatus, TimelockState};

verus! {

/// Governance, and the timelock that it is configured with and is the admin of.
pub struct ProtocolState {
    pub governance: GovernanceState,
    pub timelock: TimelockState,
}

/// A call to one of the two contracts. A call to governance may call the timelock in turn.
pub enum ProtocolCall {
    SetReferenceSupply { supply: i128 },
    CreateProposal { proposer: Address, param_key: Seq<u8>, new_value: Seq<u8>, balance: i128 },
    Vote { voter: Address, proposal_id: u64, support: bool, weight: i128 },
    /// `queue_request`, the timelock's `queue_operation`, then `execute_proposal`.
    ExecuteProposal { proposal_id: u64 },
    /// `status_request`, the timelock's `is_executed`, then `finalize_proposal`.
    FinalizeProposal { proposal_id: u64 },
    /// `cancel_proposal`, then the timelock's `cancel_operation`.
    CancelProposal { admin: Address, proposal_id: u64 },
    /// `execute_operation` of the timelock.
    ExecuteOperation { executor: Address, id: Seq<u8> },
    /// `cancel_operation` of the timelock, by anyone.
    CancelOperation { canceller: Address, id: Seq<u8> },
    /// `set_delay` of the timelock, by anyone.
    SetDelay { admin: Address, new_delay_ledgers: u32 },
    /// `set_guardian` of the timelock, by anyone.
    SetGuardian { admin: Address, new_guardian: Address },
}

/// The two contracts after a call to governance that does not reach the timelock.
pub open spec fn governance_call(
    s: ProtocolState,
    contract: Address,
    ledger: u32,
    call: GovernanceCall,
) -> ProtocolState {
    ProtocolState {
        governance: governance::laws::after_call(s.governance, contract, ledger, call),
        timelock: s.timelock,
    }
}

/// The two contracts after a call to the timelock.
pub open spec fn timelock_call(s: ProtocolState, ledger: u32, call: TimelockCall) -> ProtocolState {
    ProtocolState {
        governance: s.governance,
        timelock: timelock::laws::after_call(s.timelock, ledger, call),
    }
}

/// The two contracts after `execute_proposal`: all of it happens, or nothing.
pub open spec fn execute_proposal(
    s: ProtocolState,
    contract: Address,
    ledger: u32,
    proposal_id: u64,
) -> ProtocolState {
    match governance::model::queue_call(s.governance, contract, ledger, proposal_id) {
        Err(_) => s,
        Ok(call) => match timelock::model::queue_operation_step(
            s.timelock,
            ledger,
            call.caller,
            call.proposal_id,
            call.param_key,
            call.new_value,
        ) {
            Err(_) => s,
            Ok((queued, out)) => match governance::model::execute_proposal_step(
                s.governance,
                contract,
                ledger,
                proposal_id,
                out.value,
            ) {
                Err(_) => s,
                Ok((next, _)) => ProtocolState { governance: next, timelock: queued },
            },
        },
    }
}

/// The two contracts after `finalize_proposal`.
pub open spec fn finalize_proposal(s: ProtocolState, proposal_id: u64) -> ProtocolState {
    match governance::model::status_call(s.governance, proposal_id) {
        Err(_) => s,
        Ok(call) => match governance::model::finalize_proposal_step(
            s.governance,
            proposal_id,
            s.timelock.stands_at(call.op_id, OperationStatus::Executed),
        ) {
            Err(_) => s,
            Ok((next, _)) => ProtocolState { governance: next, timelock: s.timelock },
        },
    }
}

/// The two contracts after `cancel_proposal`.
pub open spec fn cancel_proposal(
    s: ProtocolState,
    contract: Address,
    admin: Address,
    proposal_id: u64,
) -> ProtocolState {
    match governance::model::cancel_proposal_step(s.governance, contract, admin, proposal_id) {
        Err(_) => s,
        Ok(out) => match timelock::model::cancel_operation_step(
            s.timelock,
            out.value.canceller,
            out.value.op_id,
        ) {
            Err(_) => s,
            Ok((next, _)) => ProtocolState { governance: s.governance, timelock: next },
        },
    }
}

/// The two contracts after a call at `ledger`; `contract` is the address of governance.
pub open spec fn after_call(s: ProtocolState, contract: Address, ledger: u32, call: ProtocolCall) -> ProtocolState {
    match call {
        ProtocolCall::SetReferenceSupply { supply } => governance_call(
            s,
            contract,
            ledger,
            GovernanceCall::SetReferenceSupply { supply },
        ),
        ProtocolCall::CreateProposal { proposer, param_key, new_value, balance } => governance_call(
            s,
            contract,
            ledger,
            GovernanceCall::CreateProposal { proposer, param_key, new_value, balance },
        ),
        ProtocolCall::Vote { voter, proposal_id, support, weight } => governance_call(
            s,
            contract,
            ledger,
            GovernanceCall::Vote { voter, proposal_id, support, weight },
        ),
        ProtocolCall::ExecuteProposal { proposal_id } => execute_proposal(
            s,
            contract,
            ledger,
            proposal_id,
        ),
        ProtocolCall::FinalizeProposal { proposal_id } => finalize_proposal(s, proposal_id),
        ProtocolCall::CancelProposal { admin, proposal_id } => cancel_proposal(
            s,
            contract,
            admin,
            proposal_id,
        ),
        ProtocolCall::ExecuteOperation { executor, id } => timelock_call(
            s,
            ledger,
            TimelockCall::ExecuteOperation { executor, id },
        ),
        ProtocolCall::CancelOperation { canceller, id } => timelock_call(
            s,
            ledger,
            TimelockCall::CancelOperation { canceller, id },
        ),
        ProtocolCall::SetDelay { admin, new_delay_ledgers } => timelock_call(
            s,
            ledger,
            TimelockCall::SetDelay { admin, new_delay_ledgers },
        ),
        ProtocolCall::SetGuardian { admin, new_guardian } => timelock_call(
            s,
            ledger,
            TimelockCall::SetGuardian { admin, new_guardian },
        ),
    }
}

/// Whether a queued proposal has an operation that is about the same change and was queued
/// after the voting period, and which was executed if the proposal is finalized.
pub open spec fn proposal_linked(s: ProtocolState, id: u64) -> bool {
    let p = s.governance.proposals[id];
    let op_id = s.governance.op_ids[id];
    let op = s.timelock.operations[op_id];
    p.queued ==> {
        &&& s.timelock.operations.contains_key(op_id)
        &&& op.proposal_id == id
        &&& op.param_key == p.param_key
        &&& op.new_value == p.new_value
        &&& op.queued_at_ledger > p.end_ledger
        &&& p.executed ==> op.status == OperationStatus::Executed
    }
}

/// What every call keeps up to the ledger `now`: both contracts are sound, every queued
/// proposal is linked to its operation, and no operation was executed before its eta.
pub open spec fn linked(s: ProtocolState, now: u32) -> bool {
    &&& governance::laws::sound(s.governance)
    &&& timelock::laws::sound(s.timelock)
    &&& forall|id: u64| #[trigger]
        s.governance.proposals.contains_key(id) ==> proposal_linked(s, id)
    &&& forall|id: Seq<u8>| #[trigger]
        s.timelock.operations.contains_key(id) && s.timelock.operations[id].status
            == OperationStatus::Executed ==> s.timelock.operations[id].eta_ledger <= now
}

/// Two contracts without proposals and operations are linked.
pub proof fn law_start_linked(s: ProtocolState, now: u32)
    requires
        s.governance.proposals == GovernanceState::blank().proposals,
        s.governance.params == GovernanceState::blank().params,
        s.governance.proposal_count == 0,
        s.timelock.operations == TimelockState::blank().operations,
        s.timelock.delay > 0,
    ensures
        linked(s, now),
{
}

/// Every call keeps the contracts linked, as ledgers pass.
pub proof fn law_linked_kept(
    s: ProtocolState,
    contract: Address,
    before: u32,
    ledger: u32,
    call: ProtocolCall,
)
    requires
        linked(s, before),
        before <= ledger,
    ensures
        linked(after_call(s, contract, ledger, call), ledger),
{
    let t = after_call(s, contract, ledger, call);
    match call {
        ProtocolCall::SetReferenceSupply { supply } => {
            governance::laws::law_sound_kept(
                s.governance,
                contract,
                ledger,
                GovernanceCall::SetReferenceSupply { supply },
            );
        },
        ProtocolCall::CreateProposal { proposer, param_key, new_value, balance } => {
            governance::laws::law_sound_kept(
                s.governance,
                contract,
                ledger,
                GovernanceCall::CreateProposal { proposer, param_key, new_value, balance },
            );
        },
        ProtocolCall::Vote { voter, proposal_id, support, weight } => {
            governance::laws::law_sound_kept(
                s.governance,
                contract,
                ledger,
                GovernanceCall::Vote { voter, proposal_id, support, weight },
            );
        },
        ProtocolCall::ExecuteProposal { proposal_id } => {
            if t != s {
                let q = governance::model::queue_call(
                    s.governance,
                    contract,
                    ledger,
                    proposal_id,
                )->Ok_0;
                timelock::laws::law_sound_kept(
                    s.timelock,
                    ledger,
                    TimelockCall::QueueOperation {
                        caller: q.caller,
                        proposal_id: q.proposal_id,
                        param_key: q.param_key,
                        new_value: q.new_value,
                    },
                );
                governance::laws::law_sound_kept(
                    s.governance,
                    contract,
                    ledger,
                    GovernanceCall::ExecuteProposal {
                        proposal_id,
                        op_id: t.governance.op_ids[proposal_id],
                    },
                );
            }
        },
        ProtocolCall::FinalizeProposal { proposal_id } => {
            governance::laws::law_sound_kept(
                s.governance,
                contract,
                ledger,
                GovernanceCall::FinalizeProposal { proposal_id, is_executed: true },
            );
        },
        _ => {},
    }
    assert forall|id: u64| #[trigger] t.governance.proposals.contains_key(
        id,
    ) implies proposal_linked(t, id) by {
        if s.governance.proposals.contains_key(id) {
            assert(proposal_linked(s, id));
        }
    }
}

/// The two contracts after calls at the given ledgers, one after the other.
pub open spec fn after_calls(s: ProtocolState, contract: Address, calls: Seq<(u32, ProtocolCall)>) -> ProtocolState
    decreases calls.len(),
{
    if calls.len() == 0 {
        s
    } else {
        after_call(
            after_calls(s, contract, calls.drop_last()),
            contract,
            calls.last().0,
            calls.last().1,
        )
    }
}

/// The contracts stay linked whatever calls follow, as ledgers pass.
pub proof fn law_always_linked(
    s: ProtocolState,
    contract: Address,
    start: u32,
    calls: Seq<(u32, ProtocolCall)>,
    now: u32,
)
    requires
        linked(s, start),
        start <= now,
        forall|i: int| 0 <= i < calls.len() ==> start <= #[trigger] calls[i].0 <= now,
        forall|i: int, j: int| 0 <= i <= j < calls.len() ==> (#[trigger] calls[i]).0 <= (#[trigger] calls[j]).0,
    ensures
        linked(after_calls(s, contract, calls), now),
    decreases calls.len(),
{
    if calls.len() > 0 {
        let rest = calls.drop_last();
        let last = calls.last();
        assert(last == calls[calls.len() - 1]);
        law_always_linked(s, contract, start, rest, last.0);
        law_linked_kept(after_calls(s, contract, rest), contract, last.0, last.0, last.1);
        assert forall|id: Seq<u8>| #[trigger]
            after_calls(s, contract, calls).timelock.operations.contains_key(id) && after_calls(
                s,
                contract,
                calls,
            ).timelock.operations[id].status == OperationStatus::Executed implies after_calls(
            s,
            contract,
            calls,
        ).timelock.operations[id].eta_ledger <= now by {}
    }
}

/// A proposal that enters the queue may run only after the delay of the timelock.
pub proof fn law_queueing_starts_the_delay(
    s: ProtocolState,
    contract: Address,
    ledger: u32,
    proposal_id: u64,
)
    requires
        execute_proposal(s, contract, ledger, proposal_id) != s,
    ensures
        ({
            let t = execute_proposal(s, contract, ledger, proposal_id);
            let op = t.timelock.operations[t.governance.op_ids[proposal_id]];
            &&& t.governance.proposals[proposal_id].queued
            &&& op.status == OperationStatus::Queued
            &&& op.proposal_id == proposal_id
            &&& op.eta_ledger == ledger + s.timelock.delay
        }),
{
}

/// A parameter changes only by the finalization of a proposal whose operation, about the same
/// change, was queued after the voting period and executed after its delay; and it changes
/// to the value that was proposed.
pub proof fn law_parameters_wait(
    s: ProtocolState,
    contract: Address,
    now: u32,
    ledger: u32,
    call: ProtocolCall,
    key: Seq<u8>,
)
    requires
        linked(s, now),
        now <= ledger,
        after_call(s, contract, ledger, call).governance.param(key) != s.governance.param(key),
    ensures
        call is FinalizeProposal,
        ({
            let id = call->FinalizeProposal_proposal_id;
            let p = s.governance.proposals[id];
            let op = s.timelock.operations[s.governance.op_ids[id]];
            &&& op.status == OperationStatus::Executed
            &&& p.end_ledger < op.queued_at_ledger < op.eta_ledger <= ledger
            &&& p.param_key == key
            &&& op.param_key == key
            &&& op.new_value == p.new_value
            &&& after_call(s, contract, ledger, call).governance.param(key) == p.new_value
        }),
{
    match call {
        ProtocolCall::FinalizeProposal { proposal_id } => {
            assert(proposal_linked(s, proposal_id));
        },
        _ => {},
    }
}

/// Whether a proposal is queued with the operation `op_id`, which stands cancelled, and is not
/// finalized.
pub open spec fn cancelled_with(s: ProtocolState, proposal_id: u64, op_id: Seq<u8>) -> bool {
    &&& s.governance.proposals.contains_key(proposal_id)
    &&& s.governance.proposals[proposal_id].queued
    &&& !s.governance.proposals[proposal_id].executed
    &&& s.governance.op_ids.contains_key(proposal_id)
    &&& s.governance.op_ids[proposal_id] == op_id
    &&& s.timelock.stands_at(op_id, OperationStatus::Cancelled)
}

/// No call revives a proposal whose operation was cancelled.
proof fn lemma_cancelled_kept(
    s: ProtocolState,
    contract: Address,
    ledger: u32,
    call: ProtocolCall,
    proposal_id: u64,
    op_id: Seq<u8>,
)
    requires
        linked(s, ledger),
        cancelled_with(s, proposal_id, op_id),
    ensures
        cancelled_with(after_call(s, contract, ledger, call), proposal_id, op_id),
{
}

/// A proposal whose operation was cancelled is never finalized: it is not when the operation
/// stands cancelled, and whatever calls follow, as ledgers pass, the proposal keeps its
/// operation, the operation stays cancelled, and the proposal is not finalized.
pub proof fn law_cancelled_is_never_finalized(
    s: ProtocolState,
    contract: Address,
    start: u32,
    calls: Seq<(u32, ProtocolCall)>,
    now: u32,
    proposal_id: u64,
)
    requires
        linked(s, start),
        start <= now,
        forall|i: int| 0 <= i < calls.len() ==> start <= #[trigger] calls[i].0 <= now,
        forall|i: int, j: int| 0 <= i <= j < calls.len() ==> (#[trigger] calls[i]).0 <= (#[trigger] calls[j]).0,
        s.governance.proposals.contains_key(proposal_id),
        s.governance.proposals[proposal_id].queued,
        s.timelock.stands_at(s.governance.op_ids[proposal_id], OperationStatus::Cancelled),
    ensures
        !s.governance.proposals[proposal_id].executed,
        cancelled_with(
            after_calls(s, contract, calls),
            proposal_id,
            s.governance.op_ids[proposal_id],
        ),
    decreases calls.len(),
{
    assert(proposal_linked(s, proposal_id));
    if calls.len() > 0 {
        let rest = calls.drop_last();
        let last = calls.last();
        assert(last == calls[calls.len() - 1]);
        law_cancelled_is_never_finalized(s, contract, start, rest, last.0, proposal_id);
        law_always_linked(s, contract, start, rest, last.0);
        lemma_cancelled_kept(
            after_calls(s, contract, rest),
            contract,
            last.0,
            last.1,
            proposal_id,
            s.governance.op_ids[proposal_id],
        );
    }
}

} // verus!
