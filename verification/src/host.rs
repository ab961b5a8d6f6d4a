//! What a contract exchanges with the host that runs it.

use vstd::prelude::*;

verus! {

/// Instance storage is extended once fewer ledgers than this are left (about 7 days).
pub const INSTANCE_LIFETIME_THRESHOLD: u32 = 100_800;

/// Instance storage is extended to this many ledgers (about 30 days).
pub const INSTANCE_BUMP_AMOUNT: u32 = 518_400;

/// A persistent entry is extended once fewer ledgers than this are left (about 30 days).
pub const ENTRY_LIFETIME_THRESHOLD: u32 = 518_400;

/// A persistent entry is extended to this many ledgers (about 180 days).
pub const ENTRY_BUMP_AMOUNT: u32 = 3_110_400;

/// An account or contract, known to the contracts by its index in the host's
/// address directory. Two addresses are the same exactly if their indices are.
#[derive(Clone, Copy, PartialEq, Eq, Structural, Debug)]
pub struct Address {
    pub id: u32,
}

/// The circumstances of one call.
pub struct Invocation {
    /// The host environment.
    pub env: soroban_sdk::Env,
    /// The address of the contract that is called.
    pub contract: Address,
    /// The sequence number of the current ledger.
    pub ledger: u32,
}

/// A token transfer that the host performs as part of a call.
#[derive(Clone, Copy, PartialEq, Eq, Structural, Debug)]
pub struct Transfer {
    pub token: Address,
    pub from: Address,
    pub to: Address,
    pub amount: i128,
}

/// A storage extension: the entry is extended to `extend_to` ledgers once fewer than
/// `threshold` are left.
#[derive(Clone, Copy, PartialEq, Eq, Structural, Debug)]
pub struct Extension {
    pub threshold: u32,
    pub extend_to: u32,
}

/// What an accepted call asks of the host, and what it returns to its caller.
#[derive(Debug)]
pub struct Receipt<T, E> {
    /// The value returned to the caller.
    pub value: T,
    /// The address whose authorization the call needs, if it needs any.
    pub auth: Option<Address>,
    /// The token transfers of the call, in order.
    pub transfers: Vec<Transfer>,
    /// The events of the call, in order.
    pub events: Vec<E>,
}

/// The mathematical view of a [`Receipt`].
#[verifier::ext_equal]
pub struct Outcome<T, E> {
    pub value: T,
    pub auth: Option<Address>,
    pub transfers: Seq<Transfer>,
    pub events: Seq<E>,
}

impl<T, E> View for Receipt<T, E> {
    type V = Outcome<T, E>;

    open spec fn view(&self) -> Outcome<T, E> {
        Outcome {
            value: self.value,
            auth: self.auth,
            transfers: self.transfers@,
            events: self.events@,
        }
    }
}

impl<T: View, E: View> Receipt<T, E> {
    /// The mathematical view of a receipt, with its value and its events taken by their
    /// views.
    pub open spec fn viewed(self) -> Outcome<T::V, E::V> {
        Outcome {
            value: self.value@,
            auth: self.auth,
            transfers: self.transfers@,
            events: self.events@.map_values(|e: E| e@),
        }
    }
}

/// The net amount of `token` that a transfer brings to `holder`.
pub open spec fn inflow(t: Transfer, token: Address, holder: Address) -> int {
    if t.token != token || t.to == t.from {
        0
    } else if t.to == holder {
        t.amount as int
    } else if t.from == holder {
        -t.amount
    } else {
        0
    }
}

/// The net amount of `token` that `transfers` bring to `holder`.
pub open spec fn net_inflow(transfers: Seq<Transfer>, token: Address, holder: Address) -> int
    decreases transfers.len(),
{
    if transfers.len() == 0 {
        0
    } else {
        net_inflow(transfers.drop_last(), token, holder) + inflow(
            transfers.last(),
            token,
            holder,
        )
    }
}

/// Whether no transfer is from a holder to itself.
pub open spec fn between_parties(transfers: Seq<Transfer>) -> bool {
    forall|i: int| 0 <= i < transfers.len() ==> (#[trigger] transfers[i]).from != transfers[i].to
}

/// The net amounts that up to two transfers bring.
pub proof fn lemma_net_inflow(a: Transfer, b: Transfer, token: Address, holder: Address)
    ensures
        net_inflow(Seq::empty(), token, holder) == 0,
        net_inflow(seq![a], token, holder) == inflow(a, token, holder),
        net_inflow(seq![a, b], token, holder) == inflow(a, token, holder) + inflow(
            b,
            token,
            holder,
        ),
{
    reveal_with_fuel(net_inflow, 3);
    assert(seq![a].drop_last() =~= Seq::empty());
    assert(seq![a, b].drop_last() =~= seq![a]);
}

/// The net amount that transfers bring is the net amount of a first and a second part.
pub proof fn lemma_net_inflow_append(
    a: Seq<Transfer>,
    b: Seq<Transfer>,
    token: Address,
    holder: Address,
)
    ensures
        net_inflow(a + b, token, holder) == net_inflow(a, token, holder) + net_inflow(
            b,
            token,
            holder,
        ),
    decreases b.len(),
{
    if b.len() == 0 {
        assert(a + b =~= a);
    } else {
        assert((a + b).drop_last() =~= a + b.drop_last());
        lemma_net_inflow_append(a, b.drop_last(), token, holder);
    }
}

/// A vector of no items.
pub(crate) fn none_of<T>() -> (v: Vec<T>)
    ensures
        v@ == Seq::<T>::empty(),
{
    Vec::new()
}

/// A vector of one item.
pub(crate) fn one_of<T>(a: T) -> (v: Vec<T>)
    ensures
        v@ == seq![a],
{
    let mut v: Vec<T> = Vec::new();
    v.push(a);
    v
}

/// A vector of two items.
pub(crate) fn two_of<T>(a: T, b: T) -> (v: Vec<T>)
    ensures
        v@ == seq![a, b],
{
    let mut v: Vec<T> = Vec::new();
    v.push(a);
    v.push(b);
    v
}

} // verus!
