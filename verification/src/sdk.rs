//! The parts of the Soroban SDK that the contracts compute with: host vectors and the
//! SHA-256 digest. Nothing here is proved; each item says what it takes from the SDK.

use vstd::prelude::*;

verus! {

/// The host environment handle, `soroban_sdk::Env`.
#[verifier::external_type_specification]
#[verifier::external_body]
pub struct ExEnv(soroban_sdk::Env);

/// The host vector, `soroban_sdk::Vec`.
#[verifier::external_type_specification]
#[verifier::external_body]
#[verifier::reject_recursive_types(T)]
pub struct ExHostVec<T>(soroban_sdk::Vec<T>);

/// The items of a host vector of pairs, front to back.
pub uninterp spec fn pair_items(v: soroban_sdk::Vec<(u32, i128)>) -> Seq<(u32, i128)>;

/// Whether every slot of a host vector of pairs holds a value that converts to a pair.
/// The SDK does not check this when it takes a vector from the host.
pub uninterp spec fn pairs_typed(v: soroban_sdk::Vec<(u32, i128)>) -> bool;

/// `soroban_sdk::Vec::new` makes a vector without items.
#[verifier::external_body]
pub(crate) fn pairs_new(env: &soroban_sdk::Env) -> (v: soroban_sdk::Vec<(u32, i128)>)
    ensures
        pair_items(v) == Seq::<(u32, i128)>::empty(),
        pairs_typed(v),
{
    soroban_sdk::Vec::new(env)
}

/// `soroban_sdk::Vec::len` counts the items.
#[verifier::external_body]
pub(crate) fn pairs_len(v: &soroban_sdk::Vec<(u32, i128)>) -> (n: u32)
    ensures
        n == pair_items(*v).len(),
{
    v.len()
}

/// `soroban_sdk::Vec::get` returns the item at a position, or nothing beyond the end. It
/// panics on a slot that does not convert to the item type.
#[verifier::external_body]
pub(crate) fn pairs_get(v: &soroban_sdk::Vec<(u32, i128)>, i: u32) -> (item: Option<(u32, i128)>)
    requires
        pairs_typed(*v),
    ensures
        i < pair_items(*v).len() ==> item == Some(pair_items(*v)[i as int]),
        i >= pair_items(*v).len() ==> item is None,
{
    v.get(i)
}

/// `soroban_sdk::Vec::push_back` puts one item behind the last.
#[verifier::external_body]
pub(crate) fn pairs_push_back(v: &mut soroban_sdk::Vec<(u32, i128)>, item: (u32, i128))
    requires
        pair_items(*old(v)).len() < u32::MAX,
    ensures
        pair_items(*final(v)) == pair_items(*old(v)).push(item),
        pairs_typed(*final(v)) == pairs_typed(*old(v)),
{
    v.push_back(item)
}

/// The items of a host vector of address indices, front to back.
pub uninterp spec fn id_items(v: soroban_sdk::Vec<u32>) -> Seq<u32>;

/// Whether every slot of a host vector of address indices holds a value that converts to
/// an index. The SDK does not check this when it takes a vector from the host.
pub uninterp spec fn ids_typed(v: soroban_sdk::Vec<u32>) -> bool;

/// `soroban_sdk::Vec::new` makes a vector without items.
#[verifier::external_body]
pub(crate) fn ids_new(env: &soroban_sdk::Env) -> (v: soroban_sdk::Vec<u32>)
    ensures
        id_items(v) == Seq::<u32>::empty(),
        ids_typed(v),
{
    soroban_sdk::Vec::new(env)
}

/// `soroban_sdk::Vec::len` counts the items.
#[verifier::external_body]
pub(crate) fn ids_len(v: &soroban_sdk::Vec<u32>) -> (n: u32)
    ensures
        n == id_items(*v).len(),
{
    v.len()
}

/// `soroban_sdk::Vec::get` returns the item at a position, or nothing beyond the end. It
/// panics on a slot that does not convert to the item type.
#[verifier::external_body]
pub(crate) fn ids_get(v: &soroban_sdk::Vec<u32>, i: u32) -> (item: Option<u32>)
    requires
        ids_typed(*v),
    ensures
        i < id_items(*v).len() ==> item == Some(id_items(*v)[i as int]),
        i >= id_items(*v).len() ==> item is None,
{
    v.get(i)
}

/// `soroban_sdk::Vec::push_back` puts one item behind the last.
#[verifier::external_body]
pub(crate) fn ids_push_back(v: &mut soroban_sdk::Vec<u32>, item: u32)
    requires
        id_items(*old(v)).len() < u32::MAX,
    ensures
        id_items(*final(v)) == id_items(*old(v)).push(item),
        ids_typed(*final(v)) == ids_typed(*old(v)),
{
    v.push_back(item)
}

/// The SHA-256 digest of `data`.
pub uninterp spec fn sha256_digest(data: Seq<u8>) -> Seq<u8>;

/// `soroban_sdk::crypto::Crypto::sha256` returns the SHA-256 digest of its argument. Host
/// bytes are at most as many as a `u32` counts.
#[verifier::external_body]
pub(crate) fn sha256(env: &soroban_sdk::Env, data: &[u8]) -> (digest: [u8; 32])
    requires
        data@.len() <= u32::MAX,
    ensures
        digest@ == sha256_digest(data@),
{
    env.crypto().sha256(&soroban_sdk::Bytes::from_slice(env, data)).to_array()
}

} // verus!
