//! The two-way hash map of the `bimap` crate, as the table of sessions
//! uses it.
//!
//! Every contract in this file is taken on trust from the crate's source;
//! the table's own invariant is proved from them. The map holds plain
//! (address, port) keys; the contracts speak of the endpoints that the
//! keys stand for.

use bimap::BiHashMap;
use std::collections::hash_map::RandomState;
use vstd::prelude::*;

use crate::ipv4::{Ipv4Addr, SocketAddrV4};

verus! {

/// `bimap::BiHashMap`, opaque to the verifier.
#[verifier::external_type_specification]
#[verifier::external_body]
#[verifier::reject_recursive_types(L)]
#[verifier::reject_recursive_types(R)]
#[verifier::reject_recursive_types(LS)]
#[verifier::reject_recursive_types(RS)]
pub struct ExBiHashMap<L, R, LS, RS>(BiHashMap<L, R, LS, RS>);

/// The map that holds the sessions: each endpoint is keyed by its address
/// value and port.
pub type SessionMap = BiHashMap<(u32, u16), (u32, u16), RandomState, RandomState>;

/// The left-right pairs that a map of sessions holds, each endpoint
/// standing for its (address, port) key, as a map from left to right.
pub uninterp spec fn pairs_of(m: SessionMap) -> Map<SocketAddrV4, SocketAddrV4>;

/// What `insert` leaves in a map that held `pairs`: the pair of `left` and
/// the pair of `right` are gone, and `left` is paired with `right`.
pub open spec fn bind(
    pairs: Map<SocketAddrV4, SocketAddrV4>,
    left: SocketAddrV4,
    right: SocketAddrV4,
) -> Map<SocketAddrV4, SocketAddrV4> {
    Map::new(
        |k: SocketAddrV4| k == left || (pairs.contains_key(k) && pairs[k] != right),
        |k: SocketAddrV4|
            if k == left {
                right
            } else {
                pairs[k]
            },
    )
}

/// `BiHashMap::new`: the new map holds no pair.
#[verifier::external_body]
pub(crate) fn empty_map() -> (map: SessionMap)
    ensures
        pairs_of(map) =~= Map::empty(),
{
    BiHashMap::new()
}

/// `Clone::clone` of `BiHashMap`: the copy holds the same pairs.
#[verifier::external_body]
pub(crate) fn copy_of(m: &SessionMap) -> (copy: SessionMap)
    ensures
        pairs_of(copy) == pairs_of(*m),
{
    m.clone()
}

/// `BiHashMap::len`: the number of pairs held.
#[verifier::external_body]
pub(crate) fn count(m: &SessionMap) -> (n: usize)
    ensures
        n == pairs_of(*m).len(),
{
    m.len()
}

/// `BiHashMap::insert`: removes the pair that holds `left` and the pair
/// that holds `right`, if any, then pairs `left` with `right`. What was
/// overwritten is not handed on. The call does not panic: where the
/// crate's source unwraps, it does so on its own invariant that each pair
/// is held from both sides.
#[verifier::external_body]
pub(crate) fn insert(
    m: &mut SessionMap,
    left: SocketAddrV4,
    right: SocketAddrV4,
)
    ensures
        pairs_of(*final(m)) == bind(pairs_of(*old(m)), left, right),
    no_unwind
{
    let _ = m.insert((left.ip.bits, left.port), (right.ip.bits, right.port));
}

/// `BiHashMap::remove_by_left`: removes the pair that holds `left` and
/// returns its right value; without such a pair the map is unchanged. The
/// call does not panic, for the same reason as `insert`.
#[verifier::external_body]
pub(crate) fn remove_by_left(
    m: &mut SessionMap,
    left: SocketAddrV4,
) -> (right: Option<SocketAddrV4>)
    ensures
        pairs_of(*final(m)) == pairs_of(*old(m)).remove(left),
        right == if pairs_of(*old(m)).contains_key(left) {
            Some(pairs_of(*old(m))[left])
        } else {
            None
        },
    no_unwind
{
    match m.remove_by_left(&(left.ip.bits, left.port)) {
        Some((_, (bits, port))) => Some(SocketAddrV4 { ip: Ipv4Addr { bits }, port }),
        None => None,
    }
}

/// `BiHashMap::get_by_left`: the right value paired with `left`, if any.
#[verifier::external_body]
pub(crate) fn get_by_left(
    m: &SessionMap,
    left: SocketAddrV4,
) -> (right: Option<SocketAddrV4>)
    ensures
        right == if pairs_of(*m).contains_key(left) {
            Some(pairs_of(*m)[left])
        } else {
            None
        },
{
    match m.get_by_left(&(left.ip.bits, left.port)) {
        Some(&(bits, port)) => Some(SocketAddrV4 { ip: Ipv4Addr { bits }, port }),
        None => None,
    }
}

/// `BiHashMap::get_by_right`: a left value paired with `right`, if there
/// is one.
#[verifier::external_body]
pub(crate) fn get_by_right(
    m: &SessionMap,
    right: SocketAddrV4,
) -> (left: Option<SocketAddrV4>)
    ensures
        match left {
            Some(l) => pairs_of(*m).contains_key(l) && pairs_of(*m)[l] == right,
            None => forall|k: SocketAddrV4| #[trigger]
                pairs_of(*m).contains_key(k) ==> pairs_of(*m)[k] != right,
        },
{
    match m.get_by_right(&(right.ip.bits, right.port)) {
        Some(&(bits, port)) => Some(SocketAddrV4 { ip: Ipv4Addr { bits }, port }),
        None => None,
    }
}

} // verus!
