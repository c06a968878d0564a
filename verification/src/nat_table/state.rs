//! What a table of sessions is, as a mathematical value, and what each
//! operation makes of it.

use vstd::prelude::*;

use crate::ipv4::{Ipv4Addr, SocketAddrV4};
use crate::nat_table::bijection::bind;

verus! {

/// Lowest port that is handed out.
pub const MINIMUM_NAT_PORT: u16 = 50_000;

/// Highest port that is handed out.
pub const MAXIMUM_NAT_PORT: u16 = 65_535;

/// Number of ports that each external address offers.
pub const PORTS_PER_ADDRESS: usize = 15_536;

/// The table as a value: the sessions, the external addresses in the order
/// in which they are used up, and how far the allocator has advanced.
pub struct NatState {
    /// Internal endpoint to external endpoint, one entry per session.
    pub pairs: Map<SocketAddrV4, SocketAddrV4>,
    /// The external addresses.
    pub ips: Seq<Ipv4Addr>,
    /// Position of the allocator: the number of endpoints handed out and
    /// not taken back.
    pub used: nat,
}

/// The `i`-th endpoint in allocation order: all ports of the first
/// address from the lowest upwards, then those of the second, and so on.
pub open spec fn nth_socket(ips: Seq<Ipv4Addr>, i: nat) -> SocketAddrV4 {
    SocketAddrV4 {
        ip: ips[(i / PORTS_PER_ADDRESS as nat) as int],
        port: (MINIMUM_NAT_PORT + i % PORTS_PER_ADDRESS as nat) as u16,
    }
}

impl NatState {
    /// The table over `ips` before anything was added.
    pub open spec fn init(ips: Seq<Ipv4Addr>) -> NatState {
        NatState { pairs: Map::empty(), ips, used: 0 }
    }

    /// Number of endpoints that the external addresses offer in all.
    pub open spec fn capacity(self) -> nat {
        self.ips.len() * PORTS_PER_ADDRESS as nat
    }

    /// Number of endpoints that can still be handed out.
    pub open spec fn available(self) -> nat {
        (self.capacity() - self.used) as nat
    }

    /// The endpoint that the next successful `add` hands out.
    pub open spec fn next_socket(self) -> Option<SocketAddrV4> {
        if self.used < self.capacity() {
            Some(nth_socket(self.ips, self.used))
        } else {
            None
        }
    }

    /// The endpoint that was handed out last and not taken back.
    pub open spec fn last_socket(self) -> Option<SocketAddrV4> {
        if self.used > 0 {
            Some(nth_socket(self.ips, (self.used - 1) as nat))
        } else {
            None
        }
    }

    /// No two internal endpoints share an external endpoint.
    pub open spec fn one_to_one(self) -> bool {
        forall|a: SocketAddrV4, b: SocketAddrV4|
            self.pairs.contains_key(a) && self.pairs.contains_key(b) && #[trigger] self.pairs[a]
                == #[trigger] self.pairs[b] ==> a == b
    }

    /// Every external endpoint in the table lies in the port range, at one
    /// of the external addresses.
    pub open spec fn externals_in_range(self) -> bool {
        forall|a: SocketAddrV4| #[trigger]
            self.pairs.contains_key(a) ==> {
                &&& MINIMUM_NAT_PORT <= self.pairs[a].port <= MAXIMUM_NAT_PORT
                &&& self.ips.contains(self.pairs[a].ip)
            }
    }

    /// The invariant of the table.
    pub open spec fn wf(self) -> bool {
        &&& self.pairs.dom().finite()
        &&& self.one_to_one()
        &&& self.externals_in_range()
        &&& self.pairs.len() <= self.used <= self.capacity()
    }

    /// The external endpoint of the session of `internal`.
    pub open spec fn translate_source(self, internal: SocketAddrV4) -> Option<SocketAddrV4> {
        if self.pairs.contains_key(internal) {
            Some(self.pairs[internal])
        } else {
            None
        }
    }

    /// Whether some session has `external` as its external endpoint.
    pub open spec fn has_external(self, external: SocketAddrV4) -> bool {
        exists|a: SocketAddrV4| #[trigger] self.pairs.contains_key(a) && self.pairs[a] == external
    }

    /// The internal endpoint of the session whose external endpoint is
    /// `external`.
    pub open spec fn translate_destination(self, external: SocketAddrV4) -> Option<SocketAddrV4> {
        if self.has_external(external) {
            Some(
                choose|a: SocketAddrV4| #[trigger]
                    self.pairs.contains_key(a) && self.pairs[a] == external,
            )
        } else {
            None
        }
    }

    /// What `add` returns: the next endpoint, or nothing when all are
    /// handed out.
    pub open spec fn add_result(self, internal: SocketAddrV4) -> Option<SocketAddrV4> {
        self.next_socket()
    }

    /// The table after `add`: the next endpoint is bound to `internal`,
    /// in place of whatever either of the two was bound to, and the
    /// allocator has advanced by one. A full table stays as it is.
    pub open spec fn add(self, internal: SocketAddrV4) -> NatState {
        match self.next_socket() {
            Some(external) => NatState {
                pairs: bind(self.pairs, internal, external),
                ips: self.ips,
                used: self.used + 1,
            },
            None => self,
        }
    }

    /// Whether `delete` finds a session of `internal` to remove.
    pub open spec fn can_delete(self, internal: SocketAddrV4) -> bool {
        self.pairs.contains_key(internal)
    }

    /// What `delete` returns: the endpoint that the allocator takes back,
    /// which is the one handed out last, or nothing when `internal` has no
    /// session.
    pub open spec fn delete_result(self, internal: SocketAddrV4) -> Option<SocketAddrV4> {
        if self.can_delete(internal) {
            self.last_socket()
        } else {
            None
        }
    }

    /// The table after `delete`: the session of `internal` is gone and the
    /// allocator has stepped back by one. Without such a session the table
    /// stays as it is.
    pub open spec fn delete(self, internal: SocketAddrV4) -> NatState {
        if self.can_delete(internal) {
            NatState {
                pairs: self.pairs.remove(internal),
                ips: self.ips,
                used: (self.used - 1) as nat,
            }
        } else {
            self
        }
    }
}

} // verus!
