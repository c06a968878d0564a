//! The table of sessions.

use vstd::prelude::*;

use crate::ipv4::{Ipv4Addr, SocketAddrV4};
use crate::nat_table::bijection::{
    bind, copy_of, count, empty_map, get_by_left, get_by_right, insert, pairs_of, remove_by_left,
    SessionMap,
};
use crate::nat_table::laws::{lemma_add_keeps_wf, lemma_delete_keeps_wf, lemma_init_wf};
use crate::nat_table::state::{
    nth_socket, NatState, MAXIMUM_NAT_PORT, MINIMUM_NAT_PORT, PORTS_PER_ADDRESS,
};

verus! {

/// A network address translation table: a one-to-one mapping between
/// internal and external endpoints, with the allocator that hands the
/// external endpoints out in order.
pub struct NatTable {
    /// The sessions; the left value is the internal endpoint, the right
    /// value the external one.
    table: SessionMap,
    /// The external addresses.
    ips: Vec<Ipv4Addr>,
    /// Index of the external address that the next endpoint is taken
    /// from; the number of addresses when all are used up.
    ip_index: usize,
    /// Port of the next endpoint.
    next_port: u16,
    /// Number of endpoints that can still be handed out.
    available: usize,
}

/// The position of the allocator that stands at `next_port` of the
/// address with index `ip_index`.
spec fn position(ip_index: usize, next_port: u16) -> nat {
    (ip_index * PORTS_PER_ADDRESS + (next_port - MINIMUM_NAT_PORT)) as nat
}

impl View for NatTable {
    type V = NatState;

    closed spec fn view(&self) -> NatState {
        NatState {
            pairs: pairs_of(self.table),
            ips: self.ips@,
            used: position(self.ip_index, self.next_port),
        }
    }
}

impl NatTable {
    /// The invariant of the table: its value is well formed, and the
    /// allocator's fields agree with it.
    #[verifier::type_invariant]
    spec fn inv(self) -> bool {
        &&& self@.wf()
        &&& self.ip_index <= self.ips.len()
        &&& self.next_port >= MINIMUM_NAT_PORT
        &&& self.ip_index == self.ips.len() ==> self.next_port == MINIMUM_NAT_PORT
        &&& self.ips.len() * PORTS_PER_ADDRESS <= usize::MAX
        &&& self.available == self@.available()
    }

    /// Construct a table over the external addresses `ips`, with no
    /// session and every endpoint available.
    pub fn new(ips: Vec<Ipv4Addr>) -> (table: NatTable)
        requires
            ips.len() * PORTS_PER_ADDRESS <= usize::MAX,
        ensures
            table@ == NatState::init(ips@),
            table@.wf(),
    {
        proof {
            lemma_init_wf(ips@);
        }
        let available = ips.len() * PORTS_PER_ADDRESS;
        let table = empty_map();
        assert(pairs_of(table) =~= Map::empty());
        NatTable { table, ips, ip_index: 0, next_port: MINIMUM_NAT_PORT, available }
    }

    /// The number of sessions.
    pub fn len(&self) -> (n: usize)
        ensures
            n == self@.pairs.len(),
            self@.wf(),
    {
        proof {
            use_type_invariant(self);
        }
        count(&self.table)
    }

    /// The number of endpoints that can still be handed out.
    pub fn available(&self) -> (n: usize)
        ensures
            n == self@.available(),
            self@.wf(),
    {
        proof {
            use_type_invariant(self);
        }
        self.available
    }

    /// The endpoint that the allocator hands out next, if one is left,
    /// and the position at which the allocator stands once it is taken.
    fn get_next_socket(&self) -> (next: Option<(SocketAddrV4, usize, u16)>)
        ensures
            self@.wf(),
            match next {
                Some((socket, ip_index, next_port)) => {
                    &&& self@.next_socket() == Some(socket)
                    &&& position(ip_index, next_port) == self@.used + 1
                    &&& ip_index <= self.ips.len()
                    &&& next_port >= MINIMUM_NAT_PORT
                    &&& ip_index == self.ips.len() ==> next_port == MINIMUM_NAT_PORT
                },
                None => self@.next_socket() is None,
            },
    {
        proof {
            use_type_invariant(self);
        }
        if self.ip_index >= self.ips.len() {
            return None;
        }
        let ipv4 = self.ips[self.ip_index];
        let port = self.next_port;
        proof {
            lemma_position(self.ips@, self.ip_index as nat, port);
        }
        if self.next_port < MAXIMUM_NAT_PORT {
            Some((SocketAddrV4::new(ipv4, port), self.ip_index, self.next_port + 1))
        } else {
            Some((SocketAddrV4::new(ipv4, port), self.ip_index + 1, MINIMUM_NAT_PORT))
        }
    }

    /// The endpoint that was handed out last and not taken back, if any
    /// is out, and the position at which the allocator stands once it is
    /// taken back.
    fn free_last_socket(&self) -> (last: Option<(SocketAddrV4, usize, u16)>)
        ensures
            self@.wf(),
            match last {
                Some((socket, ip_index, next_port)) => {
                    &&& self@.last_socket() == Some(socket)
                    &&& position(ip_index, next_port) == self@.used - 1
                    &&& ip_index < self.ips.len()
                    &&& next_port >= MINIMUM_NAT_PORT
                },
                None => self@.last_socket() is None,
            },
    {
        proof {
            use_type_invariant(self);
        }
        if self.ip_index == 0 && self.next_port == MINIMUM_NAT_PORT {
            return None;
        }
        let (ip_index, next_port) = if self.next_port == MINIMUM_NAT_PORT {
            (self.ip_index - 1, MAXIMUM_NAT_PORT)
        } else {
            (self.ip_index, self.next_port - 1)
        };
        proof {
            lemma_position(self.ips@, ip_index as nat, next_port);
        }
        Some((SocketAddrV4::new(self.ips[ip_index], next_port), ip_index, next_port))
    }

    /// Add a session for `internal`: the next endpoint in allocation order
    /// becomes its external endpoint and is returned. When every endpoint
    /// is handed out, nothing is returned and the table is unchanged.
    pub fn add(&mut self, internal: SocketAddrV4) -> (external: Option<SocketAddrV4>)
        ensures
            final(self)@ == old(self)@.add(internal),
            external == old(self)@.add_result(internal),
            external is Some <==> old(self)@.available() > 0,
            old(self)@.wf(),
            final(self)@.wf(),
    {
        match self.get_next_socket() {
            Some((socket, ip_index, next_port)) => {
                proof {
                    use_type_invariant(&*self);
                    lemma_add_keeps_wf(self@, internal);
                }
                bind_and_move(
                    &mut self.table,
                    &mut self.ip_index,
                    &mut self.next_port,
                    &mut self.available,
                    internal,
                    socket,
                    ip_index,
                    next_port,
                );
                Some(socket)
            },
            None => None,
        }
    }

    /// Delete the session of `internal`. The allocator steps back by one
    /// and the endpoint that it takes back is returned. When `internal`
    /// has no session, nothing is returned and the table is unchanged.
    pub fn delete(&mut self, internal: SocketAddrV4) -> (freed: Option<SocketAddrV4>)
        ensures
            final(self)@ == old(self)@.delete(internal),
            freed == old(self)@.delete_result(internal),
            freed is Some <==> old(self)@.translate_source(internal) is Some,
            old(self)@.wf(),
            final(self)@.wf(),
    {
        proof {
            use_type_invariant(&*self);
            lemma_delete_keeps_wf(self@, internal);
        }
        match self.free_last_socket() {
            Some((socket, ip_index, next_port)) => {
                let removed = unbind_and_move(
                    &mut self.table,
                    &mut self.ip_index,
                    &mut self.next_port,
                    &mut self.available,
                    internal,
                    ip_index,
                    next_port,
                );
                if removed {
                    Some(socket)
                } else {
                    assert(self@.pairs =~= old(self)@.pairs);
                    None
                }
            },
            None => None,
        }
    }

    /// The external endpoint of the session of `internal`, if it has one.
    pub fn translate_source(&self, internal: SocketAddrV4) -> (external: Option<SocketAddrV4>)
        ensures
            external == self@.translate_source(internal),
            self@.wf(),
    {
        proof {
            use_type_invariant(self);
        }
        get_by_left(&self.table, internal)
    }

    /// The internal endpoint of the session whose external endpoint is
    /// `external`, if there is one.
    pub fn translate_destination(&self, external: SocketAddrV4) -> (internal: Option<
        SocketAddrV4,
    >)
        ensures
            internal == self@.translate_destination(external),
            self@.wf(),
    {
        proof {
            use_type_invariant(self);
        }
        get_by_right(&self.table, external)
    }
}

impl Clone for NatTable {
    fn clone(&self) -> (copy: NatTable)
        ensures
            copy@ == self@,
    {
        proof {
            use_type_invariant(self);
        }
        let mut ips: Vec<Ipv4Addr> = Vec::new();
        let mut i: usize = 0;
        while i < self.ips.len()
            invariant
                i <= self.ips.len(),
                ips@ == self.ips@.take(i as int),
            decreases self.ips.len() - i,
        {
            ips.push(self.ips[i]);
            i += 1;
            assert(ips@ =~= self.ips@.take(i as int));
        }
        assert(self.ips@.take(i as int) =~= self.ips@);
        NatTable {
            table: copy_of(&self.table),
            ips,
            ip_index: self.ip_index,
            next_port: self.next_port,
            available: self.available,
        }
    }
}

/// Pair `internal` with `external` in the sessions and move the
/// allocator to the position given, all in one step.
fn bind_and_move(
    table: &mut SessionMap,
    ip_index: &mut usize,
    next_port: &mut u16,
    available: &mut usize,
    internal: SocketAddrV4,
    external: SocketAddrV4,
    to_index: usize,
    to_port: u16,
)
    requires
        *old(available) > 0,
    ensures
        pairs_of(*final(table)) == bind(pairs_of(*old(table)), internal, external),
        *final(ip_index) == to_index,
        *final(next_port) == to_port,
        *final(available) == *old(available) - 1,
    no_unwind
{
    insert(table, internal, external);
    *ip_index = to_index;
    *next_port = to_port;
    *available = *available - 1;
}

/// Remove the session of `internal`, and where there was one, move the
/// allocator to the position given, all in one step.
fn unbind_and_move(
    table: &mut SessionMap,
    ip_index: &mut usize,
    next_port: &mut u16,
    available: &mut usize,
    internal: SocketAddrV4,
    to_index: usize,
    to_port: u16,
) -> (removed: bool)
    requires
        *old(available) < usize::MAX,
    ensures
        pairs_of(*final(table)) == pairs_of(*old(table)).remove(internal),
        removed == pairs_of(*old(table)).contains_key(internal),
        *final(ip_index) == if removed {
            to_index
        } else {
            *old(ip_index)
        },
        *final(next_port) == if removed {
            to_port
        } else {
            *old(next_port)
        },
        *final(available) == if removed {
            *old(available) + 1
        } else {
            *old(available) as int
        },
    no_unwind
{
    match remove_by_left(table, internal) {
        Some(_) => {
            *ip_index = to_index;
            *next_port = to_port;
            *available = *available + 1;
            true
        },
        None => false,
    }
}

/// The endpoint at `port` of the address with index `ip_index` stands at
/// position `ip_index * PORTS_PER_ADDRESS + (port - MINIMUM_NAT_PORT)` of
/// the allocation order.
proof fn lemma_position(ips: Seq<Ipv4Addr>, ip_index: nat, port: u16)
    requires
        ip_index < ips.len(),
        port >= MINIMUM_NAT_PORT,
    ensures
        nth_socket(ips, ip_index * PORTS_PER_ADDRESS as nat + (port - MINIMUM_NAT_PORT) as nat) == (
        SocketAddrV4 { ip: ips[ip_index as int], port }),
        ip_index * PORTS_PER_ADDRESS as nat + ((port - MINIMUM_NAT_PORT) as nat) < ips.len()
            * PORTS_PER_ADDRESS as nat,
{
    let off = (port - MINIMUM_NAT_PORT) as nat;
    let i = ip_index * PORTS_PER_ADDRESS as nat + off;
    assert(i / PORTS_PER_ADDRESS as nat == ip_index && i % PORTS_PER_ADDRESS as nat == off) by {
        vstd::arithmetic::div_mod::lemma_fundamental_div_mod_converse(
            i as int,
            PORTS_PER_ADDRESS as int,
            ip_index as int,
            off as int,
        );
    }
    assert((ip_index + 1) * PORTS_PER_ADDRESS as nat <= ips.len() * PORTS_PER_ADDRESS as nat)
        by (nonlinear_arith)
        requires
            ip_index + 1 <= ips.len(),
    ;
}

} // verus!
