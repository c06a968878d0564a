//! What holds of every table of sessions, proved over its value.

use vstd::prelude::*;

use crate::ipv4::{Ipv4Addr, SocketAddrV4};
use crate::nat_table::bijection::bind;
use crate::nat_table::state::{
    nth_socket, NatState, MAXIMUM_NAT_PORT, MINIMUM_NAT_PORT, PORTS_PER_ADDRESS,
};

verus! {

/// Every position below the capacity names an endpoint in the port range,
/// at one of the external addresses.
pub proof fn lemma_nth_socket_in_range(ips: Seq<Ipv4Addr>, i: nat)
    requires
        i < ips.len() * PORTS_PER_ADDRESS as nat,
    ensures
        MINIMUM_NAT_PORT <= nth_socket(ips, i).port <= MAXIMUM_NAT_PORT,
        i / (PORTS_PER_ADDRESS as nat) < ips.len(),
        ips.contains(nth_socket(ips, i).ip),
{
    let q = i / PORTS_PER_ADDRESS as nat;
    assert(q < ips.len()) by {
        if q >= ips.len() {
            assert(q * PORTS_PER_ADDRESS as nat >= ips.len() * PORTS_PER_ADDRESS as nat)
                by (nonlinear_arith)
                requires
                    q >= ips.len(),
            ;
        }
    }
    assert(ips[q as int] == nth_socket(ips, i).ip);
}

/// A table without sessions over any addresses is well formed, with every
/// endpoint available.
pub proof fn lemma_init_wf(ips: Seq<Ipv4Addr>)
    ensures
        NatState::init(ips).wf(),
        NatState::init(ips).available() == NatState::init(ips).capacity(),
{
}

/// `add` keeps the invariant.
pub proof fn lemma_add_keeps_wf(s: NatState, internal: SocketAddrV4)
    requires
        s.wf(),
    ensures
        s.add(internal).wf(),
{
    if let Some(external) = s.next_socket() {
        let t = s.add(internal);
        lemma_nth_socket_in_range(s.ips, s.used);
        let kept = s.pairs.dom().filter(|k: SocketAddrV4| s.pairs[k] != external);
        s.pairs.dom().lemma_len_filter(|k: SocketAddrV4| s.pairs[k] != external);
        assert(t.pairs.dom() =~= kept.insert(internal));
        assert(t.pairs == bind(s.pairs, internal, external));
        assert(t.one_to_one());
        assert(t.externals_in_range());
    }
}

/// `delete` keeps the invariant, and where it finds a session the
/// allocator has an endpoint to take back.
pub proof fn lemma_delete_keeps_wf(s: NatState, internal: SocketAddrV4)
    requires
        s.wf(),
    ensures
        s.delete(internal).wf(),
        s.can_delete(internal) ==> s.used > 0 && s.pairs.len() > 0,
{
    if s.can_delete(internal) {
        let t = s.delete(internal);
        assert(s.pairs.dom().contains(internal));
        assert(s.pairs.len() > 0) by {
            if s.pairs.dom().len() == 0 {
                s.pairs.dom().lemma_len0_is_empty();
            }
        }
        assert(t.pairs.dom() =~= s.pairs.dom().remove(internal));
        assert(t.one_to_one());
        assert(t.externals_in_range());
    }
}

/// One call that changes a table.
pub enum NatOp {
    /// `add` for the internal endpoint.
    Add(SocketAddrV4),
    /// `delete` for the internal endpoint.
    Delete(SocketAddrV4),
}

impl NatState {
    /// Whether the call hands an endpoint out, or takes one back.
    pub open spec fn succeeds(self, op: NatOp) -> bool {
        match op {
            NatOp::Add(internal) => self.add_result(internal) is Some,
            NatOp::Delete(internal) => self.delete_result(internal) is Some,
        }
    }

    /// The table after the call.
    pub open spec fn step(self, op: NatOp) -> NatState {
        match op {
            NatOp::Add(internal) => self.add(internal),
            NatOp::Delete(internal) => self.delete(internal),
        }
    }

    /// The table after the calls `ops`, made in order.
    pub open spec fn run(self, ops: Seq<NatOp>) -> NatState
        decreases ops.len(),
    {
        if ops.len() == 0 {
            self
        } else {
            self.run(ops.drop_last()).step(ops.last())
        }
    }

    /// How many of the calls `ops`, made in order, are an `add` that hands
    /// an endpoint out.
    pub open spec fn adds_done(self, ops: Seq<NatOp>) -> nat
        decreases ops.len(),
    {
        if ops.len() == 0 {
            0
        } else {
            let before = self.run(ops.drop_last());
            self.adds_done(ops.drop_last()) + if ops.last() is Add && before.succeeds(ops.last()) {
                1nat
            } else {
                0nat
            }
        }
    }

    /// How many of the calls `ops`, made in order, are a `delete` that
    /// removes a session.
    pub open spec fn deletes_done(self, ops: Seq<NatOp>) -> nat
        decreases ops.len(),
    {
        if ops.len() == 0 {
            0
        } else {
            let before = self.run(ops.drop_last());
            self.deletes_done(ops.drop_last()) + if ops.last() is Delete && before.succeeds(
                ops.last(),
            ) {
                1nat
            } else {
                0nat
            }
        }
    }

    /// Whether the call leaves the session from `internal` to `external`
    /// in place: it does not delete it, and it does not hand out
    /// `external` to another endpoint or another endpoint to `internal`.
    pub open spec fn spares(
        self,
        op: NatOp,
        internal: SocketAddrV4,
        external: SocketAddrV4,
    ) -> bool {
        match op {
            NatOp::Add(other) => self.next_socket() is Some ==> (other == internal
                <==> self.next_socket() == Some(external)),
            NatOp::Delete(other) => other != internal,
        }
    }

    /// Whether each of the calls `ops`, made in order, leaves the session
    /// from `internal` to `external` in place.
    pub open spec fn spared_by(
        self,
        ops: Seq<NatOp>,
        internal: SocketAddrV4,
        external: SocketAddrV4,
    ) -> bool
        decreases ops.len(),
    {
        if ops.len() == 0 {
            true
        } else {
            &&& self.spared_by(ops.drop_last(), internal, external)
            &&& self.run(ops.drop_last()).spares(ops.last(), internal, external)
        }
    }
}

/// Any sequence of calls keeps the invariant.
pub proof fn lemma_run_keeps_wf(s: NatState, ops: Seq<NatOp>)
    requires
        s.wf(),
    ensures
        s.run(ops).wf(),
        s.run(ops).ips == s.ips,
    decreases ops.len(),
{
    if ops.len() > 0 {
        lemma_run_keeps_wf(s, ops.drop_last());
        let before = s.run(ops.drop_last());
        match ops.last() {
            NatOp::Add(internal) => lemma_add_keeps_wf(before, internal),
            NatOp::Delete(internal) => lemma_delete_keeps_wf(before, internal),
        }
    }
}

/// In a well-formed table the two lookups are inverse to each other:
/// `internal` translates to `external` exactly if `external` translates
/// back to `internal`.
pub proof fn law_lookups_are_inverse(s: NatState, internal: SocketAddrV4, external: SocketAddrV4)
    requires
        s.wf(),
    ensures
        s.translate_source(internal) == Some(external) <==> s.translate_destination(external)
            == Some(internal),
{
    if s.translate_source(internal) == Some(external) {
        assert(s.pairs.contains_key(internal) && s.pairs[internal] == external);
        assert(s.has_external(external));
    }
}

/// After a successful `add` the internal endpoint translates to the
/// endpoint that `add` returned.
pub proof fn law_added_source_translates(s: NatState, internal: SocketAddrV4)
    requires
        s.wf(),
        s.add_result(internal) is Some,
    ensures
        s.add(internal).translate_source(internal) == s.add_result(internal),
{
}

/// After a successful `add` the endpoint that `add` returned translates
/// back to the internal endpoint.
pub proof fn law_added_destination_translates(s: NatState, internal: SocketAddrV4)
    requires
        s.wf(),
        s.add_result(internal) is Some,
    ensures
        s.add(internal).translate_destination(s.add_result(internal).unwrap()) == Some(internal),
{
    lemma_add_keeps_wf(s, internal);
    law_added_source_translates(s, internal);
    law_lookups_are_inverse(s.add(internal), internal, s.add_result(internal).unwrap());
}

/// A session stays as it is through one call that spares it.
pub proof fn law_session_survives_step(
    s: NatState,
    op: NatOp,
    internal: SocketAddrV4,
    external: SocketAddrV4,
)
    requires
        s.wf(),
        s.translate_source(internal) == Some(external),
        s.spares(op, internal, external),
    ensures
        s.step(op).translate_source(internal) == Some(external),
        s.step(op).translate_destination(external) == Some(internal),
{
    match op {
        NatOp::Add(other) => lemma_add_keeps_wf(s, other),
        NatOp::Delete(other) => lemma_delete_keeps_wf(s, other),
    }
    law_lookups_are_inverse(s.step(op), internal, external);
}

/// A session stays as it is, in both directions, through any sequence of
/// calls that spare it: until it is deleted, or one of its endpoints is
/// handed out again.
pub proof fn law_session_survives(
    s: NatState,
    ops: Seq<NatOp>,
    internal: SocketAddrV4,
    external: SocketAddrV4,
)
    requires
        s.wf(),
        s.translate_source(internal) == Some(external),
        s.spared_by(ops, internal, external),
    ensures
        s.run(ops).translate_source(internal) == Some(external),
        s.run(ops).translate_destination(external) == Some(internal),
    decreases ops.len(),
{
    if ops.len() == 0 {
        law_lookups_are_inverse(s, internal, external);
    } else {
        law_session_survives(s, ops.drop_last(), internal, external);
        lemma_run_keeps_wf(s, ops.drop_last());
        law_session_survives_step(s.run(ops.drop_last()), ops.last(), internal, external);
    }
}

/// One call changes the number of available endpoints by one where it
/// succeeds, downwards for `add` and upwards for `delete`, and not at all
/// where it fails.
pub proof fn law_available_step(s: NatState, op: NatOp)
    requires
        s.wf(),
    ensures
        s.step(op).available() == s.available() + if !s.succeeds(op) {
            0int
        } else if op is Add {
            -1int
        } else {
            1int
        },
        op is Add ==> (s.succeeds(op) <==> s.available() > 0),
{
    match op {
        NatOp::Add(other) => {},
        NatOp::Delete(other) => lemma_delete_keeps_wf(s, other),
    }
}

/// After any interleaving of calls the number of available endpoints is
/// what it was, less the successful `add`s, plus the successful
/// `delete`s.
pub proof fn law_available_counts(s: NatState, ops: Seq<NatOp>)
    requires
        s.wf(),
    ensures
        s.run(ops).available() == s.available() - s.adds_done(ops) + s.deletes_done(ops),
    decreases ops.len(),
{
    if ops.len() > 0 {
        law_available_counts(s, ops.drop_last());
        lemma_run_keeps_wf(s, ops.drop_last());
        law_available_step(s.run(ops.drop_last()), ops.last());
    }
}

/// Of a sequence of `add`s on a new table, as many succeed as there are
/// endpoints, and no more.
pub proof fn lemma_adds_on_new_table(ips: Seq<Ipv4Addr>, ops: Seq<NatOp>)
    requires
        forall|i: int| 0 <= i < ops.len() ==> ops[i] is Add,
    ensures
        NatState::init(ips).run(ops).used == if ops.len() <= NatState::init(ips).capacity() {
            ops.len()
        } else {
            NatState::init(ips).capacity()
        },
        NatState::init(ips).adds_done(ops) == NatState::init(ips).run(ops).used,
        NatState::init(ips).run(ops).ips == ips,
    decreases ops.len(),
{
    if ops.len() > 0 {
        let init = ops.drop_last();
        assert forall|i: int| 0 <= i < init.len() implies init[i] is Add by {
            assert(init[i] == ops[i]);
        }
        lemma_adds_on_new_table(ips, init);
        assert(ops.last() == ops[ops.len() - 1]);
    }
}

/// Exhaustion: on a new table, as many `add`s as there are endpoints all
/// succeed; then no endpoint is available, and the next `add` returns
/// nothing and leaves the table as it is.
pub proof fn law_exhaustion(ips: Seq<Ipv4Addr>, ops: Seq<NatOp>, internal: SocketAddrV4)
    requires
        forall|i: int| 0 <= i < ops.len() ==> ops[i] is Add,
        ops.len() == NatState::init(ips).capacity(),
    ensures
        NatState::init(ips).adds_done(ops) == ops.len(),
        NatState::init(ips).run(ops).available() == 0,
        NatState::init(ips).run(ops).add_result(internal) is None,
        NatState::init(ips).run(ops).add(internal) == NatState::init(ips).run(ops),
{
    lemma_adds_on_new_table(ips, ops);
    lemma_init_wf(ips);
    lemma_run_keeps_wf(NatState::init(ips), ops);
}

impl NatState {
    /// Whether every external endpoint in the table stands below the
    /// allocator's position. This holds as long as sessions are deleted in
    /// the reverse of the order in which they were added.
    pub open spec fn in_order(self) -> bool {
        forall|a: SocketAddrV4| #[trigger]
            self.pairs.contains_key(a) ==> exists|i: nat|
                i < self.used && self.pairs[a] == #[trigger] nth_socket(self.ips, i)
    }
}

/// Over distinct addresses, different positions name different
/// endpoints.
pub proof fn lemma_nth_socket_one_to_one(ips: Seq<Ipv4Addr>, i: nat, j: nat)
    requires
        ips.no_duplicates(),
        i < ips.len() * PORTS_PER_ADDRESS as nat,
        j < ips.len() * PORTS_PER_ADDRESS as nat,
        nth_socket(ips, i) == nth_socket(ips, j),
    ensures
        i == j,
{
    lemma_nth_socket_in_range(ips, i);
    lemma_nth_socket_in_range(ips, j);
    let p = PORTS_PER_ADDRESS as nat;
    assert(i / p == j / p);
    assert(i % p == j % p);
    assert(i == p * (i / p) + i % p) by {
        vstd::arithmetic::div_mod::lemma_fundamental_div_mod(i as int, p as int);
    }
    assert(j == p * (j / p) + j % p) by {
        vstd::arithmetic::div_mod::lemma_fundamental_div_mod(j as int, p as int);
    }
}

/// A new table is in order.
pub proof fn law_new_table_in_order(ips: Seq<Ipv4Addr>)
    ensures
        NatState::init(ips).in_order(),
{
}

/// In a table that is in order, over distinct addresses, the endpoint
/// that the next `add` hands out belongs to no session: `add` for another
/// internal endpoint spares every session there is.
pub proof fn law_in_order_add_spares(
    s: NatState,
    other: SocketAddrV4,
    internal: SocketAddrV4,
    external: SocketAddrV4,
)
    requires
        s.wf(),
        s.in_order(),
        s.ips.no_duplicates(),
        s.translate_source(internal) == Some(external),
        other != internal,
    ensures
        s.spares(NatOp::Add(other), internal, external),
{
    if s.next_socket() == Some(external) {
        assert(s.pairs.contains_key(internal));
        let i = choose|i: nat| i < s.used && s.pairs[internal] == #[trigger] nth_socket(s.ips, i);
        lemma_nth_socket_one_to_one(s.ips, i, s.used);
    }
}

/// `add` keeps a table in order.
pub proof fn law_add_keeps_in_order(s: NatState, internal: SocketAddrV4)
    requires
        s.wf(),
        s.in_order(),
    ensures
        s.add(internal).in_order(),
{
    if let Some(external) = s.next_socket() {
        let t = s.add(internal);
        assert forall|a: SocketAddrV4| #[trigger] t.pairs.contains_key(a) implies exists|i: nat|
            i < t.used && t.pairs[a] == #[trigger] nth_socket(t.ips, i) by {
            if a == internal {
                assert(t.pairs[a] == nth_socket(t.ips, s.used));
            } else {
                assert(s.pairs.contains_key(a));
                let i = choose|i: nat| i < s.used && s.pairs[a] == #[trigger] nth_socket(s.ips, i);
                assert(t.pairs[a] == nth_socket(t.ips, i));
            }
        }
    }
}

/// `delete` keeps a table in order where it removes the session that
/// holds the endpoint handed out last, and where it removes nothing.
pub proof fn law_last_in_first_out_keeps_in_order(s: NatState, internal: SocketAddrV4)
    requires
        s.wf(),
        s.in_order(),
        s.ips.no_duplicates(),
        s.can_delete(internal) ==> s.translate_source(internal) == s.last_socket(),
    ensures
        s.delete(internal).in_order(),
{
    if s.can_delete(internal) {
        let t = s.delete(internal);
        lemma_delete_keeps_wf(s, internal);
        let last = (s.used - 1) as nat;
        assert forall|a: SocketAddrV4| #[trigger] t.pairs.contains_key(a) implies exists|i: nat|
            i < t.used && t.pairs[a] == #[trigger] nth_socket(t.ips, i) by {
            assert(s.pairs.contains_key(a));
            let i = choose|i: nat| i < s.used && s.pairs[a] == #[trigger] nth_socket(s.ips, i);
            if i == last {
                assert(s.pairs[a] == s.pairs[internal]);
                assert(a == internal);
            }
            assert(t.pairs[a] == nth_socket(t.ips, i));
        }
    }
}

impl NatState {
    /// Whether each `delete` among the calls `ops`, made in order, that
    /// removes a session removes the one that holds the endpoint handed
    /// out last.
    pub open spec fn last_in_first_out(self, ops: Seq<NatOp>) -> bool
        decreases ops.len(),
    {
        if ops.len() == 0 {
            true
        } else {
            let before = self.run(ops.drop_last());
            &&& self.last_in_first_out(ops.drop_last())
            &&& match ops.last() {
                NatOp::Add(_) => true,
                NatOp::Delete(internal) => before.can_delete(internal) ==> before.translate_source(
                    internal,
                ) == before.last_socket(),
            }
        }
    }
}

/// Where sessions are deleted in the reverse of the order in which they
/// were added, over distinct external addresses, a session stays as it
/// is, in both directions, until it is deleted or its internal endpoint
/// is added again.
pub proof fn law_session_survives_in_order(
    s: NatState,
    ops: Seq<NatOp>,
    internal: SocketAddrV4,
    external: SocketAddrV4,
)
    requires
        s.wf(),
        s.in_order(),
        s.ips.no_duplicates(),
        s.last_in_first_out(ops),
        s.translate_source(internal) == Some(external),
        forall|i: int|
            0 <= i < ops.len() ==> ops[i] != NatOp::Add(internal) && ops[i] != NatOp::Delete(
                internal,
            ),
    ensures
        s.run(ops).in_order(),
        s.run(ops).translate_source(internal) == Some(external),
        s.run(ops).translate_destination(external) == Some(internal),
    decreases ops.len(),
{
    if ops.len() == 0 {
        law_lookups_are_inverse(s, internal, external);
    } else {
        let earlier = ops.drop_last();
        assert forall|i: int| 0 <= i < earlier.len() implies earlier[i] != NatOp::Add(internal)
            && earlier[i] != NatOp::Delete(internal) by {
            assert(earlier[i] == ops[i]);
        }
        law_session_survives_in_order(s, earlier, internal, external);
        lemma_run_keeps_wf(s, earlier);
        let before = s.run(earlier);
        assert(ops.last() == ops[ops.len() - 1]);
        match ops.last() {
            NatOp::Add(other) => {
                law_in_order_add_spares(before, other, internal, external);
                law_add_keeps_in_order(before, other);
            },
            NatOp::Delete(other) => {
                law_last_in_first_out_keeps_in_order(before, other);
            },
        }
        law_session_survives_step(before, ops.last(), internal, external);
    }
}

} // verus!
