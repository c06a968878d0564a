//! Translation of packets in flight: packets from the internal range get
//! an external source endpoint, packets to an external endpoint get the
//! internal destination endpoint back.

use vstd::prelude::*;

use crate::cidr::Ipv4Cidr;
use crate::ipv4::Ipv4Addr;
use crate::nat_table::laws::{
    law_added_source_translates, law_lookups_are_inverse, lemma_add_keeps_wf,
};
use crate::nat_table::state::{NatState, PORTS_PER_ADDRESS};
use crate::nat_table::table::NatTable;
use crate::packet::{
    carries_tcp, destination_of, destination_rewritten, destination_socket, is_tcp_packet,
    lemma_destination_rewritten, lemma_source_rewritten, rewrite_destination, rewrite_source,
    source_of, source_rewritten, source_socket,
};

verus! {

/// Which way a packet crosses the translator.
#[derive(PartialEq, Eq, Structural, Clone, Copy, Debug)]
pub enum Direction {
    /// From the internal range outwards: the source is translated.
    Outbound,
    /// From outside inwards: the destination is translated.
    Inbound,
}

/// Why a packet is dropped instead of translated.
#[derive(PartialEq, Eq, Structural, Clone, Copy, Debug)]
pub enum TranslateError {
    /// An outbound packet needs a new session and every external endpoint
    /// is handed out.
    CapacityExhausted,
    /// An inbound packet goes to an endpoint that no session has.
    UnmappedDestination,
}

/// The way a packet crosses: outwards exactly if its source address lies
/// in the internal range.
pub open spec fn direction(internal: Ipv4Cidr, p: Seq<u8>) -> Direction {
    if internal.contains_spec(source_socket(p).ip) {
        Direction::Outbound
    } else {
        Direction::Inbound
    }
}

/// The table after the packet has crossed: an outbound packet whose
/// source has no session adds one; nothing else changes the table.
pub open spec fn table_after(table: NatState, internal: Ipv4Cidr, p: Seq<u8>) -> NatState {
    if direction(internal, p) is Outbound && table.translate_source(source_socket(p)) is None {
        table.add(source_socket(p))
    } else {
        table
    }
}

/// What becomes of the packet. Outbound: its source is replaced by the
/// external endpoint of its session, which is added if it has none;
/// without a free endpoint the packet is dropped. Inbound: its
/// destination is replaced by the internal endpoint of the session that
/// owns it; without such a session the packet is dropped.
pub open spec fn packet_after(table: NatState, internal: Ipv4Cidr, p: Seq<u8>) -> Result<
    Seq<u8>,
    TranslateError,
> {
    match direction(internal, p) {
        Direction::Outbound => match table_after(table, internal, p).translate_source(
            source_socket(p),
        ) {
            Some(external) => Ok(source_rewritten(p, external)),
            None => Err(TranslateError::CapacityExhausted),
        },
        Direction::Inbound => match table.translate_destination(destination_socket(p)) {
            Some(inner) => Ok(destination_rewritten(p, inner)),
            None => Err(TranslateError::UnmappedDestination),
        },
    }
}

/// A translator: the internal range and the table of sessions.
pub struct PacketTranslator {
    internal: Ipv4Cidr,
    table: NatTable,
}

impl PacketTranslator {
    /// The internal range.
    pub closed spec fn internal(&self) -> Ipv4Cidr {
        self.internal
    }

    /// The value of the table of sessions.
    pub closed spec fn sessions(&self) -> NatState {
        self.table@
    }

    /// A translator for the range `internal` that hands out the ports of
    /// the addresses `external`, with no session yet.
    pub fn new(internal: Ipv4Cidr, external: Vec<Ipv4Addr>) -> (translator: PacketTranslator)
        requires
            external.len() * PORTS_PER_ADDRESS <= usize::MAX,
        ensures
            translator.internal() == internal,
            translator.sessions() == NatState::init(external@),
            translator.sessions().wf(),
    {
        PacketTranslator { internal, table: NatTable::new(external) }
    }

    /// The table of sessions.
    pub fn table(&self) -> (table: &NatTable)
        ensures
            table@ == self.sessions(),
    {
        &self.table
    }

    /// The way `packet` crosses the translator.
    pub fn classify(&self, packet: &Vec<u8>) -> (way: Direction)
        requires
            carries_tcp(packet@),
        ensures
            way == direction(self.internal(), packet@),
    {
        let source = source_of(packet);
        if self.internal.contains(&source.ip) {
            Direction::Outbound
        } else {
            Direction::Inbound
        }
    }

    /// Translate `packet`, which is left as it is, and return the packet
    /// to send on, or the reason why it is dropped.
    pub fn translate(&mut self, packet: &Vec<u8>) -> (r: Result<Vec<u8>, TranslateError>)
        requires
            carries_tcp(packet@),
        ensures
            final(self).internal() == old(self).internal(),
            final(self).sessions() == table_after(
                old(self).sessions(),
                old(self).internal(),
                packet@,
            ),
            match r {
                Ok(out) => packet_after(old(self).sessions(), old(self).internal(), packet@)
                    == Ok::<Seq<u8>, TranslateError>(out@),
                Err(e) => packet_after(old(self).sessions(), old(self).internal(), packet@)
                    == Err::<Seq<u8>, TranslateError>(e),
            },
            old(self).sessions().wf(),
            final(self).sessions().wf(),
    {
        match self.classify(packet) {
            Direction::Outbound => {
                let source = source_of(packet);
                let known = self.table.translate_source(source);
                let external = match known {
                    Some(external) => Some(external),
                    None => {
                        proof {
                            if self.table@.add_result(source) is Some {
                                law_added_source_translates(self.table@, source);
                            }
                        }
                        self.table.add(source)
                    },
                };
                match external {
                    Some(external) => Ok(rewrite_source(packet, external)),
                    None => Err(TranslateError::CapacityExhausted),
                }
            },
            Direction::Inbound => {
                let destination = destination_of(packet);
                match self.table.translate_destination(destination) {
                    Some(inner) => Ok(rewrite_destination(packet, inner)),
                    None => Err(TranslateError::UnmappedDestination),
                }
            },
        }
    }

    /// Take in whatever bytes were intercepted: a packet that carries a
    /// TCP segment over IPv4 is translated; anything else is not for the
    /// translator, which says so with `None` and stays as it is.
    pub fn intercept(&mut self, packet: &Vec<u8>) -> (r: Option<Result<Vec<u8>, TranslateError>>)
        ensures
            final(self).internal() == old(self).internal(),
            r is Some <==> carries_tcp(packet@),
            !carries_tcp(packet@) ==> final(self).sessions() == old(self).sessions(),
            carries_tcp(packet@) ==> final(self).sessions() == table_after(
                old(self).sessions(),
                old(self).internal(),
                packet@,
            ),
            match r {
                Some(Ok(out)) => packet_after(old(self).sessions(), old(self).internal(), packet@)
                    == Ok::<Seq<u8>, TranslateError>(out@),
                Some(Err(e)) => packet_after(old(self).sessions(), old(self).internal(), packet@)
                    == Err::<Seq<u8>, TranslateError>(e),
                None => true,
            },
    {
        if is_tcp_packet(packet) {
            Some(self.translate(packet))
        } else {
            None
        }
    }
}

/// Translation keeps the invariant of the table.
pub proof fn lemma_table_after_wf(table: NatState, internal: Ipv4Cidr, p: Seq<u8>)
    requires
        table.wf(),
    ensures
        table_after(table, internal, p).wf(),
{
    lemma_add_keeps_wf(table, source_socket(p));
}

/// An outbound packet that is translated leaves from the external
/// endpoint of its session, to the destination that it had, and its
/// session is in the table afterwards in both directions.
pub proof fn law_outbound(table: NatState, internal: Ipv4Cidr, p: Seq<u8>)
    requires
        table.wf(),
        carries_tcp(p),
        direction(internal, p) is Outbound,
        packet_after(table, internal, p) is Ok,
    ensures
        carries_tcp(packet_after(table, internal, p).unwrap()),
        table_after(table, internal, p).translate_source(source_socket(p)) == Some(
            source_socket(packet_after(table, internal, p).unwrap()),
        ),
        table_after(table, internal, p).translate_destination(
            source_socket(packet_after(table, internal, p).unwrap()),
        ) == Some(source_socket(p)),
        destination_socket(packet_after(table, internal, p).unwrap()) == destination_socket(p),
{
    let after = table_after(table, internal, p);
    let external = after.translate_source(source_socket(p)).unwrap();
    lemma_table_after_wf(table, internal, p);
    lemma_source_rewritten(p, external);
    law_lookups_are_inverse(after, source_socket(p), external);
}

/// Round trip: when an outbound packet has been translated, a reply to
/// the endpoint that it left from, coming from outside the internal
/// range, is translated back to the endpoint that the packet came from,
/// and the table stays as it is.
pub proof fn law_round_trip(table: NatState, internal: Ipv4Cidr, p: Seq<u8>, reply: Seq<u8>)
    requires
        table.wf(),
        carries_tcp(p),
        carries_tcp(reply),
        direction(internal, p) is Outbound,
        packet_after(table, internal, p) is Ok,
        direction(internal, reply) is Inbound,
        destination_socket(reply) == source_socket(packet_after(table, internal, p).unwrap()),
    ensures
        packet_after(table_after(table, internal, p), internal, reply) is Ok,
        destination_socket(
            packet_after(table_after(table, internal, p), internal, reply).unwrap(),
        ) == source_socket(p),
        source_socket(packet_after(table_after(table, internal, p), internal, reply).unwrap())
            == source_socket(reply),
        table_after(table_after(table, internal, p), internal, reply) == table_after(
            table,
            internal,
            p,
        ),
{
    law_outbound(table, internal, p);
    lemma_destination_rewritten(reply, source_socket(p));
}

} // verus!
