//! IPv4 packets that carry a TCP segment, as bytes: where the endpoints
//! stand, and what a packet looks like after one of them is replaced.

use vstd::prelude::*;

use crate::checksum::{checksum, internet_checksum, law_checksum_verifies, put16, verifies};
use crate::ipv4::{lemma_octets_of_bits, octets_to_bits, Ipv4Addr, SocketAddrV4};

verus! {

/// Protocol number of TCP in the IPv4 header.
pub const PROTOCOL_TCP: u8 = 6;

/// Length of the shortest IPv4 header, and of the shortest TCP header.
pub const MINIMUM_HEADER_LENGTH: usize = 20;

/// The 16-bit value whose big-endian bytes are `high` and `low`.
pub open spec fn be16(high: u8, low: u8) -> u16 {
    (high * 0x100 + low) as u16
}

/// `p` with the four octets of `ip` at `at` to `at + 3`.
pub open spec fn put_ip(p: Seq<u8>, at: int, ip: Ipv4Addr) -> Seq<u8> {
    p.update(at, ip.octets_spec()[0]).update(at + 1, ip.octets_spec()[1]).update(
        at + 2,
        ip.octets_spec()[2],
    ).update(at + 3, ip.octets_spec()[3])
}

/// The address whose four octets stand at `at` to `at + 3` of `p`.
pub open spec fn ip_at(p: Seq<u8>, at: int) -> Ipv4Addr {
    Ipv4Addr { bits: octets_to_bits(p[at], p[at + 1], p[at + 2], p[at + 3]) as u32 }
}

/// Length in bytes of the IPv4 header, from the low half of the first
/// byte.
pub open spec fn header_length(p: Seq<u8>) -> int {
    (p[0] % 0x10) * 4
}

/// Length in bytes of the whole packet, as its header states it.
pub open spec fn total_length(p: Seq<u8>) -> int {
    be16(p[2], p[3]) as int
}

/// Whether `p` is an IPv4 packet that carries a TCP segment: version 4,
/// a header of at least 20 bytes, protocol TCP, and a stated length
/// within the bytes there are that leaves room for a TCP header.
pub open spec fn carries_tcp(p: Seq<u8>) -> bool {
    &&& p.len() >= MINIMUM_HEADER_LENGTH
    &&& p[0] / 0x10 == 4
    &&& header_length(p) >= MINIMUM_HEADER_LENGTH
    &&& p[9] == PROTOCOL_TCP
    &&& header_length(p) + MINIMUM_HEADER_LENGTH <= total_length(p) <= p.len()
}

/// The endpoint that the packet comes from.
pub open spec fn source_socket(p: Seq<u8>) -> SocketAddrV4 {
    SocketAddrV4 {
        ip: ip_at(p, 12),
        port: be16(p[header_length(p)], p[header_length(p) + 1]),
    }
}

/// The endpoint that the packet goes to.
pub open spec fn destination_socket(p: Seq<u8>) -> SocketAddrV4 {
    SocketAddrV4 {
        ip: ip_at(p, 16),
        port: be16(p[header_length(p) + 2], p[header_length(p) + 3]),
    }
}

/// `p` with `socket` in place of the endpoint that it comes from.
pub open spec fn with_source(p: Seq<u8>, socket: SocketAddrV4) -> Seq<u8> {
    put16(put_ip(p, 12, socket.ip), header_length(p), socket.port)
}

/// `p` with `socket` in place of the endpoint that it goes to.
pub open spec fn with_destination(p: Seq<u8>, socket: SocketAddrV4) -> Seq<u8> {
    put16(put_ip(p, 16, socket.ip), header_length(p) + 2, socket.port)
}

/// The bytes that the IPv4 header checksum covers: the header, with zero
/// where the checksum stands.
pub open spec fn header_checksum_input(p: Seq<u8>) -> Seq<u8> {
    put16(p.take(header_length(p)), 10, 0)
}

/// What stands before the segment when its checksum is taken: source and
/// destination address, a zero byte, the protocol number and the length
/// of the segment.
pub open spec fn pseudo_header(p: Seq<u8>) -> Seq<u8> {
    let length = (total_length(p) - header_length(p)) as u16;
    p.subrange(12, 20) + seq![0u8, PROTOCOL_TCP, (length / 0x100) as u8, (length % 0x100) as u8]
}

/// The TCP segment: what follows the header, up to the stated length.
pub open spec fn segment(p: Seq<u8>) -> Seq<u8> {
    p.subrange(header_length(p), total_length(p))
}

/// The bytes that the TCP checksum covers: the pseudo-header, then the
/// segment, with zero where the checksum stands.
pub open spec fn segment_checksum_input(p: Seq<u8>) -> Seq<u8> {
    pseudo_header(p) + put16(segment(p), 16, 0)
}

/// `p` with both checksums computed afresh.
pub open spec fn with_checksums(p: Seq<u8>) -> Seq<u8> {
    put16(
        put16(p, 10, internet_checksum(header_checksum_input(p))),
        header_length(p) + 16,
        internet_checksum(segment_checksum_input(p)),
    )
}

/// The packet that leaves after source translation: `socket` in place of
/// the source endpoint, and both checksums computed afresh.
pub open spec fn source_rewritten(p: Seq<u8>, socket: SocketAddrV4) -> Seq<u8> {
    with_checksums(with_source(p, socket))
}

/// The packet that leaves after destination translation: `socket` in
/// place of the destination endpoint, and both checksums computed afresh.
pub open spec fn destination_rewritten(p: Seq<u8>, socket: SocketAddrV4) -> Seq<u8> {
    with_checksums(with_destination(p, socket))
}

/// Whether `i` is a position that translation may write to: the two
/// checksums, and the address and port that it replaces.
pub open spec fn is_header_field(p: Seq<u8>, i: int) -> bool {
    ||| 10 <= i < 20
    ||| header_length(p) <= i < header_length(p) + 4
    ||| header_length(p) + 16 <= i < header_length(p) + 18
}

/// Source translation keeps the length, the shape and the destination of
/// the packet, puts the new endpoint where the source stands, and leaves
/// every byte outside the addresses, ports and checksums as it was.
pub proof fn lemma_source_rewritten(p: Seq<u8>, socket: SocketAddrV4)
    requires
        carries_tcp(p),
    ensures
        source_rewritten(p, socket).len() == p.len(),
        carries_tcp(source_rewritten(p, socket)),
        header_length(source_rewritten(p, socket)) == header_length(p),
        source_socket(source_rewritten(p, socket)) == socket,
        destination_socket(source_rewritten(p, socket)) == destination_socket(p),
        forall|i: int|
            0 <= i < p.len() && !is_header_field(p, i) ==> source_rewritten(p, socket)[i] == p[i],
{
    lemma_octets_of_bits(socket.ip.bits);
}

/// Destination translation keeps the length, the shape and the source of
/// the packet, puts the new endpoint where the destination stands, and
/// leaves every byte outside the addresses, ports and checksums as it
/// was.
pub proof fn lemma_destination_rewritten(p: Seq<u8>, socket: SocketAddrV4)
    requires
        carries_tcp(p),
    ensures
        destination_rewritten(p, socket).len() == p.len(),
        carries_tcp(destination_rewritten(p, socket)),
        header_length(destination_rewritten(p, socket)) == header_length(p),
        destination_socket(destination_rewritten(p, socket)) == socket,
        source_socket(destination_rewritten(p, socket)) == source_socket(p),
        forall|i: int|
            0 <= i < p.len() && !is_header_field(p, i) ==> destination_rewritten(p, socket)[i]
                == p[i],
{
    lemma_octets_of_bits(socket.ip.bits);
}

/// A packet whose checksums were computed afresh passes both checks of a
/// receiver: over the header, and over the pseudo-header and the segment.
pub proof fn law_checksums_verify(p: Seq<u8>)
    requires
        carries_tcp(p),
    ensures
        verifies(with_checksums(p).take(header_length(with_checksums(p)))),
        verifies(pseudo_header(with_checksums(p)) + segment(with_checksums(p))),
{
    let q = with_checksums(p);
    let header_sum = internet_checksum(header_checksum_input(p));
    let segment_sum = internet_checksum(segment_checksum_input(p));
    assert(q.take(header_length(q)) =~= put16(header_checksum_input(p), 10, header_sum));
    law_checksum_verifies(header_checksum_input(p), 10);
    assert(pseudo_header(q) =~= pseudo_header(p));
    assert(segment(q) =~= put16(segment(p), 16, segment_sum));
    assert(pseudo_header(q) + segment(q) =~= put16(segment_checksum_input(p), 28, segment_sum));
    law_checksum_verifies(segment_checksum_input(p), 28);
}

/// Whether `packet` is an IPv4 packet that carries a TCP segment.
pub fn is_tcp_packet(packet: &Vec<u8>) -> (b: bool)
    ensures
        b == carries_tcp(packet@),
{
    if packet.len() < MINIMUM_HEADER_LENGTH {
        return false;
    }
    let header: usize = (packet[0] % 0x10) as usize * 4;
    let total: usize = packet[2] as usize * 0x100 + packet[3] as usize;
    packet[0] / 0x10 == 4 && header >= MINIMUM_HEADER_LENGTH && packet[9] == PROTOCOL_TCP && header
        + MINIMUM_HEADER_LENGTH <= total && total <= packet.len()
}

/// The address whose octets stand at `at` to `at + 3` of `packet`.
fn read_ip(packet: &Vec<u8>, at: usize) -> (ip: Ipv4Addr)
    requires
        at + 4 <= packet.len(),
    ensures
        ip == ip_at(packet@, at as int),
{
    Ipv4Addr::new(packet[at], packet[at + 1], packet[at + 2], packet[at + 3])
}

/// The 16-bit value whose big-endian bytes stand at `at` and `at + 1`.
fn read16(packet: &Vec<u8>, at: usize) -> (v: u16)
    requires
        at + 2 <= packet.len(),
    ensures
        v == be16(packet@[at as int], packet@[at + 1]),
{
    packet[at] as u16 * 0x100 + packet[at + 1] as u16
}

/// Write the big-endian bytes of `v` at `at` and `at + 1`.
fn write16(packet: &mut Vec<u8>, at: usize, v: u16)
    requires
        at + 2 <= old(packet).len(),
    ensures
        final(packet)@ == put16(old(packet)@, at as int, v),
{
    packet.set(at, (v / 0x100) as u8);
    packet.set(at + 1, (v % 0x100) as u8);
}

/// Write the octets of `ip` at `at` to `at + 3`.
fn write_ip(packet: &mut Vec<u8>, at: usize, ip: Ipv4Addr)
    requires
        at + 4 <= old(packet).len(),
    ensures
        final(packet)@ == put_ip(old(packet)@, at as int, ip),
{
    let octets = ip.octets();
    packet.set(at, octets[0]);
    packet.set(at + 1, octets[1]);
    packet.set(at + 2, octets[2]);
    packet.set(at + 3, octets[3]);
}

/// Append the bytes of `source` from `from` up to `to`.
fn append_range(target: &mut Vec<u8>, source: &Vec<u8>, from: usize, to: usize)
    requires
        from <= to <= source.len(),
    ensures
        final(target)@ == old(target)@ + source@.subrange(from as int, to as int),
{
    let mut i: usize = from;
    while i < to
        invariant
            from <= i <= to <= source.len(),
            target@ == old(target)@ + source@.subrange(from as int, i as int),
        decreases to - i,
    {
        target.push(source[i]);
        i += 1;
        assert(target@ =~= old(target)@ + source@.subrange(from as int, i as int));
    }
    assert(target@ =~= old(target)@ + source@.subrange(from as int, to as int));
}

/// The endpoint that `packet` comes from.
pub fn source_of(packet: &Vec<u8>) -> (socket: SocketAddrV4)
    requires
        carries_tcp(packet@),
    ensures
        socket == source_socket(packet@),
{
    let header: usize = (packet[0] % 0x10) as usize * 4;
    SocketAddrV4::new(read_ip(packet, 12), read16(packet, header))
}

/// The endpoint that `packet` goes to.
pub fn destination_of(packet: &Vec<u8>) -> (socket: SocketAddrV4)
    requires
        carries_tcp(packet@),
    ensures
        socket == destination_socket(packet@),
{
    let header: usize = (packet[0] % 0x10) as usize * 4;
    SocketAddrV4::new(read_ip(packet, 16), read16(packet, header + 2))
}

/// Compute both checksums of `packet` afresh and write them in place.
fn refresh_checksums(packet: &mut Vec<u8>)
    requires
        carries_tcp(old(packet)@),
    ensures
        final(packet)@ == with_checksums(old(packet)@),
{
    let header: usize = (packet[0] % 0x10) as usize * 4;
    let total: usize = packet[2] as usize * 0x100 + packet[3] as usize;
    let length: u16 = (total - header) as u16;

    let mut covered: Vec<u8> = Vec::new();
    append_range(&mut covered, packet, 0, header);
    write16(&mut covered, 10, 0);
    assert(covered@ =~= header_checksum_input(packet@));
    let header_sum = checksum(&covered);

    let mut covered: Vec<u8> = Vec::new();
    append_range(&mut covered, packet, 12, 20);
    covered.push(0);
    covered.push(PROTOCOL_TCP);
    covered.push((length / 0x100) as u8);
    covered.push((length % 0x100) as u8);
    assert(covered@ =~= pseudo_header(packet@));
    let mut rest: Vec<u8> = Vec::new();
    append_range(&mut rest, packet, header, total);
    write16(&mut rest, 16, 0);
    let n = rest.len();
    append_range(&mut covered, &rest, 0, n);
    assert(covered@ =~= segment_checksum_input(packet@)) by {
        assert(rest@.subrange(0, n as int) =~= rest@);
    }
    let segment_sum = checksum(&covered);

    write16(packet, 10, header_sum);
    write16(packet, header + 16, segment_sum);
}

/// A copy of `packet` with `socket` in place of its source endpoint and
/// both checksums computed afresh.
pub fn rewrite_source(packet: &Vec<u8>, socket: SocketAddrV4) -> (out: Vec<u8>)
    requires
        carries_tcp(packet@),
    ensures
        out@ == source_rewritten(packet@, socket),
{
    let header: usize = (packet[0] % 0x10) as usize * 4;
    let mut out: Vec<u8> = Vec::new();
    append_range(&mut out, packet, 0, packet.len());
    assert(out@ =~= packet@);
    write_ip(&mut out, 12, socket.ip);
    write16(&mut out, header, socket.port);
    refresh_checksums(&mut out);
    out
}

/// A copy of `packet` with `socket` in place of its destination endpoint
/// and both checksums computed afresh.
pub fn rewrite_destination(packet: &Vec<u8>, socket: SocketAddrV4) -> (out: Vec<u8>)
    requires
        carries_tcp(packet@),
    ensures
        out@ == destination_rewritten(packet@, socket),
{
    let header: usize = (packet[0] % 0x10) as usize * 4;
    let mut out: Vec<u8> = Vec::new();
    append_range(&mut out, packet, 0, packet.len());
    assert(out@ =~= packet@);
    write_ip(&mut out, 16, socket.ip);
    write16(&mut out, header + 2, socket.port);
    refresh_checksums(&mut out);
    out
}

} // verus!
