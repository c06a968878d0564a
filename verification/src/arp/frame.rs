//! Address resolution frames on an Ethernet link, as bytes.
//!
//! A frame is an Ethernet header of 14 bytes, destination, source and
//! type, and after it the resolution packet of 28 bytes: hardware type,
//! protocol type, the two address lengths, the operation, then the link
//! and protocol address of the sender and of the target.

use vstd::prelude::*;

use crate::ipv4::{lemma_octets_of_bits, Ipv4Addr};
use crate::mac::MacAddr;
use crate::packet::ip_at;

verus! {

/// Length of an Ethernet header.
pub const ETHERNET_HEADER_LENGTH: usize = 14;

/// Length of a resolution packet for Ethernet and IPv4.
pub const ARP_PACKET_LENGTH: usize = 28;

/// Length of the request frames that are sent: header, packet and six
/// bytes of padding.
pub const REQUEST_FRAME_LENGTH: usize = 48;

/// The MAC address whose six octets stand at `at` to `at + 5` of `frame`.
pub open spec fn mac_at(frame: Seq<u8>, at: int) -> MacAddr {
    MacAddr(frame[at], frame[at + 1], frame[at + 2], frame[at + 3], frame[at + 4], frame[at + 5])
}

/// Whether `frame` is long enough for an Ethernet header and says in it
/// that it carries address resolution (type `0x0806`).
pub open spec fn is_arp_frame(frame: Seq<u8>) -> bool {
    &&& frame.len() >= ETHERNET_HEADER_LENGTH
    &&& frame[12] == 0x08
    &&& frame[13] == 0x06
}

/// Whether `frame` holds a whole resolution packet after its header.
pub open spec fn has_arp_packet(frame: Seq<u8>) -> bool {
    is_arp_frame(frame) && frame.len() >= ETHERNET_HEADER_LENGTH + ARP_PACKET_LENGTH
}

/// The link address of the sender of a resolution frame.
pub open spec fn sender_mac(frame: Seq<u8>) -> MacAddr {
    mac_at(frame, 22)
}

/// The protocol address of the sender of a resolution frame.
pub open spec fn sender_ip(frame: Seq<u8>) -> Ipv4Addr {
    ip_at(frame, 28)
}

/// What a frame tells the station with the link address `local` about
/// another station: the addresses of its sender, provided that the frame
/// is a whole resolution frame and was not sent by the station itself.
pub open spec fn learned_from(frame: Seq<u8>, local: MacAddr) -> Option<(Ipv4Addr, MacAddr)> {
    if has_arp_packet(frame) && sender_mac(frame) != local {
        Some((sender_ip(frame), sender_mac(frame)))
    } else {
        None
    }
}

/// The request that the station with the addresses `mac` and `ip` sends
/// to every station on the link to ask who has the address `target`.
pub open spec fn request_frame(mac: MacAddr, ip: Ipv4Addr, target: Ipv4Addr) -> Seq<u8> {
    // destination: broadcast; source; type: address resolution
    seq![0xffu8, 0xff, 0xff, 0xff, 0xff, 0xff] + mac.octets_spec() + seq![0x08u8, 0x06]
    // hardware type: Ethernet; protocol type: IPv4; address lengths; operation: request
     + seq![0x00u8, 0x01, 0x08, 0x00, 6, 4, 0x00, 0x01]
    // sender
     + mac.octets_spec() + ip.octets_spec()
    // target: link address unknown
     + seq![0u8, 0, 0, 0, 0, 0] + target.octets_spec()
    // padding
     + seq![0u8, 0, 0, 0, 0, 0]
}

/// The MAC address whose octets stand at `at` to `at + 5` of `frame`.
fn read_mac(frame: &Vec<u8>, at: usize) -> (mac: MacAddr)
    requires
        at + 6 <= frame.len(),
    ensures
        mac == mac_at(frame@, at as int),
{
    MacAddr(
        frame[at],
        frame[at + 1],
        frame[at + 2],
        frame[at + 3],
        frame[at + 4],
        frame[at + 5],
    )
}

/// Append the six octets of `mac`.
fn push_mac(frame: &mut Vec<u8>, mac: MacAddr)
    ensures
        final(frame)@ == old(frame)@ + mac.octets_spec(),
{
    frame.push(mac.0);
    frame.push(mac.1);
    frame.push(mac.2);
    frame.push(mac.3);
    frame.push(mac.4);
    frame.push(mac.5);
    assert(frame@ =~= old(frame)@ + mac.octets_spec());
}

/// Append the four octets of `ip`.
fn push_ip(frame: &mut Vec<u8>, ip: Ipv4Addr)
    ensures
        final(frame)@ == old(frame)@ + ip.octets_spec(),
{
    let octets = ip.octets();
    frame.push(octets[0]);
    frame.push(octets[1]);
    frame.push(octets[2]);
    frame.push(octets[3]);
    assert(frame@ =~= old(frame)@ + ip.octets_spec());
}

/// Append `count` times the byte `byte`.
fn push_fill(frame: &mut Vec<u8>, byte: u8, count: usize)
    ensures
        final(frame)@ == old(frame)@ + Seq::new(count as nat, |i: int| byte),
{
    let mut i: usize = 0;
    while i < count
        invariant
            i <= count,
            frame@ == old(frame)@ + Seq::new(i as nat, |i: int| byte),
        decreases count - i,
    {
        frame.push(byte);
        i += 1;
        assert(frame@ =~= old(frame)@ + Seq::new(i as nat, |i: int| byte));
    }
}

/// What `frame` tells the station with the link address `local` about
/// another station: the addresses of the sender of a whole resolution
/// frame that the station did not send itself.
pub fn parse_reply(frame: &Vec<u8>, local: MacAddr) -> (learned: Option<(Ipv4Addr, MacAddr)>)
    ensures
        learned == learned_from(frame@, local),
{
    if frame.len() < ETHERNET_HEADER_LENGTH {
        return None;
    }
    if frame[12] != 0x08 || frame[13] != 0x06 {
        return None;
    }
    if frame.len() < ETHERNET_HEADER_LENGTH + ARP_PACKET_LENGTH {
        return None;
    }
    let mac = read_mac(frame, 22);
    if mac == local {
        return None;
    }
    let ip = Ipv4Addr::new(frame[28], frame[29], frame[30], frame[31]);
    Some((ip, mac))
}

/// The request that the station with the addresses `mac` and `ip` sends
/// to ask who has the address `target`.
pub fn build_request(mac: MacAddr, ip: Ipv4Addr, target: Ipv4Addr) -> (frame: Vec<u8>)
    ensures
        frame@ == request_frame(mac, ip, target),
        frame.len() == REQUEST_FRAME_LENGTH,
{
    let mut frame: Vec<u8> = Vec::new();
    push_fill(&mut frame, 0xff, 6);
    push_mac(&mut frame, mac);
    frame.push(0x08);
    frame.push(0x06);
    frame.push(0x00);
    frame.push(0x01);
    frame.push(0x08);
    frame.push(0x00);
    frame.push(6);
    frame.push(4);
    frame.push(0x00);
    frame.push(0x01);
    push_mac(&mut frame, mac);
    push_ip(&mut frame, ip);
    push_fill(&mut frame, 0, 6);
    push_ip(&mut frame, target);
    push_fill(&mut frame, 0, 6);
    assert(frame@ =~= request_frame(mac, ip, target));
    frame
}

/// A frame whose sender link address is the station's own tells the
/// station nothing.
pub proof fn law_own_frames_ignored(frame: Seq<u8>, local: MacAddr)
    requires
        sender_mac(frame) == local,
    ensures
        learned_from(frame, local) is None,
{
}

/// Whatever a frame tells a station comes from another station, and is
/// what the frame holds as its sender.
pub proof fn law_learned_is_sender(frame: Seq<u8>, local: MacAddr)
    requires
        learned_from(frame, local) is Some,
    ensures
        learned_from(frame, local).unwrap().1 != local,
        learned_from(frame, local).unwrap() == (sender_ip(frame), sender_mac(frame)),
        frame.len() >= ETHERNET_HEADER_LENGTH + ARP_PACKET_LENGTH,
{
}

/// A request is a whole resolution frame that names the station that
/// sent it: every other station learns the sender's addresses from it,
/// the sender itself nothing.
pub proof fn law_request_names_sender(mac: MacAddr, ip: Ipv4Addr, target: Ipv4Addr, local: MacAddr)
    ensures
        request_frame(mac, ip, target).len() == REQUEST_FRAME_LENGTH,
        has_arp_packet(request_frame(mac, ip, target)),
        sender_mac(request_frame(mac, ip, target)) == mac,
        sender_ip(request_frame(mac, ip, target)) == ip,
        ip_at(request_frame(mac, ip, target), 38) == target,
        learned_from(request_frame(mac, ip, target), local) == if local == mac {
            None
        } else {
            Some((ip, mac))
        },
{
    lemma_octets_of_bits(ip.bits);
    lemma_octets_of_bits(target.bits);
}

} // verus!
