//! Translation of packets, checked against the packet types of `pnet`.

use pnet::packet::ip::IpNextHeaderProtocols;
use pnet::packet::ipv4::{Ipv4Packet, MutableIpv4Packet};
use pnet::packet::tcp::{MutableTcpPacket, TcpPacket};
use pnet::packet::Packet;

use proton::checksum::checksum;
use proton::packet::{
    destination_of, is_tcp_packet, rewrite_destination, rewrite_source, source_of,
};
use proton::translator::{Direction, PacketTranslator, TranslateError};
use proton::{Ipv4Addr, Ipv4Cidr, SocketAddrV4};

/// An IPv4 packet with a TCP segment, put together by `pnet`.
fn tcp_packet(
    source: [u8; 4],
    source_port: u16,
    destination: [u8; 4],
    destination_port: u16,
    options_words: u8,
    payload: &[u8],
) -> Vec<u8> {
    let header = 20 + 4 * options_words as usize;
    let total = header + 20 + payload.len();
    let mut ip = MutableIpv4Packet::owned(vec![0u8; total]).unwrap();
    ip.set_version(4);
    ip.set_header_length(5 + options_words);
    ip.set_total_length(total as u16);
    ip.set_identification(0x1c46);
    ip.set_ttl(64);
    ip.set_next_level_protocol(IpNextHeaderProtocols::Tcp);
    ip.set_source(source.into());
    ip.set_destination(destination.into());
    let mut segment = vec![0u8; 20 + payload.len()];
    {
        let mut tcp = MutableTcpPacket::new(&mut segment).unwrap();
        tcp.set_source(source_port);
        tcp.set_destination(destination_port);
        tcp.set_sequence(0x0102_0304);
        tcp.set_acknowledgement(0x0a0b_0c0d);
        tcp.set_data_offset(5);
        tcp.set_flags(0x18);
        tcp.set_window(4096);
        tcp.set_payload(payload);
    }
    ip.set_payload(&segment);
    ip.packet().to_vec()
}

/// Whether both checksums of the packet are what `pnet` computes.
fn checksums_hold(packet: &[u8]) -> bool {
    let ip = Ipv4Packet::new(packet).unwrap();
    let tcp = TcpPacket::new(ip.payload()).unwrap();
    ip.get_checksum() == pnet::packet::ipv4::checksum(&ip)
        && tcp.get_checksum()
            == pnet::packet::tcp::ipv4_checksum(&tcp, &ip.get_source(), &ip.get_destination())
}

fn internal_range() -> Ipv4Cidr {
    Ipv4Cidr::new(Ipv4Addr::new(192, 168, 0, 0), 24).unwrap()
}

#[test]
fn checksum_of_a_known_header() {
    // 45 00 00 73 00 00 40 00 40 11 [b8 61] c0 a8 00 01 c0 a8 00 c7
    let header = vec![
        0x45, 0x00, 0x00, 0x73, 0x00, 0x00, 0x40, 0x00, 0x40, 0x11, 0x00, 0x00, 0xc0, 0xa8, 0x00,
        0x01, 0xc0, 0xa8, 0x00, 0xc7,
    ];
    assert_eq!(checksum(&header), 0xb861);
}

#[test]
fn checksum_of_odd_and_empty_data() {
    assert_eq!(checksum(&Vec::new()), 0xffff);
    assert_eq!(checksum(&vec![0x01]), 0xfeff);
    assert_eq!(checksum(&vec![0xff, 0xff, 0x00, 0x01]), 0xfffe);
    assert_eq!(checksum(&vec![0xff, 0xff, 0xff, 0xff, 0xff]), 0x00ff);
}

#[test]
fn recognises_tcp_over_ipv4() {
    let packet = tcp_packet([192, 168, 0, 5], 40000, [93, 184, 216, 34], 443, 0, b"hello");
    assert!(is_tcp_packet(&packet));

    let mut udp = packet.clone();
    udp[9] = 17;
    assert!(!is_tcp_packet(&udp));

    let mut version_six = packet.clone();
    version_six[0] = 0x65;
    assert!(!is_tcp_packet(&version_six));

    let mut short_header = packet.clone();
    short_header[0] = 0x44;
    assert!(!is_tcp_packet(&short_header));

    let mut truncated = packet.clone();
    truncated.truncate(39);
    assert!(!is_tcp_packet(&truncated));

    let mut overstated = packet.clone();
    overstated[2] = 0xff;
    assert!(!is_tcp_packet(&overstated));

    assert!(!is_tcp_packet(&Vec::new()));
    assert!(!is_tcp_packet(&packet[..19].to_vec()));
}

#[test]
fn reads_both_endpoints() {
    let packet = tcp_packet([192, 168, 0, 5], 40000, [93, 184, 216, 34], 443, 0, b"");
    assert_eq!(source_of(&packet), SocketAddrV4::new(Ipv4Addr::new(192, 168, 0, 5), 40000));
    assert_eq!(destination_of(&packet), SocketAddrV4::new(Ipv4Addr::new(93, 184, 216, 34), 443));

    // With options the ports stand further back.
    let packet = tcp_packet([10, 1, 2, 3], 258, [10, 3, 2, 1], 65535, 2, b"x");
    assert_eq!(source_of(&packet), SocketAddrV4::new(Ipv4Addr::new(10, 1, 2, 3), 258));
    assert_eq!(destination_of(&packet), SocketAddrV4::new(Ipv4Addr::new(10, 3, 2, 1), 65535));
}

#[test]
fn rewrite_source_replaces_the_endpoint_and_both_checksums() {
    let payload = b"GET / HTTP/1.1\r\n\r\n.";
    let packet = tcp_packet([192, 168, 0, 5], 40000, [93, 184, 216, 34], 443, 1, payload);
    let before = packet.clone();
    let external = SocketAddrV4::new(Ipv4Addr::new(203, 0, 113, 7), 50000);
    let out = rewrite_source(&packet, external);

    // The input is left as it is.
    assert_eq!(packet, before);
    assert_eq!(out.len(), packet.len());

    let ip = Ipv4Packet::new(&out).unwrap();
    assert_eq!(ip.get_source().octets(), [203, 0, 113, 7]);
    assert_eq!(ip.get_destination().octets(), [93, 184, 216, 34]);
    let tcp = TcpPacket::new(ip.payload()).unwrap();
    assert_eq!(tcp.get_source(), 50000);
    assert_eq!(tcp.get_destination(), 443);
    assert_eq!(tcp.payload(), payload);
    assert!(checksums_hold(&out));

    // Nothing but addresses, ports and checksums has changed.
    for i in 0..out.len() {
        let field = (10..20).contains(&i) || (24..28).contains(&i) || (40..42).contains(&i);
        if !field {
            assert_eq!(out[i], packet[i]);
        }
    }
}

#[test]
fn rewrite_destination_replaces_the_endpoint_and_both_checksums() {
    let packet = tcp_packet([93, 184, 216, 34], 443, [203, 0, 113, 7], 50000, 0, b"reply");
    let inner = SocketAddrV4::new(Ipv4Addr::new(192, 168, 0, 5), 40000);
    let out = rewrite_destination(&packet, inner);

    let ip = Ipv4Packet::new(&out).unwrap();
    assert_eq!(ip.get_source().octets(), [93, 184, 216, 34]);
    assert_eq!(ip.get_destination().octets(), [192, 168, 0, 5]);
    let tcp = TcpPacket::new(ip.payload()).unwrap();
    assert_eq!(tcp.get_source(), 443);
    assert_eq!(tcp.get_destination(), 40000);
    assert_eq!(tcp.payload(), b"reply");
    assert!(checksums_hold(&out));
}

#[test]
fn bytes_after_the_stated_length_are_kept_and_not_summed() {
    let mut packet = tcp_packet([192, 168, 0, 5], 40000, [93, 184, 216, 34], 443, 0, b"abc");
    packet.extend_from_slice(&[0xaa, 0xbb, 0xcc]);
    let out = rewrite_source(&packet, SocketAddrV4::new(Ipv4Addr::new(203, 0, 113, 7), 50001));
    assert_eq!(&out[43..], &[0xaa, 0xbb, 0xcc]);
    assert!(checksums_hold(&out[..43]));
}

#[test]
fn outbound_packet_gets_the_first_external_endpoint() {
    let mut translator = PacketTranslator::new(internal_range(), vec![Ipv4Addr::new(203, 0, 113, 7)]);
    let packet = tcp_packet([192, 168, 0, 5], 40000, [93, 184, 216, 34], 443, 0, b"hello");
    assert_eq!(translator.classify(&packet), Direction::Outbound);

    let out = translator.translate(&packet).unwrap();
    assert_eq!(source_of(&out), SocketAddrV4::new(Ipv4Addr::new(203, 0, 113, 7), 50000));
    assert_eq!(destination_of(&out), SocketAddrV4::new(Ipv4Addr::new(93, 184, 216, 34), 443));
    assert!(checksums_hold(&out));
    assert_eq!(translator.table().len(), 1);
    assert_eq!(translator.table().available(), 15535);

    // A second packet of the same session uses the same endpoint.
    let again = translator.translate(&packet).unwrap();
    assert_eq!(again, out);
    assert_eq!(translator.table().len(), 1);
    assert_eq!(translator.table().available(), 15535);

    // Another source port is another session.
    let other = tcp_packet([192, 168, 0, 5], 40001, [93, 184, 216, 34], 443, 0, b"hello");
    let out = translator.translate(&other).unwrap();
    assert_eq!(source_of(&out), SocketAddrV4::new(Ipv4Addr::new(203, 0, 113, 7), 50001));
    assert_eq!(translator.table().len(), 2);
}

#[test]
fn reply_is_translated_back_to_the_internal_socket() {
    let mut translator = PacketTranslator::new(internal_range(), vec![Ipv4Addr::new(203, 0, 113, 7)]);
    let packet = tcp_packet([192, 168, 0, 5], 40000, [93, 184, 216, 34], 443, 0, b"ping");
    let out = translator.translate(&packet).unwrap();
    let left_from = source_of(&out);

    let reply = tcp_packet(
        [93, 184, 216, 34],
        443,
        left_from.ip().octets(),
        left_from.port(),
        0,
        b"pong",
    );
    assert_eq!(translator.classify(&reply), Direction::Inbound);
    let back = translator.translate(&reply).unwrap();
    assert_eq!(destination_of(&back), SocketAddrV4::new(Ipv4Addr::new(192, 168, 0, 5), 40000));
    assert_eq!(source_of(&back), SocketAddrV4::new(Ipv4Addr::new(93, 184, 216, 34), 443));
    assert!(checksums_hold(&back));
    assert_eq!(translator.table().len(), 1);
}

#[test]
fn inbound_packet_without_session_is_dropped() {
    let mut translator = PacketTranslator::new(internal_range(), vec![Ipv4Addr::new(203, 0, 113, 7)]);
    let stray = tcp_packet([93, 184, 216, 34], 443, [203, 0, 113, 7], 50000, 0, b"");
    assert_eq!(translator.translate(&stray), Err(TranslateError::UnmappedDestination));
    assert_eq!(translator.table().len(), 0);
    assert_eq!(translator.table().available(), 15536);
}

#[test]
fn outbound_packet_is_dropped_when_nothing_is_left() {
    let mut translator = PacketTranslator::new(internal_range(), Vec::new());
    let packet = tcp_packet([192, 168, 0, 5], 40000, [93, 184, 216, 34], 443, 0, b"");
    assert_eq!(translator.translate(&packet), Err(TranslateError::CapacityExhausted));
    assert_eq!(translator.table().len(), 0);
}

#[test]
fn direction_goes_by_the_source_address() {
    let translator = PacketTranslator::new(internal_range(), vec![Ipv4Addr::new(203, 0, 113, 7)]);
    let first = tcp_packet([192, 168, 0, 0], 1, [8, 8, 8, 8], 53, 0, b"");
    let last = tcp_packet([192, 168, 0, 255], 1, [8, 8, 8, 8], 53, 0, b"");
    let below = tcp_packet([192, 167, 255, 255], 1, [192, 168, 0, 9], 53, 0, b"");
    let above = tcp_packet([192, 168, 1, 0], 1, [192, 168, 0, 9], 53, 0, b"");
    assert_eq!(translator.classify(&first), Direction::Outbound);
    assert_eq!(translator.classify(&last), Direction::Outbound);
    assert_eq!(translator.classify(&below), Direction::Inbound);
    assert_eq!(translator.classify(&above), Direction::Inbound);
}

#[test]
fn intercept_passes_over_what_is_no_tcp_packet() {
    let mut translator = PacketTranslator::new(internal_range(), vec![Ipv4Addr::new(203, 0, 113, 7)]);
    let mut udp = tcp_packet([192, 168, 0, 5], 40000, [93, 184, 216, 34], 443, 0, b"hello");
    udp[9] = 17;
    assert_eq!(translator.intercept(&udp), None);
    assert_eq!(translator.intercept(&vec![0x45, 0x00]), None);
    assert_eq!(translator.table().len(), 0);

    let packet = tcp_packet([192, 168, 0, 5], 40000, [93, 184, 216, 34], 443, 0, b"hello");
    let out = translator.intercept(&packet).unwrap().unwrap();
    assert_eq!(source_of(&out), SocketAddrV4::new(Ipv4Addr::new(203, 0, 113, 7), 50000));
    assert!(checksums_hold(&out));

    let stray = tcp_packet([93, 184, 216, 34], 443, [203, 0, 113, 7], 50001, 0, b"");
    assert_eq!(translator.intercept(&stray), Some(Err(TranslateError::UnmappedDestination)));
}
