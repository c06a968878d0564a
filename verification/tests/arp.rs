//! Address resolution: cache, frames and the decisions of a scan.

use pnet::packet::arp::{ArpHardwareTypes, ArpOperations, ArpPacket, MutableArpPacket};
use pnet::packet::ethernet::{EtherTypes, EthernetPacket, MutableEthernetPacket};
use pnet::packet::{MutablePacket, Packet};

use proton::arp::cache::{ArpCache, ArpCacheEntry, ArpCacheIterator, DEFAULT_ARP_REFRESH_TIME};
use proton::arp::frame::{build_request, parse_reply};
use proton::arp::manager::ArpManager;
use proton::arp::scan::{
    listen_step, request_frames, ListenAction, ListenEvent, ScanSettings, ARP_CHANNEL_BUFFER_SIZE,
    ARP_LISTENER_DELAY,
};
use proton::{Ipv4Addr, Ipv4Cidr, MacAddr};

/// A resolution frame put together by `pnet`, the way the requests of a
/// scan are.
fn pnet_frame(
    operation_is_reply: bool,
    destination: [u8; 6],
    sender_mac: [u8; 6],
    sender_ip: [u8; 4],
    target_mac: [u8; 6],
    target_ip: [u8; 4],
) -> Vec<u8> {
    let mac = |o: [u8; 6]| pnet::datalink::MacAddr::new(o[0], o[1], o[2], o[3], o[4], o[5]);
    let mut eth_frame = MutableEthernetPacket::owned(vec![0u8; 48]).unwrap();
    eth_frame.set_ethertype(EtherTypes::Arp);
    eth_frame.set_source(mac(sender_mac));
    eth_frame.set_destination(mac(destination));
    {
        let mut arp_packet = MutableArpPacket::new(eth_frame.payload_mut()).unwrap();
        arp_packet.set_hardware_type(ArpHardwareTypes::Ethernet);
        arp_packet.set_protocol_type(EtherTypes::Ipv4);
        arp_packet.set_hw_addr_len(6);
        arp_packet.set_proto_addr_len(4);
        arp_packet.set_operation(if operation_is_reply {
            ArpOperations::Reply
        } else {
            ArpOperations::Request
        });
        arp_packet.set_sender_hw_addr(mac(sender_mac));
        arp_packet.set_sender_proto_addr(sender_ip.into());
        arp_packet.set_target_hw_addr(mac(target_mac));
        arp_packet.set_target_proto_addr(target_ip.into());
    }
    eth_frame.packet().to_vec()
}

const LOCAL_MAC: [u8; 6] = [0x02, 0x00, 0x5e, 0x10, 0x20, 0x30];
const LOCAL_IP: [u8; 4] = [192, 168, 0, 1];

fn local_mac() -> MacAddr {
    MacAddr::from(LOCAL_MAC)
}

fn reply_from(sender_mac: [u8; 6], sender_ip: [u8; 4]) -> Vec<u8> {
    pnet_frame(true, LOCAL_MAC, sender_mac, sender_ip, LOCAL_MAC, LOCAL_IP)
}

#[test]
fn scan_constants() {
    assert_eq!(ARP_CHANNEL_BUFFER_SIZE, 256);
    assert_eq!(ARP_LISTENER_DELAY, 2_500);
    assert_eq!(DEFAULT_ARP_REFRESH_TIME, 120_000);
    assert_eq!(
        ScanSettings::default(),
        ScanSettings { channel_capacity: 256, listener_delay: 2_500 }
    );
}

#[test]
fn request_frame_is_what_pnet_builds() {
    let ours = build_request(local_mac(), Ipv4Addr::new(192, 168, 0, 1), Ipv4Addr::new(192, 168, 0, 77));
    let theirs = pnet_frame(false, [0xff; 6], LOCAL_MAC, LOCAL_IP, [0; 6], [192, 168, 0, 77]);
    assert_eq!(ours, theirs);
    assert_eq!(ours.len(), 48);
}

#[test]
fn request_frame_bytes() {
    let frame = build_request(
        MacAddr::new(0xaa, 0xbb, 0xcc, 0xdd, 0xee, 0x01),
        Ipv4Addr::new(10, 0, 0, 1),
        Ipv4Addr::new(10, 0, 0, 9),
    );
    let expected: Vec<u8> = vec![
        0xff, 0xff, 0xff, 0xff, 0xff, 0xff, // destination
        0xaa, 0xbb, 0xcc, 0xdd, 0xee, 0x01, // source
        0x08, 0x06, // address resolution
        0x00, 0x01, 0x08, 0x00, 6, 4, 0x00, 0x01, // Ethernet, IPv4, request
        0xaa, 0xbb, 0xcc, 0xdd, 0xee, 0x01, 10, 0, 0, 1, // sender
        0, 0, 0, 0, 0, 0, 10, 0, 0, 9, // target
        0, 0, 0, 0, 0, 0, // padding
    ];
    assert_eq!(frame, expected);
}

#[test]
fn request_frame_reads_back_through_pnet() {
    let frame = build_request(local_mac(), Ipv4Addr::new(192, 168, 0, 1), Ipv4Addr::new(192, 168, 0, 200));
    let eth = EthernetPacket::new(&frame).unwrap();
    assert_eq!(eth.get_ethertype(), EtherTypes::Arp);
    assert!(eth.get_destination().is_broadcast());
    assert_eq!(eth.get_source().octets(), LOCAL_MAC);
    let arp = ArpPacket::new(eth.payload()).unwrap();
    assert_eq!(arp.get_hardware_type(), ArpHardwareTypes::Ethernet);
    assert_eq!(arp.get_protocol_type(), EtherTypes::Ipv4);
    assert_eq!(arp.get_hw_addr_len(), 6);
    assert_eq!(arp.get_proto_addr_len(), 4);
    assert_eq!(arp.get_operation(), ArpOperations::Request);
    assert_eq!(arp.get_sender_hw_addr().octets(), LOCAL_MAC);
    assert_eq!(arp.get_sender_proto_addr().octets(), LOCAL_IP);
    assert!(arp.get_target_hw_addr().is_zero());
    assert_eq!(arp.get_target_proto_addr().octets(), [192, 168, 0, 200]);
}

#[test]
fn one_request_for_each_target_in_order() {
    let targets = vec![
        Ipv4Addr::new(192, 168, 0, 2),
        Ipv4Addr::new(192, 168, 0, 3),
        Ipv4Addr::new(192, 168, 0, 4),
    ];
    let frames = request_frames(local_mac(), Ipv4Addr::new(192, 168, 0, 1), &targets);
    assert_eq!(frames.len(), 3);
    for (frame, target) in frames.iter().zip(targets.iter()) {
        assert_eq!(frame, &build_request(local_mac(), Ipv4Addr::new(192, 168, 0, 1), *target));
        assert_eq!(&frame[38..42], &target.octets());
    }
    assert!(request_frames(local_mac(), Ipv4Addr::new(192, 168, 0, 1), &Vec::new()).is_empty());
}

#[test]
fn reply_gives_the_addresses_of_its_sender() {
    let frame = reply_from([0xaa, 0xbb, 0xcc, 0xdd, 0xee, 0x01], [192, 168, 0, 5]);
    assert_eq!(
        parse_reply(&frame, local_mac()),
        Some((Ipv4Addr::new(192, 168, 0, 5), MacAddr::new(0xaa, 0xbb, 0xcc, 0xdd, 0xee, 0x01)))
    );
}

#[test]
fn own_frames_give_nothing() {
    let own_reply = reply_from(LOCAL_MAC, LOCAL_IP);
    assert_eq!(parse_reply(&own_reply, local_mac()), None);

    let own_request = build_request(local_mac(), Ipv4Addr::new(192, 168, 0, 1), Ipv4Addr::new(192, 168, 0, 9));
    assert_eq!(parse_reply(&own_request, local_mac()), None);

    // Another station learns the sender from the same request.
    assert_eq!(
        parse_reply(&own_request, MacAddr::new(2, 2, 2, 2, 2, 2)),
        Some((Ipv4Addr::new(192, 168, 0, 1), local_mac()))
    );
}

#[test]
fn frames_that_are_no_whole_resolution_frames_give_nothing() {
    let frame = reply_from([0xaa, 0xbb, 0xcc, 0xdd, 0xee, 0x01], [192, 168, 0, 5]);

    assert_eq!(parse_reply(&Vec::new(), local_mac()), None);
    assert_eq!(parse_reply(&frame[..13].to_vec(), local_mac()), None);
    assert_eq!(parse_reply(&frame[..41].to_vec(), local_mac()), None);
    assert!(parse_reply(&frame[..42].to_vec(), local_mac()).is_some());

    let mut ipv4 = frame.clone();
    ipv4[12] = 0x08;
    ipv4[13] = 0x00;
    assert_eq!(parse_reply(&ipv4, local_mac()), None);
}

#[test]
fn listener_sends_an_entry_for_a_reply() {
    let frame = reply_from([0xaa, 0xbb, 0xcc, 0xdd, 0xee, 0x01], [192, 168, 0, 5]);
    let event = ListenEvent::Frame { frame, channel_closed: false, now: 777 };
    let action = listen_step(&event, local_mac());
    let entry = ArpCacheEntry::new(
        Ipv4Addr::new(192, 168, 0, 5),
        MacAddr::new(0xaa, 0xbb, 0xcc, 0xdd, 0xee, 0x01),
        777,
    );
    assert_eq!(action, ListenAction::Send(entry));
}

#[test]
fn listener_never_sends_an_entry_for_its_own_frame() {
    for ip in [[192, 168, 0, 1], [192, 168, 0, 5], [0, 0, 0, 0]] {
        let frame = reply_from(LOCAL_MAC, ip);
        let event = ListenEvent::Frame { frame, channel_closed: false, now: 5 };
        assert_eq!(listen_step(&event, local_mac()), ListenAction::Receive);
    }
}

#[test]
fn listener_passes_over_other_frames_and_stops_on_closure() {
    let noise = ListenEvent::Frame { frame: vec![0u8; 60], channel_closed: false, now: 1 };
    assert_eq!(listen_step(&noise, local_mac()), ListenAction::Receive);

    let frame = reply_from([0xaa, 0xbb, 0xcc, 0xdd, 0xee, 0x01], [192, 168, 0, 5]);
    let late = ListenEvent::Frame { frame, channel_closed: true, now: 1 };
    assert_eq!(listen_step(&late, local_mac()), ListenAction::Stop);

    assert_eq!(listen_step(&ListenEvent::InterfaceClosed, local_mac()), ListenAction::Stop);
    assert_eq!(listen_step(&ListenEvent::Refused, local_mac()), ListenAction::Stop);
    assert_eq!(listen_step(&ListenEvent::Delivered, local_mac()), ListenAction::Receive);
}

#[test]
fn entry_is_stale_from_its_age_on() {
    let entry = ArpCacheEntry::new(Ipv4Addr::new(10, 0, 0, 2), MacAddr::new(1, 2, 3, 4, 5, 6), 1_000);
    assert!(!entry.check(500, 0));
    assert!(!entry.check(500, 1_000));
    assert!(!entry.check(500, 1_499));
    assert!(entry.check(500, 1_500));
    assert!(entry.check(500, 1_000_000));
    assert!(entry.check(0, 1_000));
    assert!(!entry.check(0, 999));
    assert!(!entry.check(u64::MAX, u64::MAX));
    let first = ArpCacheEntry::new(Ipv4Addr::new(10, 0, 0, 2), MacAddr::new(1, 2, 3, 4, 5, 6), 0);
    assert!(first.check(u64::MAX, u64::MAX));
}

#[test]
fn cache_reports_stale_addresses_in_order() {
    let mut cache = ArpCache::new();
    cache.add(Ipv4Addr::new(10, 0, 0, 2), MacAddr::new(0, 0, 0, 0, 0, 2), 100);
    cache.add(Ipv4Addr::new(10, 0, 0, 3), MacAddr::new(0, 0, 0, 0, 0, 3), 300);
    cache.add(Ipv4Addr::new(10, 0, 0, 4), MacAddr::new(0, 0, 0, 0, 0, 4), 200);
    assert_eq!(cache.len(), 3);

    assert!(cache.stale_entries(100, 199).is_empty());
    assert_eq!(cache.stale_entries(100, 200), vec![Ipv4Addr::new(10, 0, 0, 2)]);
    assert_eq!(
        cache.stale_entries(100, 300),
        vec![Ipv4Addr::new(10, 0, 0, 2), Ipv4Addr::new(10, 0, 0, 4)]
    );
    assert_eq!(
        cache.stale_entries(100, 400),
        vec![Ipv4Addr::new(10, 0, 0, 2), Ipv4Addr::new(10, 0, 0, 3), Ipv4Addr::new(10, 0, 0, 4)]
    );
}

#[test]
fn cache_keeps_duplicates_and_finds_the_first() {
    let mac = MacAddr::new(0xaa, 0xbb, 0xcc, 0xdd, 0xee, 0x01);
    let mut cache = ArpCache::new();
    assert_eq!(cache.lookup_by_mac(mac), None);
    cache.add(Ipv4Addr::new(10, 0, 0, 9), MacAddr::new(9, 9, 9, 9, 9, 9), 1);
    cache.add(Ipv4Addr::new(10, 0, 0, 5), mac, 2);
    cache.add(Ipv4Addr::new(10, 0, 0, 6), mac, 3);
    cache.add(Ipv4Addr::new(10, 0, 0, 5), mac, 4);
    assert_eq!(cache.len(), 4);
    assert_eq!(cache.lookup_by_mac(mac), Some(Ipv4Addr::new(10, 0, 0, 5)));
    assert_eq!(cache.lookup_by_mac(MacAddr::new(1, 1, 1, 1, 1, 1)), None);

    let copy = cache.clone();
    assert_eq!(copy.entries(), cache.entries());
}

#[test]
fn cache_set_replaces_everything() {
    let mut cache = ArpCache::new();
    cache.add(Ipv4Addr::new(10, 0, 0, 2), MacAddr::new(0, 0, 0, 0, 0, 2), 100);
    let found = vec![
        ArpCacheEntry::new(Ipv4Addr::new(10, 0, 0, 7), MacAddr::new(0, 0, 0, 0, 0, 7), 500),
        ArpCacheEntry::new(Ipv4Addr::new(10, 0, 0, 8), MacAddr::new(0, 0, 0, 0, 0, 8), 501),
    ];
    cache.set(found.clone());
    assert_eq!(cache.entries(), found);
    assert_eq!(cache.lookup_by_mac(MacAddr::new(0, 0, 0, 0, 0, 2)), None);
    cache.set(Vec::new());
    assert_eq!(cache.len(), 0);
}

#[test]
fn iteration_is_a_snapshot_that_can_be_started_again() {
    let mut cache = ArpCache::new();
    cache.add(Ipv4Addr::new(10, 0, 0, 2), MacAddr::new(0, 0, 0, 0, 0, 2), 100);
    cache.add(Ipv4Addr::new(10, 0, 0, 3), MacAddr::new(0, 0, 0, 0, 0, 3), 300);

    let mut first = cache.iter();
    cache.add(Ipv4Addr::new(10, 0, 0, 4), MacAddr::new(0, 0, 0, 0, 0, 4), 400);
    assert_eq!(first.next().map(|e| e.ipv4), Some(Ipv4Addr::new(10, 0, 0, 2)));
    assert_eq!(first.next().map(|e| e.ipv4), Some(Ipv4Addr::new(10, 0, 0, 3)));
    assert_eq!(first.next(), None);
    assert_eq!(first.next(), None);

    let mut second = cache.iter();
    let mut seen = Vec::new();
    while let Some(entry) = second.next() {
        seen.push(entry);
    }
    assert_eq!(seen, cache.entries());
    assert_eq!(seen.len(), 3);

    let mut direct = ArpCacheIterator::from(seen.clone());
    assert_eq!(direct.next(), Some(seen[0]));

    let mut used_up = cache.into_iter();
    assert_eq!(used_up.next(), Some(seen[0]));
}

#[test]
fn scan_of_a_24_bit_range_finds_the_station_that_replied() {
    let range = Ipv4Cidr::new(Ipv4Addr::new(192, 168, 0, 0), 24).unwrap();
    let mut manager = ArpManager::new(range, "wlp4s0");
    assert_eq!(manager.ifname(), "wlp4s0");

    let targets = manager.scan_targets();
    assert_eq!(targets.len(), 254);
    assert!(targets.contains(&Ipv4Addr::new(192, 168, 0, 5)));

    // What the listener collects while the requests go out.
    let station = [0xaa, 0xbb, 0xcc, 0xdd, 0xee, 0x01];
    let arrivals = vec![
        reply_from(LOCAL_MAC, LOCAL_IP),
        vec![0u8; 20],
        reply_from(station, [192, 168, 0, 5]),
    ];
    let mut found = Vec::new();
    for (at, frame) in arrivals.into_iter().enumerate() {
        let event = ListenEvent::Frame { frame, channel_closed: false, now: 1_000 + at as u64 };
        if let ListenAction::Send(entry) = listen_step(&event, local_mac()) {
            found.push(entry);
        }
    }
    assert_eq!(found.len(), 1);
    manager.update(found);

    assert_eq!(manager.lookup_mac(MacAddr::from(station)), Some(Ipv4Addr::new(192, 168, 0, 5)));
    assert_eq!(manager.lookup_mac(local_mac()), None);
    let mut cache = manager.cache();
    let entry = cache.next().unwrap();
    assert_eq!(entry.ipv4, Ipv4Addr::new(192, 168, 0, 5));
    assert_eq!(entry.mac, MacAddr::from(station));
    assert_eq!(cache.next(), None);
}

#[test]
fn renewal_probes_the_stale_entries_and_replaces_the_cache() {
    let range = Ipv4Cidr::new(Ipv4Addr::new(192, 168, 0, 0), 24).unwrap();
    let mut manager = ArpManager::with_refresh(range, "wlan0", 1_000);
    manager.update(vec![
        ArpCacheEntry::new(Ipv4Addr::new(192, 168, 0, 5), MacAddr::new(0, 0, 0, 0, 0, 5), 0),
        ArpCacheEntry::new(Ipv4Addr::new(192, 168, 0, 6), MacAddr::new(0, 0, 0, 0, 0, 6), 900),
    ]);
    assert!(manager.refresh_targets(999).is_empty());
    assert_eq!(manager.refresh_targets(1_000), vec![Ipv4Addr::new(192, 168, 0, 5)]);
    assert_eq!(
        manager.refresh_targets(1_900),
        vec![Ipv4Addr::new(192, 168, 0, 5), Ipv4Addr::new(192, 168, 0, 6)]
    );

    // What the renewal found replaces the cache wholesale: the entry
    // that was not stale is gone with the rest.
    manager.update(vec![ArpCacheEntry::new(
        Ipv4Addr::new(192, 168, 0, 5),
        MacAddr::new(0, 0, 0, 0, 0, 5),
        1_000,
    )]);
    assert_eq!(manager.lookup_mac(MacAddr::new(0, 0, 0, 0, 0, 6)), None);
    assert_eq!(manager.lookup_mac(MacAddr::new(0, 0, 0, 0, 0, 5)), Some(Ipv4Addr::new(192, 168, 0, 5)));

    // The default interval is two minutes.
    let manager = ArpManager::new(range, "wlan0");
    assert!(manager.refresh_targets(u64::MAX).is_empty());
}
