//! Devices connected to the access point.

use vstd::prelude::*;

use crate::arp::cache::first_with_mac;
use crate::arp::manager::ArpManager;
use crate::ipv4::Ipv4Addr;
use crate::mac::MacAddr;

verus! {

/// The byte `b` read as a signed number in two's complement.
pub open spec fn signed_byte(b: u8) -> int {
    if b < 0x80 {
        b as int
    } else {
        b - 0x100
    }
}

/// The 32-bit number whose four bytes are `bytes`, lowest byte first.
pub open spec fn le32(bytes: Seq<u8>) -> int {
    bytes[0] + bytes[1] * 0x100 + bytes[2] * 0x1_0000 + bytes[3] * 0x100_0000
}

/// `nl80211::parse_i8` reads its one byte as a signed number. On input of
/// any other length it panics.
pub assume_specification[ nl80211::parse_i8 ](input: &Vec<u8>) -> (value: i8)
    requires
        input@.len() == 1,
    ensures
        value == signed_byte(input@[0]),
;

/// `nl80211::parse_u32` reads its four bytes as a number, lowest byte
/// first. On input of any other length it panics.
pub assume_specification[ nl80211::parse_u32 ](input: &Vec<u8>) -> (value: u32)
    requires
        input@.len() == 4,
    ensures
        value == le32(input@),
;

/// What the wireless interface reports of a station, as raw attribute
/// values; an attribute that was not reported is absent.
#[derive(Clone, Debug)]
pub struct Station {
    /// Link address of the station: six octets.
    pub bssid: Option<Vec<u8>>,
    /// Signal strength of the last frame received, in dBm: one signed
    /// byte.
    pub signal: Option<Vec<u8>>,
    /// Time since the station connected, in seconds: four bytes, lowest
    /// first.
    pub connected_time: Option<Vec<u8>>,
}

/// Information about a connected network device.
#[derive(Clone, Copy, Debug)]
pub struct Device {
    /// MAC address of the device.
    pub mac: [u8; 6],
    /// IPv4 address of the device.
    pub ipv4: Ipv4Addr,
    /// Signal strength of last received signal, in dBm.
    pub signal_strength: i8,
    /// Time since the device was connected, in seconds.
    pub connection_time: u32,
}

/// The link address that a station reports: its six octets, or six zero
/// octets where it reports none or one of another length.
pub open spec fn reported_mac(bssid: Option<Vec<u8>>) -> Seq<u8> {
    match bssid {
        Some(octets) if octets@.len() == 6 => octets@,
        _ => seq![0u8, 0, 0, 0, 0, 0],
    }
}

/// The address that a device has in the cache: that of the first entry
/// with its MAC address, or `0.0.0.0` where there is none.
pub open spec fn resolved_address(arp: ArpManager, mac: Seq<u8>) -> Ipv4Addr {
    match first_with_mac(
        arp.entries(),
        MacAddr(mac[0], mac[1], mac[2], mac[3], mac[4], mac[5]),
    ) {
        Some(ipv4) => ipv4,
        None => Ipv4Addr { bits: 0 },
    }
}

impl Device {
    /// The device that `station` is, with its IPv4 address looked up in
    /// the cache of `arp`. The station must report its signal strength
    /// and its connection time.
    pub fn from_station(station: Station, arp: &ArpManager) -> (device: Device)
        requires
            station.signal matches Some(signal) && signal@.len() == 1,
            station.connected_time matches Some(time) && time@.len() == 4,
        ensures
            device.mac@ == reported_mac(station.bssid),
            device.ipv4 == resolved_address(*arp, device.mac@),
            device.signal_strength == signed_byte(station.signal.unwrap()@[0]),
            device.connection_time == le32(station.connected_time.unwrap()@),
    {
        let mac: [u8; 6] = match &station.bssid {
            Some(octets) if octets.len() == 6 => [
                octets[0],
                octets[1],
                octets[2],
                octets[3],
                octets[4],
                octets[5],
            ],
            _ => [0, 0, 0, 0, 0, 0],
        };
        assert(mac@ =~= reported_mac(station.bssid));
        let ipv4 = match arp.lookup_mac(MacAddr::from(mac)) {
            Some(ipv4) => ipv4,
            None => Ipv4Addr::new(0, 0, 0, 0),
        };
        let signal_strength = nl80211::parse_i8(station.signal.as_ref().unwrap());
        let connection_time = nl80211::parse_u32(station.connected_time.as_ref().unwrap());
        Device { mac, ipv4, signal_strength, connection_time }
    }
}

} // verus!
