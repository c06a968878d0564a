//! Addresses, blocks and hotspot configurations as text.

use proton::text::{parse_address, parse_cidr};
use proton::{HotspotConfig, Ipv4Addr, Ipv4Cidr, ProtonError};

/// The octets that the standard library reads from a dotted quad.
fn std_octets(text: &str) -> Option<[u8; 4]> {
    text.parse().ok().map(|ip| cidr::Ipv4Cidr::new_host(ip).first_address().octets())
}

#[test]
fn address_text_is_a_dotted_quad() {
    assert_eq!(Ipv4Addr::new(192, 168, 0, 1).to_string(), "192.168.0.1");
    assert_eq!(Ipv4Addr::new(0, 0, 0, 0).to_string(), "0.0.0.0");
    assert_eq!(Ipv4Addr::new(255, 255, 255, 255).to_string(), "255.255.255.255");
    assert_eq!(Ipv4Addr::new(10, 9, 100, 99).to_string(), "10.9.100.99");
}

#[test]
fn block_text_is_address_slash_length() {
    let range = Ipv4Cidr::new(Ipv4Addr::new(192, 168, 0, 0), 24).unwrap();
    assert_eq!(range.to_string(), "192.168.0.0/24");
    let host = Ipv4Cidr::new(Ipv4Addr::new(10, 1, 2, 3), 32).unwrap();
    assert_eq!(host.to_string(), "10.1.2.3/32");
    let all = Ipv4Cidr::new(Ipv4Addr::new(0, 0, 0, 0), 0).unwrap();
    assert_eq!(all.to_string(), "0.0.0.0/0");
}

#[test]
fn parses_dotted_quads() {
    assert_eq!(parse_address("192.168.0.1"), Some(Ipv4Addr::new(192, 168, 0, 1)));
    assert_eq!(parse_address("0.0.0.0"), Some(Ipv4Addr::new(0, 0, 0, 0)));
    assert_eq!(parse_address("255.255.255.255"), Some(Ipv4Addr::new(255, 255, 255, 255)));
    assert_eq!(parse_address("1.22.233.4"), Some(Ipv4Addr::new(1, 22, 233, 4)));
}

#[test]
fn refuses_what_is_no_dotted_quad() {
    for text in [
        "", ".", "...", "1.2.3", "1.2.3.4.5", "1.2.3.", ".1.2.3", "1..2.3", "256.1.1.1",
        "1.1.1.256", "01.1.1.1", "1.1.1.00", "1.1.1.1 ", " 1.1.1.1", "1.1.1.a", "1.1.1.-1",
        "1.1.1.+1", "1111.1.1.1", "1.1.1.1/24", "1,1,1,1", "١.١.١.١", "999.999.999.999",
    ] {
        assert_eq!(parse_address(text), None);
    }
}

#[test]
fn reads_addresses_as_the_standard_library_does() {
    let pieces = ["", "0", "00", "1", "01", "9", "10", "99", "100", "255", "256", "300", "1000", "a", "+1", " 1"];
    for a in pieces {
        for b in ["0", "7", "255", "256", "", "08"] {
            for tail in ["", ".", ".0", ".1.2", "x"] {
                let text = format!("{}.{}.3.4{}", a, b, tail);
                assert_eq!(parse_address(&text).map(|ip| ip.octets()), std_octets(&text));
                let text = format!("9.{}.{}{}", a, b, tail);
                assert_eq!(parse_address(&text).map(|ip| ip.octets()), std_octets(&text));
            }
        }
    }
}

#[test]
fn address_text_reads_back() {
    for bits in [0u32, 1, 255, 256, 0x0a00_0001, 0xc0a8_0005, 0x7f00_0001, 0xffff_ffff, 0x6463_0a09] {
        let ip = Ipv4Addr::from_bits(bits);
        assert_eq!(parse_address(&ip.to_string()), Some(ip));
    }
}

#[test]
fn parses_blocks() {
    let range = parse_cidr("192.168.0.0/24").unwrap();
    assert_eq!(range.first_address(), Ipv4Addr::new(192, 168, 0, 0));
    assert_eq!(range.network_length(), 24);

    let host = parse_cidr("10.1.2.3/32").unwrap();
    assert_eq!(host.network_length(), 32);

    // The prefix length is read as an unsigned number is.
    assert_eq!(parse_cidr("10.0.0.0/+8").map(|c| c.network_length()), Some(8));
    assert_eq!(parse_cidr("10.0.0.0/008").map(|c| c.network_length()), Some(8));
    // What follows a second slash is not looked at.
    assert_eq!(parse_cidr("10.0.0.0/8/x").map(|c| c.network_length()), Some(8));
}

#[test]
fn refuses_what_is_no_block() {
    for text in [
        "", "/", "192.168.0.0", "192.168.0.0/", "/24", "192.168.0.0/33", "192.168.0.1/24",
        "192.168.0.0/256", "192.168.0.0/-1", "192.168.0.0/2a", "192.168.0/24",
        "192.168.0.0 /24", "192.168.0.0/ 24", "192.168.0.0//24", "192.168.0.0/+", "a/b",
    ] {
        assert!(parse_cidr(text).is_none());
    }
}

#[test]
fn reads_prefix_lengths_as_the_standard_library_does() {
    for text in ["0", "8", "24", "32", "33", "255", "256", "+0", "+32", "++1", "-1", "", "+", "0032", "3 2", "32 ", "٣"] {
        let ours = parse_cidr(&format!("0.0.0.0/{}", text)).map(|c| c.network_length());
        let theirs = text.parse::<u8>().ok().filter(|n| *n <= 32);
        assert_eq!(ours, theirs);
        let ours = parse_cidr(&format!("1.2.3.5/{}", text)).map(|c| c.network_length());
        let theirs = text.parse::<u8>().ok().filter(|n| *n == 32);
        assert_eq!(ours, theirs);
    }
}

fn config(cidr: &str, gateway: &str, band: &str) -> HotspotConfig {
    HotspotConfig::from((
        "proton".to_string(),
        "correct horse".to_string(),
        cidr.to_string(),
        gateway.to_string(),
        "wpa2".to_string(),
        band.to_string(),
    ))
}

#[test]
fn hotspot_config_from_texts() {
    let hotspot = config("10.0.0.0/8", "10.0.0.1", "5");
    assert_eq!(hotspot.ssid, "proton");
    assert_eq!(hotspot.pass, "correct horse");
    assert_eq!(hotspot.security, "wpa2");
    assert_eq!(hotspot.band, "a");
    assert_eq!(hotspot.gateway, Ipv4Addr::new(10, 0, 0, 1));
    assert_eq!(hotspot.cidr.first_address(), Ipv4Addr::new(10, 0, 0, 0));
    assert_eq!(hotspot.cidr.network_length(), 8);
    assert!(hotspot.check_gateway().is_ok());
}

#[test]
fn hotspot_config_falls_back_to_defaults() {
    let hotspot = config("ten dot eight", "nowhere", "60");
    assert_eq!(hotspot.band, "bg");
    assert_eq!(hotspot.gateway, Ipv4Addr::new(192, 168, 0, 1));
    assert_eq!(hotspot.cidr.to_string(), "192.168.0.0/24");
    assert!(hotspot.check_gateway().is_ok());

    assert_eq!(config("10.0.0.0/8", "10.0.0.1", "2.4").band, "bg");
    assert_eq!(config("10.0.0.0/8", "10.0.0.1", "").band, "bg");
    assert_eq!(config("10.0.0.0/8", "10.0.0.1", "5 ").band, "bg");
    // A range whose address is not the first of its block is no range.
    assert_eq!(config("10.0.0.1/8", "10.0.0.1", "5").cidr.to_string(), "192.168.0.0/24");
}

#[test]
fn hotspot_gateway_must_lie_in_the_range() {
    let hotspot = config("192.168.0.0/24", "10.0.0.1", "2.4");
    match hotspot.check_gateway() {
        Err(ProtonError::CidrMustContainGateway { cidr, gateway }) => {
            assert_eq!(cidr, "192.168.0.0/24");
            assert_eq!(gateway, "10.0.0.1");
        }
        _ => panic!("the gateway lies outside the range"),
    }
    let error = hotspot.check_gateway().unwrap_err();
    assert_eq!(
        error.to_string(),
        "provided CIDR range 192.168.0.0/24 does not contain gateway IPv4 10.0.0.1"
    );
}
