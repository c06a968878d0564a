//! Blocks of addresses.

use proton::{CidrError, Ipv4Addr, Ipv4Cidr};

#[test]
fn ipv4_octets_and_bits() {
    let ip = Ipv4Addr::new(192, 168, 0, 5);
    assert_eq!(ip.to_bits(), 0xc0a8_0005);
    assert_eq!(ip.octets(), [192, 168, 0, 5]);
    assert_eq!(Ipv4Addr::from_bits(0x0a00_0001), Ipv4Addr::new(10, 0, 0, 1));
    assert_eq!(Ipv4Addr::new(255, 255, 255, 255).to_bits(), u32::MAX);
    assert_eq!(Ipv4Addr::from_bits(0).octets(), [0, 0, 0, 0]);
}

#[test]
fn block_of_24_bits_has_254_hosts() {
    let range = Ipv4Cidr::new(Ipv4Addr::new(192, 168, 0, 0), 24).unwrap();
    assert_eq!(range.first_address(), Ipv4Addr::new(192, 168, 0, 0));
    assert_eq!(range.last_address(), Ipv4Addr::new(192, 168, 0, 255));
    assert_eq!(range.network_length(), 24);

    let hosts = range.hosts();
    assert_eq!(hosts.len(), 254);
    assert_eq!(hosts[0], Ipv4Addr::new(192, 168, 0, 1));
    assert_eq!(hosts[4], Ipv4Addr::new(192, 168, 0, 5));
    assert_eq!(hosts[253], Ipv4Addr::new(192, 168, 0, 254));
    assert!(!hosts.contains(&range.first_address()));
    assert!(!hosts.contains(&range.last_address()));
}

#[test]
fn smallest_blocks_have_no_hosts() {
    let single = Ipv4Cidr::new(Ipv4Addr::new(10, 1, 2, 3), 32).unwrap();
    assert_eq!(single.first_address(), single.last_address());
    assert!(single.hosts().is_empty());

    let pair = Ipv4Cidr::new(Ipv4Addr::new(10, 1, 2, 2), 31).unwrap();
    assert_eq!(pair.last_address(), Ipv4Addr::new(10, 1, 2, 3));
    assert!(pair.hosts().is_empty());

    let four = Ipv4Cidr::new(Ipv4Addr::new(10, 1, 2, 4), 30).unwrap();
    assert_eq!(four.hosts(), vec![Ipv4Addr::new(10, 1, 2, 5), Ipv4Addr::new(10, 1, 2, 6)]);
}

#[test]
fn block_at_the_top_of_the_address_space() {
    let top = Ipv4Cidr::new(Ipv4Addr::new(255, 255, 255, 0), 24).unwrap();
    assert_eq!(top.last_address(), Ipv4Addr::new(255, 255, 255, 255));
    assert!(top.contains(&Ipv4Addr::new(255, 255, 255, 255)));
    assert_eq!(top.hosts().len(), 254);

    let all = Ipv4Cidr::new(Ipv4Addr::new(0, 0, 0, 0), 0).unwrap();
    assert_eq!(all.last_address(), Ipv4Addr::new(255, 255, 255, 255));
    assert!(all.contains(&Ipv4Addr::new(1, 2, 3, 4)));
}

#[test]
fn contains_the_addresses_of_the_block_only() {
    let range = Ipv4Cidr::new(Ipv4Addr::new(172, 16, 8, 0), 22).unwrap();
    assert!(range.contains(&Ipv4Addr::new(172, 16, 8, 0)));
    assert!(range.contains(&Ipv4Addr::new(172, 16, 11, 255)));
    assert!(range.contains(&Ipv4Addr::new(172, 16, 10, 17)));
    assert!(!range.contains(&Ipv4Addr::new(172, 16, 7, 255)));
    assert!(!range.contains(&Ipv4Addr::new(172, 16, 12, 0)));
    assert_eq!(range.hosts().len(), 1022);
}

#[test]
fn refuses_long_prefix_and_set_host_bits() {
    assert_eq!(
        Ipv4Cidr::new(Ipv4Addr::new(192, 168, 0, 0), 33).err(),
        Some(CidrError::NetworkLengthTooLong)
    );
    assert_eq!(
        Ipv4Cidr::new(Ipv4Addr::new(192, 168, 0, 1), 24).err(),
        Some(CidrError::InvalidHostPart)
    );
    assert_eq!(
        Ipv4Cidr::new(Ipv4Addr::new(0, 0, 0, 1), 0).err(),
        Some(CidrError::InvalidHostPart)
    );
    assert!(Ipv4Cidr::new(Ipv4Addr::new(192, 168, 0, 1), 32).is_ok());
    assert_eq!(
        Ipv4Cidr::new(Ipv4Addr::new(10, 0, 0, 0), 8),
        Ipv4Cidr::new(Ipv4Addr::from_bits(0x0a00_0000), 8)
    );
    assert_ne!(
        Ipv4Cidr::new(Ipv4Addr::new(10, 0, 0, 0), 8),
        Ipv4Cidr::new(Ipv4Addr::new(10, 0, 0, 0), 9)
    );
}

#[test]
fn agrees_with_the_cidr_crate() {
    let cases: [([u8; 4], u8); 6] = [
        ([192, 168, 0, 0], 24),
        ([10, 0, 0, 0], 8),
        ([10, 0, 0, 1], 8),
        ([172, 16, 8, 0], 22),
        ([1, 2, 3, 4], 32),
        ([1, 2, 3, 4], 40),
    ];
    for (octets, length) in cases {
        let ours = Ipv4Cidr::new(Ipv4Addr::new(octets[0], octets[1], octets[2], octets[3]), length);
        let theirs = cidr::Ipv4Cidr::new(octets.into(), length);
        assert_eq!(ours.is_ok(), theirs.is_ok());
        if let (Ok(ours), Ok(theirs)) = (ours, theirs) {
            assert_eq!(ours.first_address().octets(), theirs.first_address().octets());
            assert_eq!(ours.last_address().octets(), theirs.last_address().octets());
            let probe = [octets[0], octets[1], octets[2], octets[3].wrapping_add(7)];
            assert_eq!(
                ours.contains(&Ipv4Addr::new(probe[0], probe[1], probe[2], probe[3])),
                theirs.contains(&probe.into())
            );
        }
    }
}
