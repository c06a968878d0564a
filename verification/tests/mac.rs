//! MAC addresses and the policies over them.

use pnet::datalink::MacAddr as PnetMac;

use proton::mac_policy::PolicyResult;
use proton::{MacAddr, MacAddrPolicy, MacAddrPolicyError};

#[test]
fn display_mac_addr() {
    // Construct a MAC address
    let mac: MacAddr = [0x12, 0x34, 0x56, 0x78, 0x90, 0xab].into();

    // The text of this address
    let mac_string = mac.to_string();

    assert_eq!(&mac_string, "12:34:56:78:90:ab");
}

#[test]
fn debug_mac_addr() {
    // Construct a MAC address
    let mac: MacAddr = [0x12, 0x34, 0x56, 0x78, 0x90, 0xab].into();

    // The text of this address
    let mac_string = mac.to_string();

    assert_eq!(&mac_string, "12:34:56:78:90:ab");
}

#[test]
fn from_pnet_mac() {
    // Construct a `libpnet` MAC address
    let mac: PnetMac = PnetMac::new(0x12, 0x34, 0x56, 0x78, 0x90, 0xab);

    // Convert this into a native MAC address
    let native_mac: MacAddr = mac.octets().into();

    let ref_mac: MacAddr = [0x12, 0x34, 0x56, 0x78, 0x90, 0xab].into();

    assert_eq!(native_mac, ref_mac);
}

#[test]
fn mac_text_pads_each_octet_to_two_digits() {
    assert_eq!(MacAddr::new(0, 1, 0x0a, 0xf0, 0xff, 9).to_string(), "00:01:0a:f0:ff:09");
    assert_eq!(MacAddr::broadcast().to_string(), "ff:ff:ff:ff:ff:ff");
    assert_eq!(MacAddr::zero().to_string(), "00:00:00:00:00:00");
}

#[test]
fn mac_text_agrees_with_pnet() {
    let octets = [0xde, 0xad, 0xbe, 0xef, 0x00, 0x7f];
    let native: MacAddr = octets.into();
    let theirs = PnetMac::new(octets[0], octets[1], octets[2], octets[3], octets[4], octets[5]);
    assert_eq!(native.to_string(), format!("{}", theirs));
    assert_eq!(native.octets(), theirs.octets());
}

#[test]
fn create_public_mac_policy() {
    // Create a public MAC address policy
    let policy = MacAddrPolicy::public();

    // Define arbitrary MAC addresses
    let mac1 = MacAddr::new(32, 103, 244, 102, 34, 1);
    let mac2 = MacAddr::new(250, 33, 39, 3, 48, 73);
    let mac3 = MacAddr::new(49, 123, 86, 38, 20, 67);

    // Check MAC addresses
    assert!(policy.check(mac1));
    assert!(policy.check(mac2));
    assert!(policy.check(mac3));
}

#[test]
fn create_whitelist_mac_policy() {
    // Create a whitelist MAC address policy
    let mut policy = MacAddrPolicy::whitelist();

    // Define arbitrary MAC addresses
    let mac1 = MacAddr::new(32, 103, 244, 102, 34, 1);
    let mac2 = MacAddr::new(250, 33, 39, 3, 48, 73);
    let mac3 = MacAddr::new(49, 123, 86, 38, 20, 67);

    // Allow one address on the policy
    let result = policy.allow(mac1);

    // Check for successful whitelisting
    assert_eq!(result, Ok(()));

    // Check MAC addresses
    assert!(policy.check(mac1));
    assert!(!policy.check(mac2));
    assert!(!policy.check(mac3));
}

#[test]
fn create_blacklist_mac_policy() {
    // Create a blacklist MAC address policy
    let mut policy = MacAddrPolicy::blacklist();

    // Define arbitrary MAC addresses
    let mac1 = MacAddr::new(32, 103, 244, 102, 34, 1);
    let mac2 = MacAddr::new(250, 33, 39, 3, 48, 73);
    let mac3 = MacAddr::new(49, 123, 86, 38, 20, 67);

    // Deny one address on the policy
    let result = policy.deny(mac1);

    // Check for successful blacklisting
    assert_eq!(result, Ok(()));

    // Check MAC addresses
    assert!(!policy.check(mac1));
    assert!(policy.check(mac2));
    assert!(policy.check(mac3));
}

#[test]
fn policy_refuses_the_wrong_kind_of_entry() {
    let mac = MacAddr::new(1, 2, 3, 4, 5, 6);

    let mut public = MacAddrPolicy::public();
    let denied: PolicyResult = public.deny(mac);
    assert_eq!(denied, Err(MacAddrPolicyError::NotBlacklistPolicy));
    assert_eq!(public.allow(mac), Err(MacAddrPolicyError::NotWhitelistPolicy));
    assert!(public.check(mac));

    let mut whitelist = MacAddrPolicy::whitelist();
    assert_eq!(whitelist.deny(mac), Err(MacAddrPolicyError::NotBlacklistPolicy));
    assert!(!whitelist.check(mac));

    let mut blacklist = MacAddrPolicy::blacklist();
    assert_eq!(blacklist.allow(mac), Err(MacAddrPolicyError::NotWhitelistPolicy));
    assert!(blacklist.check(mac));
}

#[test]
fn policy_error_messages() {
    assert_eq!(
        MacAddrPolicyError::NotWhitelistPolicy.to_string(),
        "cannot whitelist device on a non-whitelist policy"
    );
    assert_eq!(
        MacAddrPolicyError::NotBlacklistPolicy.to_string(),
        "cannot blacklist device on a non-blacklist policy"
    );
}
