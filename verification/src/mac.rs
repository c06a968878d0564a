//! Hardware (MAC) addresses.

use vstd::prelude::*;
use vstd::std_specs::convert::FromSpecImpl;

use crate::hex::{hex_pair, push_hex};

verus! {

/// A hardware (MAC) address consisting of six octets.
#[derive(PartialEq, Eq, Structural, Clone, Copy, Debug, Hash)]
pub struct MacAddr(pub u8, pub u8, pub u8, pub u8, pub u8, pub u8);

impl MacAddr {
    /// The six octets in transmission order.
    pub open spec fn octets_spec(self) -> Seq<u8> {
        seq![self.0, self.1, self.2, self.3, self.4, self.5]
    }

    /// The address as text: each octet as two lower-case hexadecimal
    /// digits, with colons in between.
    pub open spec fn text(self) -> Seq<char> {
        hex_pair(self.0) + seq![':'] + hex_pair(self.1) + seq![':'] + hex_pair(self.2) + seq![':']
            + hex_pair(self.3) + seq![':'] + hex_pair(self.4) + seq![':'] + hex_pair(self.5)
    }

    /// The six octets in transmission order.
    pub fn octets(&self) -> (octets: [u8; 6])
        ensures
            octets@ == self.octets_spec(),
    {
        let octets = [self.0, self.1, self.2, self.3, self.4, self.5];
        assert(octets@ =~= self.octets_spec());
        octets
    }

    /// The address as text, such as `12:34:56:78:90:ab`.
    pub fn to_string(&self) -> (text: String)
        ensures
            text@ == self.text(),
    {
        let mut text = String::new();
        push_hex(&mut text, self.0);
        text.push(':');
        push_hex(&mut text, self.1);
        text.push(':');
        push_hex(&mut text, self.2);
        text.push(':');
        push_hex(&mut text, self.3);
        text.push(':');
        push_hex(&mut text, self.4);
        text.push(':');
        push_hex(&mut text, self.5);
        assert(text@ =~= self.text());
        text
    }

    /// The address with the six octets given.
    pub fn new(a: u8, b: u8, c: u8, d: u8, e: u8, f: u8) -> (mac: MacAddr)
        ensures
            mac == MacAddr(a, b, c, d, e, f),
    {
        MacAddr(a, b, c, d, e, f)
    }

    /// The address to which every station on a link listens.
    pub fn broadcast() -> (mac: MacAddr)
        ensures
            mac == MacAddr(0xff, 0xff, 0xff, 0xff, 0xff, 0xff),
    {
        MacAddr(0xff, 0xff, 0xff, 0xff, 0xff, 0xff)
    }

    /// The all-zero address, used where no hardware address is known yet.
    pub fn zero() -> (mac: MacAddr)
        ensures
            mac == MacAddr(0, 0, 0, 0, 0, 0),
    {
        MacAddr(0, 0, 0, 0, 0, 0)
    }
}

impl From<[u8; 6]> for MacAddr {
    fn from(octets: [u8; 6]) -> (mac: Self) {
        MacAddr(octets[0], octets[1], octets[2], octets[3], octets[4], octets[5])
    }
}

impl FromSpecImpl<[u8; 6]> for MacAddr {
    open spec fn obeys_from_spec() -> bool {
        true
    }

    open spec fn from_spec(octets: [u8; 6]) -> Self {
        MacAddr(octets[0], octets[1], octets[2], octets[3], octets[4], octets[5])
    }
}

} // verus!
