//! IPv4 addresses and transport endpoints as plain values.

use vstd::prelude::*;

verus! {

/// An IPv4 address, held as its 32-bit value with the first octet in the
/// most significant position.
#[derive(PartialEq, Eq, Structural, Clone, Copy, Debug, Hash)]
pub struct Ipv4Addr {
    pub bits: u32,
}

/// The 32-bit value of the address `a.b.c.d`.
pub open spec fn octets_to_bits(a: u8, b: u8, c: u8, d: u8) -> int {
    a * 0x100_0000 + b * 0x1_0000 + c * 0x100 + d
}

impl Ipv4Addr {
    /// The four octets of the address, first octet first.
    pub open spec fn octets_spec(self) -> Seq<u8> {
        seq![
            (self.bits / 0x100_0000) as u8,
            (self.bits / 0x1_0000 % 0x100) as u8,
            (self.bits / 0x100 % 0x100) as u8,
            (self.bits % 0x100) as u8,
        ]
    }

    /// The address `a.b.c.d`.
    pub fn new(a: u8, b: u8, c: u8, d: u8) -> (ip: Ipv4Addr)
        ensures
            ip.bits == octets_to_bits(a, b, c, d),
            ip.octets_spec() == seq![a, b, c, d],
    {
        let bits: u32 = (a as u32) * 0x100_0000 + (b as u32) * 0x1_0000 + (c as u32) * 0x100
            + d as u32;
        let ip = Ipv4Addr { bits };
        proof {
            lemma_bits_of_octets(a, b, c, d);
            assert(ip.octets_spec() =~= seq![a, b, c, d]);
        }
        ip
    }

    /// The address with the given 32-bit value.
    pub fn from_bits(bits: u32) -> (ip: Ipv4Addr)
        ensures
            ip.bits == bits,
    {
        Ipv4Addr { bits }
    }

    /// The 32-bit value of the address.
    pub fn to_bits(&self) -> (bits: u32)
        ensures
            bits == self.bits,
    {
        self.bits
    }

    /// The four octets of the address, first octet first.
    pub fn octets(&self) -> (octets: [u8; 4])
        ensures
            octets@ == self.octets_spec(),
            self.bits == octets_to_bits(octets[0], octets[1], octets[2], octets[3]),
    {
        let a: u8 = (self.bits / 0x100_0000) as u8;
        let b: u8 = (self.bits / 0x1_0000 % 0x100) as u8;
        let c: u8 = (self.bits / 0x100 % 0x100) as u8;
        let d: u8 = (self.bits % 0x100) as u8;
        let octets = [a, b, c, d];
        proof {
            lemma_octets_of_bits(self.bits);
            assert(octets@ =~= self.octets_spec());
        }
        octets
    }
}

/// An IPv4 transport endpoint: an address and a port.
#[derive(PartialEq, Eq, Structural, Clone, Copy, Debug, Hash)]
pub struct SocketAddrV4 {
    pub ip: Ipv4Addr,
    pub port: u16,
}

impl SocketAddrV4 {
    /// The endpoint at `port` of `ip`.
    pub fn new(ip: Ipv4Addr, port: u16) -> (socket: SocketAddrV4)
        ensures
            socket == (SocketAddrV4 { ip, port }),
    {
        SocketAddrV4 { ip, port }
    }

    /// The address of the endpoint.
    pub fn ip(&self) -> (ip: Ipv4Addr)
        ensures
            ip == self.ip,
    {
        self.ip
    }

    /// The port of the endpoint.
    pub fn port(&self) -> (port: u16)
        ensures
            port == self.port,
    {
        self.port
    }
}

/// The octets of the 32-bit value built from `a.b.c.d` are `a`, `b`, `c`
/// and `d`.
pub proof fn lemma_bits_of_octets(a: u8, b: u8, c: u8, d: u8)
    ensures
        0 <= octets_to_bits(a, b, c, d) <= u32::MAX,
        octets_to_bits(a, b, c, d) / 0x100_0000 == a,
        octets_to_bits(a, b, c, d) / 0x1_0000 % 0x100 == b,
        octets_to_bits(a, b, c, d) / 0x100 % 0x100 == c,
        octets_to_bits(a, b, c, d) % 0x100 == d,
{
    let n = octets_to_bits(a, b, c, d);
    assert(n == (a * 0x100 + b) * 0x1_0000 + (c * 0x100 + d));
    assert(n / 0x1_0000 == a * 0x100 + b);
    assert(n == ((a * 0x100 + b) * 0x100 + c) * 0x100 + d);
    assert(n / 0x100 == (a * 0x100 + b) * 0x100 + c);
}

/// Putting the octets of a 32-bit value together again gives the value
/// back.
pub proof fn lemma_octets_of_bits(bits: u32)
    ensures
        bits == octets_to_bits(
            (bits / 0x100_0000) as u8,
            (bits / 0x1_0000 % 0x100) as u8,
            (bits / 0x100 % 0x100) as u8,
            (bits % 0x100) as u8,
        ),
{
    let hi = bits / 0x1_0000;
    let lo = bits % 0x1_0000;
    assert(bits == hi * 0x1_0000 + lo);
    assert(hi == (hi / 0x100) * 0x100 + hi % 0x100);
    assert(lo == (lo / 0x100) * 0x100 + lo % 0x100);
    assert(bits / 0x100_0000 == hi / 0x100);
    assert(bits / 0x100 % 0x100 == lo / 0x100);
    assert(bits % 0x100 == lo % 0x100);
}

/// Splitting an address into octets and putting them together again gives
/// the address back.
pub proof fn law_octets_round_trip(ip: Ipv4Addr)
    ensures
        ip.octets_spec().len() == 4,
        ip.bits == octets_to_bits(
            ip.octets_spec()[0],
            ip.octets_spec()[1],
            ip.octets_spec()[2],
            ip.octets_spec()[3],
        ),
{
    lemma_octets_of_bits(ip.bits);
}

} // verus!
