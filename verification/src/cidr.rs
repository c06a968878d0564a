//! Contiguous blocks of IPv4 addresses given by a first address and a
//! prefix length.

use vstd::arithmetic::power2::{lemma2_to64, lemma_pow2_strictly_increases, lemma_pow2_unfold, pow2};
use vstd::prelude::*;

use crate::ipv4::Ipv4Addr;

verus! {

/// Why a first address and a prefix length name no block.
#[derive(PartialEq, Eq, Structural, Clone, Copy, Debug)]
pub enum CidrError {
    /// The prefix is longer than an address.
    NetworkLengthTooLong,
    /// The address is not the first of its block: a bit after the prefix
    /// is set.
    InvalidHostPart,
}

/// A block of IPv4 addresses: those that share the first `network_length`
/// bits of `address`.
#[derive(PartialEq, Eq, Structural, Clone, Copy, Debug)]
pub struct Ipv4Cidr {
    address: Ipv4Addr,
    network_length: u8,
}

/// Number of addresses in a block with the given prefix length.
pub open spec fn block_size(network_length: u8) -> nat {
    pow2((32 - network_length) as nat)
}

/// Whether `address` with `network_length` names a block, and if not, why.
pub open spec fn cidr_check(address: Ipv4Addr, network_length: u8) -> Result<(), CidrError> {
    if network_length > 32 {
        Err(CidrError::NetworkLengthTooLong)
    } else if address.bits as nat % block_size(network_length) != 0 {
        Err(CidrError::InvalidHostPart)
    } else {
        Ok(())
    }
}

/// The addresses of a block that starts at `first` and holds `size`
/// addresses, without the first and the last, in rising order.
pub open spec fn inner_addresses(first: nat, size: nat) -> Seq<Ipv4Addr> {
    Seq::new(
        if size >= 2 {
            (size - 2) as nat
        } else {
            0
        },
        |i: int| Ipv4Addr { bits: (first + 1 + i) as u32 },
    )
}

impl Ipv4Cidr {
    #[verifier::type_invariant]
    spec fn aligned(self) -> bool {
        cidr_check(self.address, self.network_length) is Ok
    }

    /// The first address of the block, as a number.
    pub closed spec fn first(self) -> nat {
        self.address.bits as nat
    }

    /// The length of the prefix that the addresses of the block share.
    pub closed spec fn prefix(self) -> u8 {
        self.network_length
    }

    /// The number of addresses in the block.
    pub open spec fn size(self) -> nat {
        block_size(self.prefix())
    }

    /// The last address of the block, as a number.
    pub open spec fn last(self) -> nat {
        (self.first() + self.size() - 1) as nat
    }

    /// Whether `ip` lies in the block.
    pub open spec fn contains_spec(self, ip: Ipv4Addr) -> bool {
        self.first() <= ip.bits <= self.last()
    }

    /// The addresses to probe: all of the block but its first, the
    /// network address, and its last, the broadcast address.
    pub open spec fn hosts_spec(self) -> Seq<Ipv4Addr> {
        inner_addresses(self.first(), self.size())
    }

    /// A block reaches no further than the last address there is.
    proof fn lemma_bounds(self)
        requires
            cidr_check(Ipv4Addr { bits: self.first() as u32 }, self.prefix()) is Ok,
        ensures
            self.prefix() <= 32,
            1 <= self.size() <= 0x1_0000_0000,
            self.first() + self.size() <= 0x1_0000_0000,
    {
        lemma_block_size_bounds(self.prefix());
        let size = self.size();
        let first = self.first();
        lemma2_to64();
        assert(pow2(32) == 0x1_0000_0000);
        lemma_block_divides(self.prefix());
        // first = size * q, 2^32 = size * m, first < 2^32, so q < m
        let q = first / size;
        let m = 0x1_0000_0000nat / size;
        assert(first == size * q) by {
            vstd::arithmetic::div_mod::lemma_fundamental_div_mod(first as int, size as int);
        }
        assert(0x1_0000_0000nat == size * m) by {
            vstd::arithmetic::div_mod::lemma_fundamental_div_mod(0x1_0000_0000int, size as int);
        }
        assert(q < m) by (nonlinear_arith)
            requires
                size * q < size * m,
                size > 0,
        ;
        assert(size * (q + 1) <= size * m) by (nonlinear_arith)
            requires
                q + 1 <= m,
                size > 0,
        ;
        assert(size * (q + 1) == size * q + size) by (nonlinear_arith);
    }

    /// The block of `network_length` leading bits that starts at
    /// `address`. Fails where the prefix is longer than 32 bits, and where
    /// `address` is not the first address of its block.
    pub fn new(address: Ipv4Addr, network_length: u8) -> (r: Result<Ipv4Cidr, CidrError>)
        ensures
            match r {
                Ok(cidr) => cidr_check(address, network_length) is Ok && cidr.first()
                    == address.bits && cidr.prefix() == network_length,
                Err(e) => cidr_check(address, network_length) == Err::<(), CidrError>(e),
            },
    {
        if network_length > 32 {
            return Err(CidrError::NetworkLengthTooLong);
        }
        let size = size_of_block(network_length);
        if address.bits as u64 % size != 0 {
            return Err(CidrError::InvalidHostPart);
        }
        Ok(Ipv4Cidr { address, network_length })
    }

    /// The first address of the block: the network address.
    pub fn first_address(&self) -> (ip: Ipv4Addr)
        ensures
            ip.bits == self.first(),
    {
        self.address
    }

    /// The last address of the block: the broadcast address.
    pub fn last_address(&self) -> (ip: Ipv4Addr)
        ensures
            ip.bits == self.last(),
    {
        proof {
            use_type_invariant(self);
            self.lemma_bounds();
        }
        let size = size_of_block(self.network_length);
        let last: u64 = self.address.bits as u64 + size - 1;
        Ipv4Addr { bits: last as u32 }
    }

    /// The length of the prefix that the addresses of the block share.
    pub fn network_length(&self) -> (n: u8)
        ensures
            n == self.prefix(),
            n <= 32,
    {
        proof {
            use_type_invariant(self);
        }
        self.network_length
    }

    /// Whether `ip` lies in the block.
    pub fn contains(&self, ip: &Ipv4Addr) -> (b: bool)
        ensures
            b == self.contains_spec(*ip),
    {
        proof {
            use_type_invariant(self);
            self.lemma_bounds();
        }
        let size = size_of_block(self.network_length);
        let first: u64 = self.address.bits as u64;
        first <= ip.bits as u64 && ip.bits as u64 <= first + size - 1
    }

    /// The addresses to probe, in rising order: all of the block but the
    /// network address and the broadcast address.
    pub fn hosts(&self) -> (targets: Vec<Ipv4Addr>)
        ensures
            targets@ == self.hosts_spec(),
    {
        proof {
            use_type_invariant(self);
            self.lemma_bounds();
        }
        let size = size_of_block(self.network_length);
        let first: u64 = self.address.bits as u64;
        let mut targets: Vec<Ipv4Addr> = Vec::new();
        if size < 2 {
            assert(targets@ =~= self.hosts_spec());
            return targets;
        }
        let last: u64 = first + size - 1;
        let mut next: u64 = first + 1;
        while next < last
            invariant
                first + 1 <= next <= last,
                last == first + size - 1,
                last < 0x1_0000_0000,
                size >= 2,
                size == self.size(),
                first == self.first(),
                targets@ == inner_addresses(first as nat, (next - first + 1) as nat),
            decreases last - next,
        {
            targets.push(Ipv4Addr { bits: next as u32 });
            next += 1;
            assert(targets@ =~= inner_addresses(first as nat, (next - first + 1) as nat));
        }
        targets
    }
}

/// Number of addresses in a block with the given prefix length.
fn size_of_block(network_length: u8) -> (size: u64)
    requires
        network_length <= 32,
    ensures
        size == block_size(network_length),
        1 <= size <= 0x1_0000_0000,
{
    let mut size: u64 = 1;
    let mut length: u8 = 32;
    proof {
        lemma2_to64();
    }
    while length > network_length
        invariant
            network_length <= length <= 32,
            size == block_size(length),
            1 <= size <= 0x1_0000_0000,
        decreases length,
    {
        proof {
            lemma_pow2_unfold((32 - length + 1) as nat);
            lemma_block_size_bounds((length - 1) as u8);
        }
        size = size * 2;
        length -= 1;
    }
    size
}

/// A block holds at least one address and at most all of them.
pub proof fn lemma_block_size_bounds(network_length: u8)
    requires
        network_length <= 32,
    ensures
        1 <= block_size(network_length) <= 0x1_0000_0000,
{
    lemma2_to64();
    vstd::arithmetic::power2::lemma_pow2_pos((32 - network_length) as nat);
    if network_length > 0 {
        lemma_pow2_strictly_increases((32 - network_length) as nat, 32);
    }
}

/// The size of a block divides the number of addresses there are.
pub proof fn lemma_block_divides(network_length: u8)
    requires
        network_length <= 32,
    ensures
        0x1_0000_0000nat % block_size(network_length) == 0,
{
    lemma2_to64();
    vstd::arithmetic::power2::lemma_pow2_adds((32 - network_length) as nat, network_length as nat);
    let size = block_size(network_length);
    let rest = pow2(network_length as nat);
    lemma_block_size_bounds(network_length);
    assert(0x1_0000_0000nat == size * rest);
    assert((size * rest) % size == 0) by {
        vstd::arithmetic::div_mod::lemma_mod_multiples_basic(rest as int, size as int);
    }
}

} // verus!
