//! The address resolution manager: the range to scan and the cache of
//! what the scans found.

use vstd::prelude::*;

use crate::arp::cache::{
    first_with_mac, stale_addresses, ArpCache, ArpCacheEntry, ArpCacheIterator,
    DEFAULT_ARP_REFRESH_TIME,
};
use crate::cidr::Ipv4Cidr;
use crate::ipv4::Ipv4Addr;
use crate::mac::MacAddr;

verus! {

/// An address resolution manager. It says which addresses a scan or a
/// renewal has to probe, and keeps what came back.
pub struct ArpManager {
    /// The CIDR range of the network.
    range: Ipv4Cidr,
    /// A correspondence between IPv4 addresses and MAC addresses.
    cache: ArpCache,
    /// The name of the network interface to be scanned.
    ifname: String,
    /// Age from which an entry is due for renewal, in milliseconds.
    refresh: u64,
}

impl ArpManager {
    /// The CIDR range of the network.
    pub closed spec fn range(&self) -> Ipv4Cidr {
        self.range
    }

    /// The entries of the cache, in order.
    pub closed spec fn entries(&self) -> Seq<ArpCacheEntry> {
        self.cache@
    }

    /// The name of the network interface.
    pub closed spec fn interface_name(&self) -> Seq<char> {
        self.ifname@
    }

    /// Age from which an entry is due for renewal.
    pub closed spec fn refresh_interval(&self) -> u64 {
        self.refresh
    }

    /// A manager for `range` on the interface `ifname`, with an empty
    /// cache and the default time to renewal.
    pub fn new(range: Ipv4Cidr, ifname: &str) -> (manager: ArpManager)
        ensures
            manager.range() == range,
            manager.entries() == Seq::<ArpCacheEntry>::empty(),
            manager.interface_name() == ifname@,
            manager.refresh_interval() == DEFAULT_ARP_REFRESH_TIME,
    {
        ArpManager::with_refresh(range, ifname, DEFAULT_ARP_REFRESH_TIME)
    }

    /// A manager for `range` on the interface `ifname`, with an empty
    /// cache, whose entries are due for renewal at the age `refresh`.
    pub fn with_refresh(range: Ipv4Cidr, ifname: &str, refresh: u64) -> (manager: ArpManager)
        ensures
            manager.range() == range,
            manager.entries() == Seq::<ArpCacheEntry>::empty(),
            manager.interface_name() == ifname@,
            manager.refresh_interval() == refresh,
    {
        ArpManager { range, cache: ArpCache::new(), ifname: ifname.to_owned(), refresh }
    }

    /// The name of the network interface.
    pub fn ifname(&self) -> (name: &str)
        ensures
            name@ == self.interface_name(),
    {
        self.ifname.as_str()
    }

    /// The addresses that a scan probes: every address of the range but
    /// the network address and the broadcast address, in rising order.
    pub fn scan_targets(&self) -> (targets: Vec<Ipv4Addr>)
        ensures
            targets@ == self.range().hosts_spec(),
    {
        self.range.hosts()
    }

    /// The addresses that a renewal at time `now` probes: those of the
    /// entries that are due, in the order of the entries.
    pub fn refresh_targets(&self, now: u64) -> (targets: Vec<Ipv4Addr>)
        ensures
            targets@ == stale_addresses(self.entries(), self.refresh_interval(), now),
    {
        self.cache.stale_entries(self.refresh, now)
    }

    /// Take in what a scan or a renewal found: `found` replaces
    /// everything in the cache.
    pub fn update(&mut self, found: Vec<ArpCacheEntry>)
        ensures
            final(self).entries() == found@,
            final(self).range() == old(self).range(),
            final(self).interface_name() == old(self).interface_name(),
            final(self).refresh_interval() == old(self).refresh_interval(),
    {
        self.cache.set(found);
    }

    /// A pass over the entries of the cache as they are now.
    pub fn cache(&self) -> (iter: ArpCacheIterator)
        ensures
            iter.remaining() == self.entries(),
    {
        self.cache.iter()
    }

    /// The IPv4 address of the first entry with the MAC address `mac`, if
    /// there is one.
    pub fn lookup_mac(&self, mac: MacAddr) -> (ipv4: Option<Ipv4Addr>)
        ensures
            ipv4 == first_with_mac(self.entries(), mac),
    {
        self.cache.lookup_by_mac(mac)
    }
}

} // verus!
