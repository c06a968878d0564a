//! The cache of resolved addresses.
//!
//! Time is a count of milliseconds on a clock that never runs backwards;
//! the caller reads the clock.

use vstd::prelude::*;

use crate::ipv4::Ipv4Addr;
use crate::mac::MacAddr;

verus! {

/// Time after which an entry is due for renewal, in milliseconds (two
/// minutes).
pub const DEFAULT_ARP_REFRESH_TIME: u64 = 120_000;

/// An address resolution cache entry: the addresses of a device and the
/// time at which they were learned.
#[derive(PartialEq, Eq, Structural, Clone, Copy, Debug)]
pub struct ArpCacheEntry {
    /// The IPv4 address of the device.
    pub ipv4: Ipv4Addr,
    /// The MAC address of the device.
    pub mac: MacAddr,
    /// The time at which this entry was created.
    pub created: u64,
}

impl ArpCacheEntry {
    /// Whether the entry is due for renewal at time `now` with the
    /// interval `refresh`: its age has reached the interval.
    pub open spec fn is_stale(self, refresh: u64, now: u64) -> bool {
        now >= self.created + refresh
    }

    /// An entry for the device, created at time `now`.
    pub fn new(ipv4: Ipv4Addr, mac: MacAddr, now: u64) -> (entry: ArpCacheEntry)
        ensures
            entry == (ArpCacheEntry { ipv4, mac, created: now }),
    {
        ArpCacheEntry { ipv4, mac, created: now }
    }

    /// Whether the entry is due for renewal at time `now` with the
    /// interval `refresh`.
    pub fn check(&self, refresh: u64, now: u64) -> (stale: bool)
        ensures
            stale == self.is_stale(refresh, now),
    {
        now >= self.created && now - self.created >= refresh
    }
}

/// The addresses of the entries that are due for renewal, in the order of
/// the entries.
pub open spec fn stale_addresses(entries: Seq<ArpCacheEntry>, refresh: u64, now: u64) -> Seq<
    Ipv4Addr,
> {
    entries.filter_map(
        |e: ArpCacheEntry|
            if e.is_stale(refresh, now) {
                Some(e.ipv4)
            } else {
                None
            },
    )
}

/// Whether `i` is the position of the first entry with the MAC address
/// `mac`.
pub open spec fn is_first_with_mac(entries: Seq<ArpCacheEntry>, mac: MacAddr, i: int) -> bool {
    &&& 0 <= i < entries.len()
    &&& entries[i].mac == mac
    &&& forall|j: int| 0 <= j < i ==> entries[j].mac != mac
}

/// The IPv4 address of the first entry with the MAC address `mac`.
pub open spec fn first_with_mac(entries: Seq<ArpCacheEntry>, mac: MacAddr) -> Option<Ipv4Addr> {
    if exists|i: int| is_first_with_mac(entries, mac, i) {
        Some(entries[choose|i: int| is_first_with_mac(entries, mac, i)].ipv4)
    } else {
        None
    }
}

/// An address resolution cache: entries in the order in which they came
/// in. Entries are not merged: a device that answered twice is there
/// twice.
#[derive(Debug)]
pub struct ArpCache {
    cache: Vec<ArpCacheEntry>,
}

impl Clone for ArpCache {
    fn clone(&self) -> (copy: ArpCache)
        ensures
            copy@ == self@,
    {
        ArpCache { cache: self.entries() }
    }
}

impl View for ArpCache {
    type V = Seq<ArpCacheEntry>;

    closed spec fn view(&self) -> Seq<ArpCacheEntry> {
        self.cache@
    }
}

impl ArpCache {
    /// An empty cache.
    pub fn new() -> (cache: ArpCache)
        ensures
            cache@ == Seq::<ArpCacheEntry>::empty(),
    {
        ArpCache { cache: Vec::new() }
    }

    /// Append an entry for the device, created at time `now`.
    pub fn add(&mut self, ipv4: Ipv4Addr, mac: MacAddr, now: u64)
        ensures
            final(self)@ == old(self)@.push(ArpCacheEntry { ipv4, mac, created: now }),
    {
        let entry = ArpCacheEntry::new(ipv4, mac, now);
        self.cache.push(entry);
    }

    /// Replace everything in the cache by `cache`.
    pub fn set(&mut self, cache: Vec<ArpCacheEntry>)
        ensures
            final(self)@ == cache@,
    {
        self.cache = cache;
    }

    /// The number of entries.
    pub fn len(&self) -> (n: usize)
        ensures
            n == self@.len(),
    {
        self.cache.len()
    }

    /// A copy of the entries, in order.
    pub fn entries(&self) -> (entries: Vec<ArpCacheEntry>)
        ensures
            entries@ == self@,
    {
        let mut entries: Vec<ArpCacheEntry> = Vec::new();
        let mut i: usize = 0;
        while i < self.cache.len()
            invariant
                i <= self.cache.len(),
                entries@ == self.cache@.take(i as int),
            decreases self.cache.len() - i,
        {
            entries.push(self.cache[i]);
            i += 1;
            assert(entries@ =~= self.cache@.take(i as int));
        }
        assert(self.cache@.take(i as int) =~= self.cache@);
        entries
    }

    /// The addresses of the entries that are due for renewal at time
    /// `now` with the interval `refresh`, in the order of the entries.
    pub fn stale_entries(&self, refresh: u64, now: u64) -> (stale: Vec<Ipv4Addr>)
        ensures
            stale@ == stale_addresses(self@, refresh, now),
    {
        let mut stale: Vec<Ipv4Addr> = Vec::new();
        let mut i: usize = 0;
        let ghost pick = |e: ArpCacheEntry|
            if e.is_stale(refresh, now) {
                Some(e.ipv4)
            } else {
                None
            };
        while i < self.cache.len()
            invariant
                i <= self.cache.len(),
                pick == |e: ArpCacheEntry|
                    if e.is_stale(refresh, now) {
                        Some(e.ipv4)
                    } else {
                        None
                    },
                stale@ == self.cache@.take(i as int).filter_map(pick),
            decreases self.cache.len() - i,
        {
            proof {
                self.cache@.lemma_filter_map_take_succ(pick, i as int);
            }
            if self.cache[i].check(refresh, now) {
                stale.push(self.cache[i].ipv4);
            }
            i += 1;
        }
        assert(self.cache@.take(i as int) =~= self.cache@);
        stale
    }

    /// The IPv4 address of the first entry with the MAC address `mac`, if
    /// there is one.
    pub fn lookup_by_mac(&self, mac: MacAddr) -> (ipv4: Option<Ipv4Addr>)
        ensures
            ipv4 == first_with_mac(self@, mac),
    {
        let mut i: usize = 0;
        while i < self.cache.len()
            invariant
                i <= self.cache.len(),
                forall|j: int| 0 <= j < i ==> self.cache@[j].mac != mac,
            decreases self.cache.len() - i,
        {
            if self.cache[i].mac == mac {
                proof {
                    lemma_first_with_mac(self.cache@, mac, i as int);
                }
                return Some(self.cache[i].ipv4);
            }
            i += 1;
        }
        None
    }
}

/// A pass over the entries of a cache, first entry first. It owns a
/// snapshot: the cache it was made from may change meanwhile, and a new
/// pass can be started at any time.
#[derive(Debug)]
pub struct ArpCacheIterator {
    entries: Vec<ArpCacheEntry>,
    position: usize,
}

impl ArpCacheIterator {
    #[verifier::type_invariant]
    spec fn in_bounds(self) -> bool {
        self.position <= self.entries.len()
    }

    /// The entries that the pass has yet to hand out, in order.
    pub closed spec fn remaining(&self) -> Seq<ArpCacheEntry> {
        self.entries@.skip(self.position as int)
    }

    /// A pass over the entries `cache`.
    pub fn from(cache: Vec<ArpCacheEntry>) -> (iter: ArpCacheIterator)
        ensures
            iter.remaining() == cache@,
    {
        let iter = ArpCacheIterator { entries: cache, position: 0 };
        assert(iter.remaining() =~= cache@);
        iter
    }

    /// The next entry, or nothing when the pass is over.
    pub fn next(&mut self) -> (entry: Option<ArpCacheEntry>)
        ensures
            entry == if old(self).remaining().len() > 0 {
                Some(old(self).remaining()[0])
            } else {
                None
            },
            final(self).remaining() == if old(self).remaining().len() > 0 {
                old(self).remaining().skip(1)
            } else {
                old(self).remaining()
            },
    {
        proof {
            use_type_invariant(&*self);
        }
        if self.position < self.entries.len() {
            let entry = self.entries[self.position];
            self.position += 1;
            assert(self.remaining() =~= old(self).remaining().skip(1));
            Some(entry)
        } else {
            None
        }
    }
}

impl ArpCache {
    /// A pass over the entries as they are now; the cache is left as it
    /// is.
    pub fn iter(&self) -> (iter: ArpCacheIterator)
        ensures
            iter.remaining() == self@,
    {
        ArpCacheIterator::from(self.entries())
    }

    /// A pass over the entries, which uses the cache up.
    pub fn into_iter(self) -> (iter: ArpCacheIterator)
        ensures
            iter.remaining() == self@,
    {
        ArpCacheIterator::from(self.cache)
    }
}

/// There is at most one first entry with a MAC address.
pub proof fn lemma_first_with_mac(entries: Seq<ArpCacheEntry>, mac: MacAddr, i: int)
    requires
        is_first_with_mac(entries, mac, i),
    ensures
        first_with_mac(entries, mac) == Some(entries[i].ipv4),
{
    let k = choose|k: int| is_first_with_mac(entries, mac, k);
    assert(k == i) by {
        if k < i {
            assert(entries[k].mac != mac);
        } else if i < k {
            assert(entries[i].mac != mac);
        }
    }
}

/// An entry created at time `created` is stale at every time from
/// `created + refresh` on, and at no time before.
pub proof fn law_stale_from(entry: ArpCacheEntry, refresh: u64, now: u64)
    ensures
        now >= entry.created + refresh ==> entry.is_stale(refresh, now),
        now < entry.created + refresh ==> !entry.is_stale(refresh, now),
{
}

/// A cache reports exactly its stale entries: an address is among the
/// stale addresses exactly if an entry with that address is stale.
pub proof fn law_stale_addresses(entries: Seq<ArpCacheEntry>, refresh: u64, now: u64, ip: Ipv4Addr)
    ensures
        stale_addresses(entries, refresh, now).contains(ip) <==> exists|i: int|
            0 <= i < entries.len() && #[trigger] entries[i].ipv4 == ip && entries[i].is_stale(
                refresh,
                now,
            ),
    decreases entries.len(),
{
    let pick = |e: ArpCacheEntry|
        if e.is_stale(refresh, now) {
            Some(e.ipv4)
        } else {
            None
        };
    if entries.len() > 0 {
        let rest = entries.drop_last();
        law_stale_addresses(rest, refresh, now, ip);
        let found = stale_addresses(entries, refresh, now);
        let before = stale_addresses(rest, refresh, now);
        if exists|i: int|
            0 <= i < entries.len() && #[trigger] entries[i].ipv4 == ip && entries[i].is_stale(
                refresh,
                now,
            ) {
            let i = choose|i: int|
                0 <= i < entries.len() && #[trigger] entries[i].ipv4 == ip && entries[i].is_stale(
                    refresh,
                    now,
                );
            if i < rest.len() {
                assert(rest[i] == entries[i]);
                assert(before.contains(ip));
                let k = choose|k: int| 0 <= k < before.len() && before[k] == ip;
                assert(found[k] == ip);
            } else {
                assert(found == before + seq![ip]);
                assert(found[found.len() - 1] == ip);
            }
        }
        if found.contains(ip) {
            let k = choose|k: int| 0 <= k < found.len() && found[k] == ip;
            if k < before.len() {
                assert(before[k] == ip);
                assert(before.contains(ip));
                let i = choose|i: int|
                    0 <= i < rest.len() && #[trigger] rest[i].ipv4 == ip && rest[i].is_stale(
                        refresh,
                        now,
                    );
                assert(entries[i] == rest[i]);
            } else {
                assert(entries[entries.len() - 1].ipv4 == ip);
            }
        }
    }
}

/// An entry added at time `created` is reported as stale at every time
/// from `created + refresh` on; at a time before that its address is
/// reported only if another entry with the same address is stale.
pub proof fn law_added_entry_stale(
    entries: Seq<ArpCacheEntry>,
    ipv4: Ipv4Addr,
    mac: MacAddr,
    created: u64,
    refresh: u64,
    now: u64,
)
    ensures
        now >= created + refresh ==> stale_addresses(
            entries.push(ArpCacheEntry { ipv4, mac, created }),
            refresh,
            now,
        ).contains(ipv4),
        now < created + refresh ==> stale_addresses(
            entries.push(ArpCacheEntry { ipv4, mac, created }),
            refresh,
            now,
        ) == stale_addresses(entries, refresh, now),
{
    let entry = ArpCacheEntry { ipv4, mac, created };
    let all = entries.push(entry);
    assert(all.drop_last() =~= entries);
    assert(all.last() == entry);
    if now >= created + refresh {
        let found = stale_addresses(all, refresh, now);
        assert(found == stale_addresses(entries, refresh, now) + seq![ipv4]);
        assert(found[found.len() - 1] == ipv4);
    }
}

} // verus!
