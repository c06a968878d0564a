//! Data-plane core of a wireless access point: link-layer address
//! resolution for the attached subnet and network address translation
//! between the internal range and a small set of external addresses.
//!
//! The library decides and computes; it does no input or output. The
//! caller owns the interfaces, the channels and the clock: it hands bytes
//! and times in, and sends what comes back.
//!
//! - [`nat_table`]: the table of sessions and its allocator, with what
//!   holds of every table.
//! - [`packet`], [`checksum`], [`translator`]: packets in flight, their
//!   checksums, and their translation.
//! - [`arp`]: the cache of resolved addresses, the frames on the wire and
//!   the decisions of a scan.
//! - [`ipv4`], [`cidr`], [`mac`], [`text`], [`hex`]: addresses, blocks of
//!   addresses, and their text.
//! - [`mac_policy`], [`device`], [`hotspot`], [`error`]: what surrounds
//!   the core.

pub mod arp;
pub mod checksum;
pub mod cidr;
pub mod device;
pub mod error;
pub mod hex;
pub mod hotspot;
pub mod ipv4;
pub mod mac;
pub mod mac_policy;
pub mod nat_table;
pub mod packet;
pub mod text;
pub mod translator;

pub use arp::cache::{ArpCache, ArpCacheEntry, ArpCacheIterator};
pub use arp::manager::ArpManager;
pub use cidr::{CidrError, Ipv4Cidr};
pub use device::{Device, Station};
pub use error::{ArpError, ProtonError, ProtonResult};
pub use hex::pretty_print;
pub use hotspot::HotspotConfig;
pub use ipv4::{Ipv4Addr, SocketAddrV4};
pub use mac::MacAddr;
pub use mac_policy::{MacAddrPolicy, MacAddrPolicyError};
pub use nat_table::table::NatTable;
pub use translator::{PacketTranslator, TranslateError};
