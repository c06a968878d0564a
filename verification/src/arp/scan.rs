//! The decisions of a scan: which frames go out, and what the listener
//! does with each thing that happens on the link and on the channel to
//! the collector.
//!
//! Sending, receiving, waiting and the channel itself belong to the
//! caller, which carries out what these functions decide.

use vstd::prelude::*;

use crate::arp::cache::ArpCacheEntry;
use crate::arp::frame::{build_request, learned_from, parse_reply, request_frame, sender_mac};
use crate::ipv4::Ipv4Addr;
use crate::mac::MacAddr;

verus! {

/// Number of entries that the channel from the listener to the collector
/// holds before the listener has to wait.
pub const ARP_CHANNEL_BUFFER_SIZE: usize = 256;

/// Time to go on listening after the last request, in milliseconds.
pub const ARP_LISTENER_DELAY: u64 = 2_500;

/// The settings of a scan.
#[derive(PartialEq, Eq, Structural, Clone, Copy, Debug)]
pub struct ScanSettings {
    /// Number of entries that the channel from the listener to the
    /// collector holds; at least one.
    pub channel_capacity: usize,
    /// Time to go on listening after the last request, in milliseconds.
    pub listener_delay: u64,
}

impl Default for ScanSettings {
    fn default() -> (settings: ScanSettings)
        ensures
            settings == (ScanSettings {
                channel_capacity: ARP_CHANNEL_BUFFER_SIZE,
                listener_delay: ARP_LISTENER_DELAY,
            }),
    {
        ScanSettings {
            channel_capacity: ARP_CHANNEL_BUFFER_SIZE,
            listener_delay: ARP_LISTENER_DELAY,
        }
    }
}

/// What happened while the listener waited.
pub enum ListenEvent {
    /// A frame arrived at time `now`; `channel_closed` says whether the
    /// collector had closed the channel by then.
    Frame { frame: Vec<u8>, channel_closed: bool, now: u64 },
    /// The interface yields no more frames.
    InterfaceClosed,
    /// The entry handed to the channel was taken.
    Delivered,
    /// The entry handed to the channel was refused: the channel is
    /// closed.
    Refused,
}

/// What the listener does next.
#[derive(PartialEq, Eq, Structural, Clone, Copy, Debug)]
pub enum ListenAction {
    /// Wait for the next frame.
    Receive,
    /// Hand the entry to the channel and wait until it is taken or
    /// refused.
    Send(ArpCacheEntry),
    /// End.
    Stop,
}

/// The listener's next action after `event`, for the station with the
/// link address `local`. It ends when the interface or the channel is
/// closed. From a whole resolution frame of another station it makes an
/// entry, stamped with the time of arrival, and sends it; every other
/// frame it passes over.
pub open spec fn listen_action(event: ListenEvent, local: MacAddr) -> ListenAction {
    match event {
        ListenEvent::InterfaceClosed => ListenAction::Stop,
        ListenEvent::Refused => ListenAction::Stop,
        ListenEvent::Delivered => ListenAction::Receive,
        ListenEvent::Frame { frame, channel_closed, now } => if channel_closed {
            ListenAction::Stop
        } else {
            match learned_from(frame@, local) {
                Some((ipv4, mac)) => ListenAction::Send(ArpCacheEntry { ipv4, mac, created: now }),
                None => ListenAction::Receive,
            }
        },
    }
}

/// The listener's next action after `event`, for the station with the
/// link address `local`.
pub fn listen_step(event: &ListenEvent, local: MacAddr) -> (action: ListenAction)
    ensures
        action == listen_action(*event, local),
{
    match event {
        ListenEvent::InterfaceClosed => ListenAction::Stop,
        ListenEvent::Refused => ListenAction::Stop,
        ListenEvent::Delivered => ListenAction::Receive,
        ListenEvent::Frame { frame, channel_closed, now } => {
            if *channel_closed {
                return ListenAction::Stop;
            }
            match parse_reply(frame, local) {
                Some((ipv4, mac)) => ListenAction::Send(ArpCacheEntry::new(ipv4, mac, *now)),
                None => ListenAction::Receive,
            }
        },
    }
}

/// The requests of a scan: one frame for each target, in the order of
/// the targets, each sent to every station on the link in the name of the
/// station with the addresses `mac` and `ip`.
pub fn request_frames(mac: MacAddr, ip: Ipv4Addr, targets: &Vec<Ipv4Addr>) -> (frames: Vec<
    Vec<u8>,
>)
    ensures
        frames.len() == targets.len(),
        forall|i: int|
            0 <= i < targets.len() ==> (#[trigger] frames[i])@ == request_frame(
                mac,
                ip,
                targets[i],
            ),
{
    let mut frames: Vec<Vec<u8>> = Vec::new();
    let mut i: usize = 0;
    while i < targets.len()
        invariant
            i <= targets.len(),
            frames.len() == i,
            forall|j: int|
                0 <= j < i ==> (#[trigger] frames[j])@ == request_frame(mac, ip, targets[j]),
        decreases targets.len() - i,
    {
        frames.push(build_request(mac, ip, targets[i]));
        i += 1;
    }
    frames
}

/// Self-reply suppression: a frame whose sender link address is the
/// station's own never makes the listener send an entry.
pub proof fn law_own_frame_never_sent(
    frame: Vec<u8>,
    channel_closed: bool,
    now: u64,
    local: MacAddr,
)
    requires
        sender_mac(frame@) == local,
    ensures
        !(listen_action(ListenEvent::Frame { frame, channel_closed, now }, local) is Send),
{
}

/// Every entry that the listener sends names another station, with the
/// addresses that the frame gives for its sender and the time at which
/// the frame arrived.
pub proof fn law_sent_entry(event: ListenEvent, local: MacAddr)
    requires
        listen_action(event, local) is Send,
    ensures
        event matches ListenEvent::Frame { frame, channel_closed, now } && !channel_closed
            && learned_from(frame@, local) is Some && listen_action(event, local)
            == ListenAction::Send(
            ArpCacheEntry {
                ipv4: learned_from(frame@, local).unwrap().0,
                mac: sender_mac(frame@),
                created: now,
            },
        ) && sender_mac(frame@) != local,
{
}

} // verus!
