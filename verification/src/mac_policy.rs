//! Which devices may join the access point, by MAC address.

use vstd::prelude::*;

use crate::mac::MacAddr;

verus! {

/// A MAC address policy error.
#[derive(PartialEq, Eq, Structural, Clone, Copy, Debug)]
#[non_exhaustive]
pub enum MacAddrPolicyError {
    /// The user tried to whitelist a device on a non-whitelist policy.
    NotWhitelistPolicy,
    /// The user tried to blacklist a device on a non-blacklist policy.
    NotBlacklistPolicy,
}

impl MacAddrPolicyError {
    /// The message of the error.
    pub open spec fn text(self) -> Seq<char> {
        match self {
            MacAddrPolicyError::NotWhitelistPolicy =>
                "cannot whitelist device on a non-whitelist policy"@,
            MacAddrPolicyError::NotBlacklistPolicy =>
                "cannot blacklist device on a non-blacklist policy"@,
        }
    }

    /// The message of the error.
    pub fn to_string(&self) -> (message: String)
        ensures
            message@ == self.text(),
    {
        let message = match self {
            MacAddrPolicyError::NotWhitelistPolicy =>
                "cannot whitelist device on a non-whitelist policy",
            MacAddrPolicyError::NotBlacklistPolicy =>
                "cannot blacklist device on a non-blacklist policy",
        };
        message.to_owned()
    }
}

/// Result type for MAC address policy actions.
pub type PolicyResult = Result<(), MacAddrPolicyError>;

/// A MAC address policy: the rule by which MAC addresses are permitted
/// to join the wireless access point and to send and receive traffic.
#[derive(Debug)]
pub enum MacAddrPolicy {
    /// All MAC addresses may join the access point.
    Public,
    /// Only a specified list of MAC addresses may join the access point.
    Whitelist(Vec<MacAddr>),
    /// All MAC addresses except a specified list may join the access
    /// point.
    Blacklist(Vec<MacAddr>),
}

/// A policy as a value.
pub enum PolicyView {
    /// All MAC addresses are permitted.
    Public,
    /// The listed MAC addresses are permitted, and no others.
    Whitelist(Seq<MacAddr>),
    /// The listed MAC addresses are refused, and no others.
    Blacklist(Seq<MacAddr>),
}

impl PolicyView {
    /// Whether the policy permits `address`.
    pub open spec fn permits(self, address: MacAddr) -> bool {
        match self {
            PolicyView::Public => true,
            PolicyView::Whitelist(list) => list.contains(address),
            PolicyView::Blacklist(list) => !list.contains(address),
        }
    }
}

impl View for MacAddrPolicy {
    type V = PolicyView;

    open spec fn view(&self) -> PolicyView {
        match self {
            MacAddrPolicy::Public => PolicyView::Public,
            MacAddrPolicy::Whitelist(list) => PolicyView::Whitelist(list@),
            MacAddrPolicy::Blacklist(list) => PolicyView::Blacklist(list@),
        }
    }
}

/// Whether `address` is in `list`.
fn listed(list: &Vec<MacAddr>, address: MacAddr) -> (found: bool)
    ensures
        found == list@.contains(address),
{
    let mut i: usize = 0;
    while i < list.len()
        invariant
            i <= list.len(),
            forall|j: int| 0 <= j < i ==> list@[j] != address,
        decreases list.len() - i,
    {
        if list[i] == address {
            return true;
        }
        i += 1;
    }
    false
}

impl MacAddrPolicy {
    /// A policy that permits every MAC address.
    pub fn public() -> (policy: MacAddrPolicy)
        ensures
            policy@ == PolicyView::Public,
    {
        MacAddrPolicy::Public
    }

    /// A whitelist policy with an empty list: it permits no MAC address.
    pub fn whitelist() -> (policy: MacAddrPolicy)
        ensures
            policy@ == PolicyView::Whitelist(Seq::empty()),
    {
        MacAddrPolicy::Whitelist(Vec::new())
    }

    /// A blacklist policy with an empty list: it permits every MAC
    /// address.
    pub fn blacklist() -> (policy: MacAddrPolicy)
        ensures
            policy@ == PolicyView::Blacklist(Seq::empty()),
    {
        MacAddrPolicy::Blacklist(Vec::new())
    }

    /// Add `device` to the whitelist. Fails, and changes nothing, on a
    /// policy that is no whitelist.
    pub fn allow(&mut self, device: MacAddr) -> (r: PolicyResult)
        ensures
            match old(self)@ {
                PolicyView::Whitelist(list) => r is Ok && final(self)@ == PolicyView::Whitelist(
                    list.push(device),
                ),
                _ => r == Err::<(), MacAddrPolicyError>(MacAddrPolicyError::NotWhitelistPolicy)
                    && final(self)@ == old(self)@,
            },
    {
        if let MacAddrPolicy::Whitelist(wl) = self {
            wl.push(device);
            Ok(())
        } else {
            Err(MacAddrPolicyError::NotWhitelistPolicy)
        }
    }

    /// Add `device` to the blacklist. Fails, and changes nothing, on a
    /// policy that is no blacklist.
    pub fn deny(&mut self, device: MacAddr) -> (r: PolicyResult)
        ensures
            match old(self)@ {
                PolicyView::Blacklist(list) => r is Ok && final(self)@ == PolicyView::Blacklist(
                    list.push(device),
                ),
                _ => r == Err::<(), MacAddrPolicyError>(MacAddrPolicyError::NotBlacklistPolicy)
                    && final(self)@ == old(self)@,
            },
    {
        if let MacAddrPolicy::Blacklist(bl) = self {
            bl.push(device);
            Ok(())
        } else {
            Err(MacAddrPolicyError::NotBlacklistPolicy)
        }
    }

    /// Whether the policy permits `address`.
    pub fn check(&self, address: MacAddr) -> (permitted: bool)
        ensures
            permitted == self@.permits(address),
    {
        match self {
            MacAddrPolicy::Public => true,
            MacAddrPolicy::Whitelist(wl) => listed(wl, address),
            MacAddrPolicy::Blacklist(bl) => !listed(bl, address),
        }
    }
}

} // verus!
