//! The errors of the library.

use vstd::prelude::*;
use vstd::std_specs::convert::FromSpecImpl;
use vstd::string::StringExecFns;

use crate::mac::MacAddr;

verus! {

/// The error with which a task of the `tokio` runtime ends when it
/// panicked or was cancelled.
#[verifier::external_type_specification]
#[verifier::external_body]
pub struct ExJoinError(tokio::task::JoinError);

/// An error of a scan for devices.
#[derive(PartialEq, Eq, Structural, Clone, Copy, Debug)]
#[non_exhaustive]
pub enum ArpError {
    /// Could not find Wi-Fi interface.
    CouldNotFindWirelessInterface,
    /// Could not join asynchronous task.
    CouldNotJoinAsyncTask,
}

impl ArpError {
    /// The message of the error.
    pub open spec fn text(self) -> Seq<char> {
        match self {
            ArpError::CouldNotFindWirelessInterface => "could not find wireless interface"@,
            ArpError::CouldNotJoinAsyncTask => "could not join asynchronous task"@,
        }
    }

    /// The message of the error.
    pub fn to_string(&self) -> (message: String)
        ensures
            message@ == self.text(),
    {
        match self {
            ArpError::CouldNotFindWirelessInterface => String::from_str(
                "could not find wireless interface",
            ),
            ArpError::CouldNotJoinAsyncTask => String::from_str("could not join asynchronous task"),
        }
    }
}

impl From<tokio::task::JoinError> for ArpError {
    fn from(e: tokio::task::JoinError) -> (error: Self) {
        ArpError::CouldNotJoinAsyncTask
    }
}

impl FromSpecImpl<tokio::task::JoinError> for ArpError {
    open spec fn obeys_from_spec() -> bool {
        true
    }

    open spec fn from_spec(e: tokio::task::JoinError) -> Self {
        ArpError::CouldNotJoinAsyncTask
    }
}

/// An error that occurred within the library.
#[derive(Debug)]
pub enum ProtonError {
    /// The provided interface was not an Ethernet interface, as expected.
    MustBeEthernetInterface,
    /// The hotspot has not yet been initialized.
    HotspotNotInitialized,
    /// The program could not find any wireless network interfaces.
    CouldNotFindWirelessInterface,
    /// Could not get device information.
    CouldNotGetDeviceInformation,
    /// Netlink gave no response.
    NoResponseFromNetlink,
    /// Could not activate hotspot after creation.
    CouldNotActivateHotspot,
    /// Could not deauthenticate device by MAC address.
    CouldNotDeauthenticateDevice(MacAddr),
    /// Could not parse into CIDR range.
    CouldNotParseAsCidr(String),
    /// Root permissions required.
    MustHaveRootPermissions,
    /// CIDR range must contain network gateway.
    CidrMustContainGateway {
        /// Provided CIDR network range.
        cidr: String,
        /// Provided gateway IPv4 address.
        gateway: String,
    },
    /// An error that could not be converted to a native error.
    Other(String),
}

/// A result of the library.
pub type ProtonResult<T> = Result<T, ProtonError>;

impl ProtonError {
    /// The message of the error.
    pub open spec fn text(self) -> Seq<char> {
        match self {
            ProtonError::MustBeEthernetInterface => "must be Ethernet interface"@,
            ProtonError::MustHaveRootPermissions => "must execute with root permissions"@,
            ProtonError::HotspotNotInitialized => "hotspot not initialized"@,
            ProtonError::CouldNotFindWirelessInterface => "could not find wireless interface"@,
            ProtonError::CouldNotGetDeviceInformation =>
                "could not get wireless device information"@,
            ProtonError::NoResponseFromNetlink => "no response from Netlink"@,
            ProtonError::CouldNotParseAsCidr(cidr) => "could not parse '"@ + cidr@
                + "' into a valid CIDR range"@,
            ProtonError::CouldNotDeauthenticateDevice(mac) =>
                "could not deauthenticate device with MAC address "@ + mac.text(),
            ProtonError::CouldNotActivateHotspot => "could not activate hotspot"@,
            ProtonError::CidrMustContainGateway { cidr, gateway } => "provided CIDR range "@ + cidr@
                + " does not contain gateway IPv4 "@ + gateway@,
            ProtonError::Other(t) => t@,
        }
    }

    /// The message of the error.
    pub fn to_string(&self) -> (message: String)
        ensures
            message@ == self.text(),
    {
        match self {
            ProtonError::MustBeEthernetInterface => String::from_str("must be Ethernet interface"),
            ProtonError::MustHaveRootPermissions => String::from_str(
                "must execute with root permissions",
            ),
            ProtonError::HotspotNotInitialized => String::from_str("hotspot not initialized"),
            ProtonError::CouldNotFindWirelessInterface => String::from_str(
                "could not find wireless interface",
            ),
            ProtonError::CouldNotGetDeviceInformation => String::from_str(
                "could not get wireless device information",
            ),
            ProtonError::NoResponseFromNetlink => String::from_str("no response from Netlink"),
            ProtonError::CouldNotParseAsCidr(cidr) => {
                let mut message = String::from_str("could not parse '");
                message.append(cidr.as_str());
                message.append("' into a valid CIDR range");
                message
            },
            ProtonError::CouldNotDeauthenticateDevice(mac) => {
                let mut message = String::from_str(
                    "could not deauthenticate device with MAC address ",
                );
                let text = mac.to_string();
                message.append(text.as_str());
                message
            },
            ProtonError::CouldNotActivateHotspot => String::from_str("could not activate hotspot"),
            ProtonError::CidrMustContainGateway { cidr, gateway } => {
                let mut message = String::from_str("provided CIDR range ");
                message.append(cidr.as_str());
                message.append(" does not contain gateway IPv4 ");
                message.append(gateway.as_str());
                message
            },
            ProtonError::Other(t) => t.clone(),
        }
    }

    /// The error for a failure of another library: it keeps the message
    /// of the failure's source, and an empty message where the failure
    /// names no source.
    pub fn from_source(source: Option<String>) -> (error: ProtonError)
        ensures
            error matches ProtonError::Other(text) && text@ == match source {
                Some(s) => s@,
                None => Seq::empty(),
            },
    {
        match source {
            Some(text) => ProtonError::Other(text),
            None => ProtonError::Other(String::new()),
        }
    }
}

} // verus!
