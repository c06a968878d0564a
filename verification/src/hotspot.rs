//! The configuration of a hotspot.

use vstd::arithmetic::power2::lemma2_to64;
use vstd::pervasive::unreached;
use vstd::prelude::*;
use vstd::std_specs::convert::FromSpecImpl;
use vstd::string::StringExecFns;
use vstd::utf8::encode_utf8;

use crate::cidr::Ipv4Cidr;
use crate::error::ProtonError;
use crate::ipv4::Ipv4Addr;
use crate::text::{address_of, address_text, block_of, cidr_text, parse_address, parse_cidr};

verus! {

/// A hotspot configuration.
#[derive(Clone, Debug)]
pub struct HotspotConfig {
    /// SSID of the hotspot.
    pub ssid: String,
    /// Password of the hotspot.
    pub pass: String,
    /// Security type of the hotspot.
    pub security: String,
    /// Frequency band.
    pub band: String,
    /// IPv4 address of the access point (gateway address).
    pub gateway: Ipv4Addr,
    /// IPv4 CIDR address range of the network.
    pub cidr: Ipv4Cidr,
}

/// A hotspot configuration as a value.
pub struct HotspotView {
    /// SSID of the hotspot.
    pub ssid: Seq<char>,
    /// Password of the hotspot.
    pub pass: Seq<char>,
    /// Security type of the hotspot.
    pub security: Seq<char>,
    /// Frequency band.
    pub band: Seq<char>,
    /// IPv4 address of the access point.
    pub gateway: Ipv4Addr,
    /// First address of the range of the network.
    pub network: Ipv4Addr,
    /// Prefix length of the range of the network.
    pub network_length: u8,
}

impl View for HotspotConfig {
    type V = HotspotView;

    open spec fn view(&self) -> HotspotView {
        HotspotView {
            ssid: self.ssid@,
            pass: self.pass@,
            security: self.security@,
            band: self.band@,
            gateway: self.gateway,
            network: Ipv4Addr { bits: self.cidr.first() as u32 },
            network_length: self.cidr.prefix(),
        }
    }
}

/// The name of the band with the given frequency: `a` for 5 GHz, `bg`
/// for 2.4 GHz and for everything else.
pub open spec fn band_name(frequency: Seq<char>) -> Seq<char> {
    if frequency == "5"@ {
        "a"@
    } else {
        "bg"@
    }
}

/// The configuration that the six texts give: SSID, password, range,
/// gateway, security type and frequency. A range that cannot be read
/// becomes `192.168.0.0/24`, a gateway that cannot be read `192.168.0.1`.
pub open spec fn configured(
    ssid: Seq<char>,
    pass: Seq<char>,
    cidr: Seq<char>,
    gateway: Seq<char>,
    security: Seq<char>,
    band: Seq<char>,
) -> HotspotView {
    let block = match block_of(encode_utf8(cidr)) {
        Some(block) => block,
        None => (Ipv4Addr { bits: 0xc0a8_0000 }, 24u8),
    };
    HotspotView {
        ssid,
        pass,
        security,
        band: band_name(band),
        gateway: match address_of(encode_utf8(gateway)) {
            Some(gateway) => gateway,
            None => Ipv4Addr { bits: 0xc0a8_0001 },
        },
        network: block.0,
        network_length: block.1,
    }
}

/// The range `192.168.0.0/24`.
fn default_range() -> (cidr: Ipv4Cidr)
    ensures
        cidr.first() == 0xc0a8_0000,
        cidr.prefix() == 24,
{
    proof {
        lemma2_to64();
    }
    match Ipv4Cidr::new(Ipv4Addr::new(192, 168, 0, 0), 24) {
        Ok(cidr) => cidr,
        Err(_) => unreached(),
    }
}

impl HotspotConfig {
    /// The configuration that the six texts give.
    pub fn new(
        ssid: String,
        pass: String,
        cidr: String,
        gateway: String,
        security: String,
        band: String,
    ) -> (config: HotspotConfig)
        ensures
            config@ == configured(ssid@, pass@, cidr@, gateway@, security@, band@),
    {
        let cidr = match parse_cidr(cidr.as_str()) {
            Some(cidr) => cidr,
            None => default_range(),
        };
        let gateway = match parse_address(gateway.as_str()) {
            Some(gateway) => gateway,
            None => Ipv4Addr::new(192, 168, 0, 1),
        };
        let band = if band == String::from_str("5") {
            String::from_str("a")
        } else {
            String::from_str("bg")
        };
        HotspotConfig { ssid, pass, security, band, gateway, cidr }
    }

    /// Whether the gateway lies in the range of the network; if not, the
    /// error that names both.
    pub fn check_gateway(&self) -> (r: Result<(), ProtonError>)
        ensures
            match r {
                Ok(_) => self.cidr.contains_spec(self.gateway),
                Err(e) => !self.cidr.contains_spec(self.gateway) && (
                e matches ProtonError::CidrMustContainGateway { cidr, gateway } && cidr@
                    == cidr_text(self.cidr) && gateway@ == address_text(self.gateway)),
            },
    {
        if !self.cidr.contains(&self.gateway) {
            return Err(
                ProtonError::CidrMustContainGateway {
                    cidr: self.cidr.to_string(),
                    gateway: self.gateway.to_string(),
                },
            );
        }
        Ok(())
    }
}

impl From<(String, String, String, String, String, String)> for HotspotConfig {
    fn from(config: (String, String, String, String, String, String)) -> (hotspot: Self)
        ensures
            hotspot@ == configured(
                config.0@,
                config.1@,
                config.2@,
                config.3@,
                config.4@,
                config.5@,
            ),
    {
        let (ssid, pass, cidr, gateway, security, band) = config;
        HotspotConfig::new(ssid, pass, cidr, gateway, security, band)
    }
}

impl FromSpecImpl<(String, String, String, String, String, String)> for HotspotConfig {
    open spec fn obeys_from_spec() -> bool {
        false
    }

    open spec fn from_spec(config: (String, String, String, String, String, String)) -> Self {
        arbitrary()
    }
}

} // verus!
