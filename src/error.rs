//! The ways a scan can fail.
use vstd::prelude::*;

verus! {

/// std's I/O error, carried through as the cause of a failure.
#[verifier::external_type_specification]
#[verifier::external_body]
pub struct ExIoError(std::io::Error);

/// url's host parse error, carried through as the cause of a failure.
#[verifier::external_type_specification]
#[verifier::external_body]
pub struct ExUrlParseError(url::ParseError);

/// Every failure of the scanner. Addresses are IPv4 addresses as integers.
#[derive(Debug)]
pub enum ScanError {
    /// A port given by the user is no number from 0 to 65535.
    InvalidPort(String),
    /// The target is neither a host name nor an IP address.
    HostParseFailed(url::ParseError),
    /// The target's name could not be resolved.
    ResolverFailed(std::io::Error),
    /// The target's name maps to no IPv4 address.
    DomainLookupFailed(String),
    /// A SYN scan was asked for without superuser rights.
    NormalUserRequired,
    /// No network interface is up, not loopback, and has an address.
    MissingDefaultInterface,
    /// The layer-2 channel could not be opened.
    DatalinkChannelFailed(std::io::Error),
    /// The chosen interface has no IPv4 address.
    OnlyIpv4InterfaceSupported,
    /// The target is an IPv6 address.
    OnlyIpv4TargetSupported,
    /// The default gateway's MAC address could not be found.
    GatewayLookupFailed(String),
    /// The chosen interface has no MAC address.
    MissingMacAddr,
    /// Sending a frame to the address failed.
    PacketSendFailed(u32, std::io::Error),
    /// Receiving a frame from the address failed.
    PacketRecvFailed(u32, std::io::Error),
}

} // verus!
