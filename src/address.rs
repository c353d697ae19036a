use vstd::prelude::*;

verus! {

/// An IP address: IPv4 as a 32-bit integer, IPv6 as a 128-bit integer, most
/// significant octet first.
#[derive(Clone, Copy, Debug, PartialEq, Eq, Structural)]
pub enum IpAddress {
    V4(u32),
    V6(u128),
}

/// The IP version of a virtual network.
#[derive(Clone, Copy, Debug, PartialEq, Eq, Structural)]
pub enum IpVersion {
    V4,
    V6,
}

/// An IP subnet: an address and a prefix length.
#[derive(Clone, Copy, Debug, PartialEq, Eq, Structural)]
pub struct IpSubnet {
    pub addr: IpAddress,
    pub prefix: u8,
}

/// A range of IP addresses, both ends included.
#[derive(Clone, Copy, Debug, PartialEq, Eq, Structural)]
pub struct IpRange {
    pub start: IpAddress,
    pub end: IpAddress,
}

} // verus!
