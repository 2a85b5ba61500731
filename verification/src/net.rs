//! The plain address model the core reasons about: an IP address as its
//! raw octets or segments, and a socket address as an IP and a port.
//! The edges of the program convert between these and the operating
//! system's socket types.

use vstd::prelude::*;

verus! {

/// An IP address: four octets for v4, eight 16-bit segments for v6.
#[derive(Debug, Clone, Copy, PartialEq, Eq)]
pub enum IpAddress {
    V4([u8; 4]),
    V6([u16; 8]),
}

/// A socket address: an IP address and a port.
#[derive(Debug, Clone, Copy, PartialEq, Eq)]
pub struct SocketAddress {
    pub ip: IpAddress,
    pub port: u16,
}

/// Whether an address is a loopback address: `127.0.0.0/8` or `::1`.
pub open spec fn spec_is_loopback(ip: IpAddress) -> bool {
    match ip {
        IpAddress::V4(o) => o@[0] == 127,
        IpAddress::V6(s) => s@[0] == 0 && s@[1] == 0 && s@[2] == 0 && s@[3] == 0 && s@[4] == 0
            && s@[5] == 0 && s@[6] == 0 && s@[7] == 1,
    }
}

/// Whether an address is link-local: `169.254.0.0/16` or `fe80::/10`.
pub open spec fn spec_is_link_local(ip: IpAddress) -> bool {
    match ip {
        IpAddress::V4(o) => o@[0] == 169 && o@[1] == 254,
        IpAddress::V6(s) => s@[0] & 0xffc0 == 0xfe80,
    }
}

/// Whether an address is private: `10/8`, `172.16/12` or `192.168/16`
/// for v4; unique-local `fc00::/7` for v6.
pub open spec fn spec_is_private(ip: IpAddress) -> bool {
    match ip {
        IpAddress::V4(o) => o@[0] == 10 || (o@[0] == 172 && 16 <= o@[1] <= 31) || (o@[0] == 192
            && o@[1] == 168),
        IpAddress::V6(s) => s@[0] & 0xfe00 == 0xfc00,
    }
}

/// Tests whether an address is loopback.
pub fn is_loopback(ip: &IpAddress) -> (r: bool)
    ensures
        r == spec_is_loopback(*ip),
{
    match ip {
        IpAddress::V4(o) => o[0] == 127,
        IpAddress::V6(s) => s[0] == 0 && s[1] == 0 && s[2] == 0 && s[3] == 0 && s[4] == 0 && s[5]
            == 0 && s[6] == 0 && s[7] == 1,
    }
}

/// Tests whether an address is link-local.
pub fn is_link_local(ip: &IpAddress) -> (r: bool)
    ensures
        r == spec_is_link_local(*ip),
{
    match ip {
        IpAddress::V4(o) => o[0] == 169 && o[1] == 254,
        IpAddress::V6(s) => s[0] & 0xffc0 == 0xfe80,
    }
}

/// Tests whether an address is private or unique-local.
pub fn is_private(ip: &IpAddress) -> (r: bool)
    ensures
        r == spec_is_private(*ip),
{
    match ip {
        IpAddress::V4(o) => o[0] == 10 || (o[0] == 172 && 16 <= o[1] && o[1] <= 31) || (o[0] == 192
            && o[1] == 168),
        IpAddress::V6(s) => s[0] & 0xfe00 == 0xfc00,
    }
}

} // verus!
