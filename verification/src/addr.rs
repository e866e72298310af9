//! Network addresses as the library models them: an IP address is a plain
//! integer value (32 bits for IPv4, 128 bits for IPv6) and an endpoint is an
//! address paired with a port.

use vstd::prelude::*;

verus! {

/// An IP address, held as its numeric value.
#[derive(Clone, Copy, PartialEq, Eq, Structural, Debug)]
pub enum IpAddress {
    V4(u32),
    V6(u128),
}

/// An address/port pair.
#[derive(Clone, Copy, PartialEq, Eq, Structural, Debug)]
pub struct Endpoint {
    pub ip: IpAddress,
    pub port: u16,
}

impl IpAddress {
    /// Whether the address is a loopback address: 127.0.0.0/8 for IPv4, ::1
    /// for IPv6.
    pub open spec fn spec_is_loopback(self) -> bool {
        match self {
            IpAddress::V4(v) => v / 0x1000000 == 127,
            IpAddress::V6(v) => v == 1,
        }
    }

    /// Whether the address is a loopback address.
    pub fn is_loopback(&self) -> (r: bool)
        ensures
            r == self.spec_is_loopback(),
    {
        match self {
            IpAddress::V4(v) => {
                let top: u32 = *v / 0x1000000;
                top == 127
            },
            IpAddress::V6(v) => *v == 1,
        }
    }
}

} // verus!
