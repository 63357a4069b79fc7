//! Plain models of the network endpoints the discovery protocol speaks of.
//!
//! The transport layer works with the operating system's own address types;
//! the library holds an address as its four dotted-quad octets and a port so
//! that the rules about addresses (which groups are valid multicast targets,
//! which endpoint a record points at) can be stated and checked directly.

use vstd::prelude::*;

use crate::err::YeeError;

verus! {

/// An IPv4 address, held as its four dotted-quad octets.
#[derive(Clone, Copy, PartialEq, Eq, Structural, Debug)]
pub struct Ipv4 {
    pub a: u8,
    pub b: u8,
    pub c: u8,
    pub d: u8,
}

/// An IPv4 address together with a port: the endpoint a device is contacted at.
#[derive(Clone, Copy, PartialEq, Eq, Structural, Debug)]
pub struct Endpoint {
    pub ip: Ipv4,
    pub port: u16,
}

impl Ipv4 {
    /// Whether the address lies in the IPv4 multicast block
    /// `224.0.0.0`–`239.255.255.255`, that is, whether its first octet is in
    /// `224`–`239`.
    pub open spec fn is_multicast(self) -> bool {
        224 <= self.a <= 239
    }

    /// Runtime check for [`Self::is_multicast`].  A discovery transport may
    /// only be pointed at a multicast group.
    pub fn check_multicast(&self) -> (r: bool)
        ensures
            r == self.is_multicast(),
    {
        224 <= self.a && self.a <= 239
    }
}

/// Validates a group address at construction time: the endpoint a transport
/// may be pointed at, exactly when the address is a multicast address, and a
/// configuration error otherwise.
pub fn multicast_target(ip: Ipv4, port: u16) -> (r: Result<Endpoint, YeeError>)
    ensures
        r is Ok <==> ip.is_multicast(),
        r matches Ok(e) ==> e == (Endpoint { ip, port }),
        r matches Err(e) ==> e is Configuration,
{
    if ip.check_multicast() {
        Ok(Endpoint { ip, port })
    } else {
        Err(YeeError::Configuration)
    }
}

} // verus!
