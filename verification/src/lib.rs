//! Discovery of smart lights on a local network segment.
//!
//! The library holds the verified half of a multicast discovery pipeline:
//! decoding a received datagram into a header mapping, validating the mapping
//! into a typed [`light::Light`] record, and collecting records without
//! duplicate identities.  The socket work itself (binding, joining the
//! multicast group, sending the query, receiving datagrams) is left to the
//! caller, who feeds each received buffer through [`session`].

pub mod addr;
pub mod err;
pub mod fields;
pub mod light;
pub mod parser;
pub mod session;

use vstd::prelude::*;

verus! {

/// Port of the fixed multicast discovery group.
pub const MULTICAST_PORT: u16 = 1982;

/// Local port the discovery socket binds to unless the caller picks another.
pub const DEFAULT_LOCAL_PORT: u16 = 7821;

/// The one outbound search datagram of a discovery session.
pub const SEARCH_MSG: &'static str = "M-SEARCH * HTTP/1.1\r\nHOST: 239.255.255.250:1982\r\nMAN: \"ssdp:discover\"\r\nST: wifi_bulb";

/// The fixed multicast group the search query is addressed to.
pub fn multicast_group() -> (e: addr::Endpoint)
    ensures
        e.ip == (addr::Ipv4 { a: 239, b: 255, c: 255, d: 250 }),
        e.port == MULTICAST_PORT,
        e.ip.is_multicast(),
{
    addr::Endpoint { ip: addr::Ipv4 { a: 239, b: 255, c: 255, d: 250 }, port: MULTICAST_PORT }
}

} // verus!
