//! Value types for 32-bit and 128-bit network addresses, masks and networks, with a verified
//! textual codec for both address families.
use vstd::prelude::*;

pub mod errors;
pub mod groups;
pub mod ipv4_address;
pub mod ipv4_laws;
pub mod ipv4_mask;
pub mod ipv4_parse;
pub mod ipv6_address;
pub mod ipv6_format;
pub mod ipv6_laws;
pub mod ipv6_mask;
pub mod ipv6_network;
pub mod ipv6_ops;
pub mod ipv6_parse;
pub mod octets;
pub mod prefix;
mod text;

pub use errors::{InvalidMask, MalformedAddress, ParsingFailed};
pub use ipv4_address::{Ipv4Address, IPV4_LOOPBACK, IPV4_MAX_PREFIXLEN, IPV4_UNSPECIFIED};
pub use ipv4_mask::Ipv4Mask;
pub use ipv6_address::{
    Ipv6Address, Ipv6AddressScope, IPV6_INTERFACE_LOCAL_ALL_NODES, IPV6_LINK_LOCAL_ALL_NODES,
    IPV6_LINK_LOCAL_ALL_ROUTERS, IPV6_LOOPBACK, IPV6_MAX_PREFIXLEN, IPV6_UNSPECIFIED,
};
pub use ipv6_format::Ipv6Formatter;
pub use ipv6_mask::Ipv6Mask;
pub use ipv6_network::Ipv6Network;

verus! {

} // verus!
