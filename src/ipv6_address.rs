//! The 128-bit address type, its scopes and its text.
use vstd::prelude::*;
use vstd::string::StringSliceAdditionalSpecFns;
use crate::errors::{MalformedAddress, ParsingFailed};
use crate::groups::{hextets_of, unpack_groups};
use crate::ipv6_format::{format_groups, Ipv6Formatter};
use crate::ipv6_parse::parse_ipv6_spec;
use crate::octets::{octets_of, octets_u128, pad_octets, value_of_octets_u128};

verus! {

/// `2^120`: the weight of the lowest bit of the top byte.
pub const TOP_BYTE: u128 = 0x0100_0000_0000_0000_0000_0000_0000_0000;

/// `2^112`: the weight of the lowest bit of the scope field of a multicast address, the low four
/// bits of its second byte.
pub const SCOPE_UNIT: u128 = 0x0001_0000_0000_0000_0000_0000_0000_0000;

/// The value of the unspecified address: `::`
pub const IPV6_UNSPECIFIED: u128 = 0;

/// The value of the loopback address: `::1`
pub const IPV6_LOOPBACK: u128 = 1;

/// The value of the multicast address for all the addresses on the interface: `ff01::1`
pub const IPV6_INTERFACE_LOCAL_ALL_NODES: u128 = 0xff01_0000_0000_0000_0000_0000_0000_0001;

/// The value of the multicast address for all the nodes on the network segment: `ff02::1`
pub const IPV6_LINK_LOCAL_ALL_NODES: u128 = 0xff02_0000_0000_0000_0000_0000_0000_0001;

/// The value of the multicast address for all the routers on the network segment: `ff02::2`
pub const IPV6_LINK_LOCAL_ALL_ROUTERS: u128 = 0xff02_0000_0000_0000_0000_0000_0000_0002;

/// The largest prefix length of a 128-bit mask.
pub const IPV6_MAX_PREFIXLEN: u8 = 128;

/// The canonical text of a 128-bit value: lower case, no leading zeros, longest zero run elided.
pub open spec fn format_canonical(v: u128) -> Seq<char> {
    format_groups(hextets_of(v), true, false, false)
}

/// The scope field of a multicast address.
#[derive(Copy, Clone, Debug, PartialEq, Eq, Hash, Structural)]
pub enum Ipv6AddressScope {
    InterfaceLocal,
    LinkLocal,
    AdminLocal,
    SiteLocal,
    OrganizationLocal,
    Global,
    Reserved(u8),
    Unassigned(u8),
}

/// The scope that the 4-bit scope field `n` denotes.
pub open spec fn scope_of(n: int) -> Ipv6AddressScope {
    if n == 0x00 || n == 0x03 || n == 0x0f {
        Ipv6AddressScope::Reserved(n as u8)
    } else if n == 0x01 {
        Ipv6AddressScope::InterfaceLocal
    } else if n == 0x02 {
        Ipv6AddressScope::LinkLocal
    } else if n == 0x04 {
        Ipv6AddressScope::AdminLocal
    } else if n == 0x05 {
        Ipv6AddressScope::SiteLocal
    } else if n == 0x08 {
        Ipv6AddressScope::OrganizationLocal
    } else if n == 0x0e {
        Ipv6AddressScope::Global
    } else {
        Ipv6AddressScope::Unassigned(n as u8)
    }
}

/// The code of a scope in the scope field.
pub open spec fn scope_code(s: Ipv6AddressScope) -> u8 {
    match s {
        Ipv6AddressScope::Reserved(val) => val,
        Ipv6AddressScope::InterfaceLocal => 0x01,
        Ipv6AddressScope::LinkLocal => 0x02,
        Ipv6AddressScope::AdminLocal => 0x04,
        Ipv6AddressScope::SiteLocal => 0x05,
        Ipv6AddressScope::Unassigned(val) => val,
        Ipv6AddressScope::OrganizationLocal => 0x08,
        Ipv6AddressScope::Global => 0x0e,
    }
}

impl From<Ipv6AddressScope> for u8 {
    fn from(scope: Ipv6AddressScope) -> (r: u8) {
        match scope {
            Ipv6AddressScope::Reserved(val) => val,
            Ipv6AddressScope::InterfaceLocal => 0x01,
            Ipv6AddressScope::LinkLocal => 0x02,
            Ipv6AddressScope::AdminLocal => 0x04,
            Ipv6AddressScope::SiteLocal => 0x05,
            Ipv6AddressScope::Unassigned(val) => val,
            Ipv6AddressScope::OrganizationLocal => 0x08,
            Ipv6AddressScope::Global => 0x0e,
        }
    }
}

impl vstd::std_specs::convert::FromSpecImpl<Ipv6AddressScope> for u8 {
    open spec fn obeys_from_spec() -> bool {
        true
    }

    open spec fn from_spec(scope: Ipv6AddressScope) -> u8 {
        scope_code(scope)
    }
}

/// A 128-bit network address.
#[derive(Copy, Clone, Debug, PartialEq, Eq, Hash, Structural)]
pub struct Ipv6Address(pub u128);

impl Ipv6Address {
    /// Return `true` if this address is `::`
    pub fn is_unspecified(&self) -> (r: bool)
        ensures
            r == (self.0 == 0),
    {
        self.0 == IPV6_UNSPECIFIED
    }

    /// Return `true` if this address is `::1`
    pub fn is_loopback(&self) -> (r: bool)
        ensures
            r == (self.0 == 1),
    {
        self.0 == IPV6_LOOPBACK
    }

    /// Return `true` if this address is a multicast address: its top byte is `ff`.
    pub fn is_multicast(&self) -> (r: bool)
        ensures
            r == (self.0 / TOP_BYTE == 0xff),
    {
        self.0 / TOP_BYTE == 0xff
    }

    /// The scope that the scope field (the low four bits of the second byte) holds.
    pub fn scope(&self) -> (r: Ipv6AddressScope)
        ensures
            r == scope_of((self.0 / SCOPE_UNIT % 16) as int),
    {
        let i: u128 = self.0 / SCOPE_UNIT % 16;
        if i == 0x00 || i == 0x03 || i == 0x0f {
            Ipv6AddressScope::Reserved(i as u8)
        } else if i == 0x01 {
            Ipv6AddressScope::InterfaceLocal
        } else if i == 0x02 {
            Ipv6AddressScope::LinkLocal
        } else if i == 0x04 {
            Ipv6AddressScope::AdminLocal
        } else if i == 0x05 {
            Ipv6AddressScope::SiteLocal
        } else if i == 0x08 {
            Ipv6AddressScope::OrganizationLocal
        } else if i == 0x0e {
            Ipv6AddressScope::Global
        } else {
            Ipv6AddressScope::Unassigned(i as u8)
        }
    }

    /// Writes the code of `scope`, taken modulo 16, into the scope field; the other bits stay.
    pub fn set_scope(&mut self, scope: Ipv6AddressScope)
        ensures
            final(self).0 / SCOPE_UNIT % 16 == scope_code(scope) % 16,
            final(self).0 / SCOPE_UNIT / 16 == old(self).0 / SCOPE_UNIT / 16,
            final(self).0 % SCOPE_UNIT == old(self).0 % SCOPE_UNIT,
    {
        let code: u8 = u8::from(scope);
        let x = self.0;
        let field: u128 = x / SCOPE_UNIT % 16;
        let high: u128 = x / SCOPE_UNIT / 16;
        let low: u128 = x % SCOPE_UNIT;
        let new_field: u128 = (code % 16) as u128;
        assert(x == (high * 16 + field) * SCOPE_UNIT + low) by (nonlinear_arith)
            requires
                field == x / SCOPE_UNIT % 16,
                high == x / SCOPE_UNIT / 16,
                low == x % SCOPE_UNIT,
                SCOPE_UNIT > 0,
        ;
        assert((high * 16 + new_field) * SCOPE_UNIT + low <= u128::MAX) by (nonlinear_arith)
            requires
                high == x / SCOPE_UNIT / 16,
                x <= u128::MAX,
                new_field < 16,
                low < SCOPE_UNIT,
                SCOPE_UNIT == 0x0001_0000_0000_0000_0000_0000_0000_0000,
        ;
        let y: u128 = (high * 16 + new_field) * SCOPE_UNIT + low;
        assert(y / SCOPE_UNIT == high * 16 + new_field && y % SCOPE_UNIT == low) by (nonlinear_arith)
            requires
                y == (high * 16 + new_field) * SCOPE_UNIT + low,
                low < SCOPE_UNIT,
                SCOPE_UNIT > 0,
        ;
        self.0 = y;
    }

    /// Return `true` if this address is a link-local unicast address (`fe80::/64`, as RFC 4291
    /// defines it).
    pub fn is_link_local_unicast(&self) -> (r: bool)
        ensures
            r == (self.0 / 0x1_0000_0000_0000_0000 == 0xfe80_0000_0000_0000),
    {
        self.0 / 0x1_0000_0000_0000_0000 == 0xfe80_0000_0000_0000
    }

    /// Return `true` if this address is a global unicast address: not link local, not
    /// unspecified, not loopback and not multicast.
    pub fn is_global_unicast(&self) -> (r: bool)
        ensures
            r == !(self.0 / 0x1_0000_0000_0000_0000 == 0xfe80_0000_0000_0000 || self.0 == 0
                || self.0 == 1 || self.0 / TOP_BYTE == 0xff),
    {
        !self.is_link_local_unicast() && !self.is_unspecified() && !self.is_loopback()
            && !self.is_multicast()
    }

    /// Return the address as an `u128`
    pub fn value(&self) -> (r: u128)
        ensures
            r == self.0,
    {
        self.0
    }

    /// Return `true` if the address is an IPv4-compatible address: its top 96 bits are zero.
    pub fn is_ipv4_compatible(&self) -> (r: bool)
        ensures
            r == (self.0 / 0x1_0000_0000 == 0),
    {
        self.0 / 0x1_0000_0000 == 0
    }

    /// Return `true` if the address is an IPv4-mapped address: 80 zero bits, then 16 one bits.
    pub fn is_ipv4_mapped(&self) -> (r: bool)
        ensures
            r == (self.0 / 0x1_0000_0000 == 0xffff),
    {
        self.0 / 0x1_0000_0000 == 0xffff
    }

    /// Return the address as an array of bytes
    pub fn octets(&self) -> (r: [u8; 16])
        ensures
            r@ == octets_of(self.0 as nat, 16),
    {
        octets_u128(self.0)
    }

    /// Return the address as an array of its eight 16-bit groups
    pub fn hextets(&self) -> (r: [u16; 8])
        ensures
            r@ == hextets_of(self.0),
    {
        unpack_groups(self.0)
    }

    fn octet(&self, i: usize) -> (r: u8)
        requires
            i < 16,
        ensures
            r == octets_of(self.0 as nat, 16)[i as int],
    {
        let bytes = self.octets();
        bytes[i]
    }

    fn hextet(&self, i: usize) -> (r: u16)
        requires
            i < 8,
        ensures
            r == hextets_of(self.0)[i as int],
    {
        let groups = self.hextets();
        groups[i]
    }

    /// The address whose bytes, most significant first, are those of `bytes` followed by zero
    /// bytes up to sixteen.
    pub fn from_slice_unchecked(bytes: &[u8]) -> (r: Ipv6Address)
        requires
            bytes@.len() <= 16,
        ensures
            r.0 == crate::octets::octets_value(pad_octets(bytes@, 16)),
    {
        Ipv6Address(value_of_octets_u128(bytes))
    }

    /// The address whose bytes are `bytes`, or an error where there are not exactly sixteen.
    pub fn from_slice(bytes: &[u8]) -> (r: Result<Ipv6Address, MalformedAddress>)
        ensures
            bytes@.len() != 16 ==> r == Err::<Ipv6Address, MalformedAddress>(MalformedAddress),
            bytes@.len() == 16 ==> r is Ok && r->Ok_0.0 == crate::octets::octets_value(bytes@),
            bytes@.len() == 16 ==> r == Ok::<Ipv6Address, MalformedAddress>(Ipv6Address(crate::octets::octets_value(bytes@) as u128)),
    {
        if bytes.len() != 16 {
            return Err(MalformedAddress);
        }
        let r = Self::from_slice_unchecked(bytes);
        assert(pad_octets(bytes@, 16) =~= bytes@);
        Ok(r)
    }

    /// Create a formatter to stringify this IPv6 address, with the canonical settings.
    pub fn formatter(&self) -> (r: Ipv6Formatter)
        ensures
            r.hextets@ == hextets_of(self.0),
            r.ellipsis,
            !r.leading_zeros,
            !r.upper_case,
    {
        Ipv6Formatter::new(self.hextets())
    }

    /// The canonical text of this address (RFC 5952): lower case, the longest run of zero groups
    /// replaced by `::`, no leading zeros. For other settings, use `formatter()`.
    pub fn to_string(&self) -> (r: String)
        ensures
            r@ == format_canonical(self.0),
    {
        let mut s = String::new();
        self.formatter().rfc_5952().write(&mut s);
        s
    }

    /// Parses the text of an address. The error holds the text.
    pub fn from_str(s: &str) -> (r: Result<Ipv6Address, ParsingFailed>)
        ensures
            match parse_ipv6_spec(s.spec_bytes()) {
                Some(v) => r is Ok && r->Ok_0.0 == v,
                None => r is Err && r->Err_0.0@ == s@,
            },
    {
        let bytes = s.as_bytes();
        match Ipv6Address::parse(bytes) {
            Ok(v) => Ok(Ipv6Address(v)),
            Err(()) => Err(ParsingFailed(String::from_str(s))),
        }
    }
}

impl core::str::FromStr for Ipv6Address {
    type Err = ParsingFailed;

    fn from_str(s: &str) -> Result<Self, Self::Err> {
        Ipv6Address::from_str(s)
    }
}

impl<'a> core::convert::TryFrom<&'a [u8]> for Ipv6Address {
    type Error = MalformedAddress;

    fn try_from(bytes: &'a [u8]) -> Result<Ipv6Address, MalformedAddress> {
        Ipv6Address::from_slice(bytes)
    }
}

impl<'a> vstd::std_specs::convert::TryFromSpecImpl<&'a [u8]> for Ipv6Address {
    open spec fn obeys_try_from_spec() -> bool {
        true
    }

    open spec fn try_from_spec(bytes: &'a [u8]) -> Result<Ipv6Address, MalformedAddress> {
        if bytes@.len() != 16 {
            Err(MalformedAddress)
        } else {
            Ok(Ipv6Address(crate::octets::octets_value(bytes@) as u128))
        }
    }
}

} // verus!
