//! Network masks of 128-bit addresses.
use vstd::prelude::*;
use vstd::string::StringSliceAdditionalSpecFns;
use crate::errors::{InvalidMask, ParsingFailed};
use crate::ipv6_address::{format_canonical, Ipv6Address};
use crate::ipv6_format::Ipv6Formatter;
use crate::groups::hextets_of;
use crate::ipv6_parse::parse_ipv6_spec;
use crate::prefix::{is_mask, mask128_len, mask128_of_len, prefix_mask};

verus! {

/// A valid 128-bit mask: some top bits set, and the others clear.
#[derive(Copy, Clone, Debug, PartialEq, Eq, Hash, Structural)]
pub struct Ipv6Mask(u128);

impl View for Ipv6Mask {
    type V = u128;

    closed spec fn view(&self) -> u128 {
        self.0
    }
}

/// Check whether the given integer represents a valid IPv6 mask.
fn is_valid_mask(value: u128) -> (r: bool)
    ensures
        r == is_mask(128, value as nat),
{
    mask128_len(value).is_some()
}

impl Ipv6Mask {
    #[verifier::type_invariant]
    spec fn well_formed(self) -> bool {
        is_mask(128, self.0 as nat)
    }

    /// The mask as a prefix length: the number of its set bits.
    pub fn prefixlen(&self) -> (r: u32)
        ensures
            r <= 128,
            self@ == prefix_mask(128, r as nat),
    {
        proof {
            use_type_invariant(self);
        }
        match mask128_len(self.0) {
            Some(n) => n as u32,
            None => 0,
        }
    }

    /// The mask of the given prefix length; an error for a length over 128.
    pub fn from_prefixlen(prefixlen: u8) -> (r: Result<Self, InvalidMask>)
        ensures
            prefixlen <= 128 ==> r is Ok && r->Ok_0@ == prefix_mask(128, prefixlen as nat),
            prefixlen > 128 ==> r is Err,
    {
        if prefixlen > IPV6_MAX_PREFIXLEN_U8 {
            return Err(InvalidMask);
        }
        let m = mask128_of_len(prefixlen);
        Ok(Ipv6Mask(m))
    }

    /// A formatter of the mask as an address, with the canonical settings.
    pub fn formatter(&self) -> (r: Ipv6Formatter)
        ensures
            r.hextets@ == hextets_of(self@),
            r.ellipsis,
            !r.leading_zeros,
            !r.upper_case,
    {
        Ipv6Address(self.0).formatter()
    }

    /// The canonical text of the mask as an address, such as `ffff:ffff:ffff:ffff::`.
    pub fn to_string(&self) -> (r: String)
        ensures
            r@ == format_canonical(self@),
    {
        Ipv6Address(self.0).to_string()
    }

    /// The mask with the given value, or an error where it is not a valid mask.
    pub fn try_from(value: u128) -> (r: Result<Ipv6Mask, InvalidMask>)
        ensures
            is_mask(128, value as nat) ==> r is Ok && r->Ok_0@ == value,
            !is_mask(128, value as nat) ==> r is Err,
    {
        if is_valid_mask(value) {
            Ok(Ipv6Mask(value))
        } else {
            Err(InvalidMask)
        }
    }

    /// Parses a mask written as an address. The error holds the text.
    pub fn from_str(s: &str) -> (r: Result<Ipv6Mask, ParsingFailed>)
        ensures
            match parse_ipv6_spec(s.spec_bytes()) {
                Some(v) => if is_mask(128, v as nat) {
                    r is Ok && r->Ok_0@ == v
                } else {
                    r is Err && r->Err_0.0@ == s@
                },
                None => r is Err && r->Err_0.0@ == s@,
            },
    {
        let ip = Ipv6Address::from_str(s)?;
        match Ipv6Mask::try_from(ip.0) {
            Ok(m) => Ok(m),
            Err(_) => Err(ParsingFailed(String::from_str(s))),
        }
    }
}

const IPV6_MAX_PREFIXLEN_U8: u8 = 128;

impl core::convert::TryFrom<u128> for Ipv6Mask {
    type Error = InvalidMask;

    fn try_from(value: u128) -> Result<Ipv6Mask, InvalidMask> {
        if is_valid_mask(value) {
            Ok(Ipv6Mask(value))
        } else {
            Err(InvalidMask)
        }
    }
}

impl vstd::std_specs::convert::TryFromSpecImpl<u128> for Ipv6Mask {
    open spec fn obeys_try_from_spec() -> bool {
        true
    }

    closed spec fn try_from_spec(value: u128) -> Result<Ipv6Mask, InvalidMask> {
        if is_mask(128, value as nat) {
            Ok(Ipv6Mask(value))
        } else {
            Err(InvalidMask)
        }
    }
}

impl core::convert::TryFrom<Ipv6Address> for Ipv6Mask {
    type Error = InvalidMask;

    fn try_from(value: Ipv6Address) -> Result<Ipv6Mask, InvalidMask> {
        if is_valid_mask(value.0) {
            Ok(Ipv6Mask(value.0))
        } else {
            Err(InvalidMask)
        }
    }
}

impl vstd::std_specs::convert::TryFromSpecImpl<Ipv6Address> for Ipv6Mask {
    open spec fn obeys_try_from_spec() -> bool {
        true
    }

    closed spec fn try_from_spec(value: Ipv6Address) -> Result<Ipv6Mask, InvalidMask> {
        if is_mask(128, value.0 as nat) {
            Ok(Ipv6Mask(value.0))
        } else {
            Err(InvalidMask)
        }
    }
}

impl core::str::FromStr for Ipv6Mask {
    type Err = ParsingFailed;

    fn from_str(s: &str) -> Result<Self, Self::Err> {
        Ipv6Mask::from_str(s)
    }
}

impl From<Ipv6Mask> for u128 {
    fn from(value: Ipv6Mask) -> (r: u128) {
        value.0
    }
}

impl vstd::std_specs::convert::FromSpecImpl<Ipv6Mask> for u128 {
    open spec fn obeys_from_spec() -> bool {
        true
    }

    open spec fn from_spec(value: Ipv6Mask) -> u128 {
        value@
    }
}

impl From<Ipv6Mask> for Ipv6Address {
    fn from(value: Ipv6Mask) -> (r: Ipv6Address) {
        Ipv6Address(value.0)
    }
}

impl vstd::std_specs::convert::FromSpecImpl<Ipv6Mask> for Ipv6Address {
    open spec fn obeys_from_spec() -> bool {
        true
    }

    open spec fn from_spec(value: Ipv6Mask) -> Ipv6Address {
        Ipv6Address(value@)
    }
}

impl core::ops::Not for Ipv6Mask {
    type Output = Ipv6Address;

    fn not(self) -> Ipv6Address {
        Ipv6Address(!self.0)
    }
}

impl vstd::std_specs::ops::NotSpecImpl for Ipv6Mask {
    open spec fn obeys_not_spec() -> bool {
        true
    }

    open spec fn not_req(self) -> bool {
        true
    }

    closed spec fn not_spec(self) -> Ipv6Address {
        Ipv6Address(!self.0)
    }
}

impl core::ops::BitAnd<Ipv6Mask> for Ipv6Address {
    type Output = Ipv6Address;

    fn bitand(self, rhs: Ipv6Mask) -> Ipv6Address {
        Ipv6Address(self.0 & rhs.0)
    }
}

impl vstd::std_specs::ops::BitAndSpecImpl<Ipv6Mask> for Ipv6Address {
    open spec fn obeys_bitand_spec() -> bool {
        true
    }

    open spec fn bitand_req(self, rhs: Ipv6Mask) -> bool {
        true
    }

    closed spec fn bitand_spec(self, rhs: Ipv6Mask) -> Ipv6Address {
        Ipv6Address(self.0 & rhs.0)
    }
}

} // verus!
