//! Network masks of 32-bit addresses.
use vstd::prelude::*;
use vstd::string::StringSliceAdditionalSpecFns;
use crate::errors::{InvalidMask, ParsingFailed};
use crate::ipv4_address::{ipv4_text, Ipv4Address};
use crate::ipv4_parse::parse_ipv4_spec;
use crate::prefix::{is_mask, mask32_len, mask32_of_len, prefix_mask};

verus! {

/// A valid 32-bit mask: some top bits set, and the others clear.
#[derive(Copy, Clone, Debug, PartialEq, Eq, Hash, Structural)]
pub struct Ipv4Mask(u32);

impl View for Ipv4Mask {
    type V = u32;

    closed spec fn view(&self) -> u32 {
        self.0
    }
}

/// Check whether the given integer represents a valid IPv4 mask.
fn is_valid_mask(value: u32) -> (r: bool)
    ensures
        r == is_mask(32, value as nat),
{
    mask32_len(value).is_some()
}

impl Ipv4Mask {
    #[verifier::type_invariant]
    spec fn well_formed(self) -> bool {
        is_mask(32, self.0 as nat)
    }

    /// The mask as a prefix length: the number of its set bits.
    pub fn prefixlen(self) -> (r: u32)
        ensures
            r <= 32,
            self@ == prefix_mask(32, r as nat),
    {
        proof {
            use_type_invariant(self);
        }
        match mask32_len(self.0) {
            Some(n) => n as u32,
            None => 0,
        }
    }

    /// The mask of the given prefix length; an error for a length over 32.
    pub fn from_prefixlen(prefixlen: u8) -> (r: Result<Self, InvalidMask>)
        ensures
            prefixlen <= 32 ==> r is Ok && r->Ok_0@ == prefix_mask(32, prefixlen as nat),
            prefixlen > 32 ==> r is Err,
    {
        if prefixlen > IPV4_MAX_PREFIXLEN_U8 {
            return Err(InvalidMask);
        }
        let m = mask32_of_len(prefixlen);
        Ok(Ipv4Mask(m))
    }

    /// The dotted-decimal text of the mask, such as `255.248.0.0`.
    pub fn to_string(self) -> (r: String)
        ensures
            r@ == ipv4_text(self@),
    {
        Ipv4Address::from(self).to_string()
    }

    /// The mask with the given value, or an error where it is not a valid mask.
    pub fn try_from(value: u32) -> (r: Result<Ipv4Mask, InvalidMask>)
        ensures
            is_mask(32, value as nat) ==> r is Ok && r->Ok_0@ == value,
            !is_mask(32, value as nat) ==> r is Err,
    {
        if is_valid_mask(value) {
            Ok(Ipv4Mask(value))
        } else {
            Err(InvalidMask)
        }
    }

    /// Parses a mask written as a dotted-decimal address. The error holds the text.
    pub fn from_str(s: &str) -> (r: Result<Ipv4Mask, ParsingFailed>)
        ensures
            match parse_ipv4_spec(s.spec_bytes()) {
                Some(v) => if is_mask(32, v) {
                    r is Ok && r->Ok_0@ == v
                } else {
                    r is Err && r->Err_0.0@ == s@
                },
                None => r is Err && r->Err_0.0@ == s@,
            },
    {
        let ip = Ipv4Address::from_str(s)?;
        match Ipv4Mask::try_from(ip.0) {
            Ok(m) => Ok(m),
            Err(_) => Err(ParsingFailed(String::from_str(s))),
        }
    }
}

const IPV4_MAX_PREFIXLEN_U8: u8 = 32;

impl core::convert::TryFrom<u32> for Ipv4Mask {
    type Error = InvalidMask;

    fn try_from(value: u32) -> Result<Ipv4Mask, InvalidMask> {
        if is_valid_mask(value) {
            Ok(Ipv4Mask(value))
        } else {
            Err(InvalidMask)
        }
    }
}

impl vstd::std_specs::convert::TryFromSpecImpl<u32> for Ipv4Mask {
    open spec fn obeys_try_from_spec() -> bool {
        true
    }

    closed spec fn try_from_spec(value: u32) -> Result<Ipv4Mask, InvalidMask> {
        if is_mask(32, value as nat) {
            Ok(Ipv4Mask(value))
        } else {
            Err(InvalidMask)
        }
    }
}

impl core::convert::TryFrom<Ipv4Address> for Ipv4Mask {
    type Error = InvalidMask;

    fn try_from(value: Ipv4Address) -> Result<Ipv4Mask, InvalidMask> {
        if is_valid_mask(value.0) {
            Ok(Ipv4Mask(value.0))
        } else {
            Err(InvalidMask)
        }
    }
}

impl vstd::std_specs::convert::TryFromSpecImpl<Ipv4Address> for Ipv4Mask {
    open spec fn obeys_try_from_spec() -> bool {
        true
    }

    closed spec fn try_from_spec(value: Ipv4Address) -> Result<Ipv4Mask, InvalidMask> {
        if is_mask(32, value.0 as nat) {
            Ok(Ipv4Mask(value.0))
        } else {
            Err(InvalidMask)
        }
    }
}

impl core::str::FromStr for Ipv4Mask {
    type Err = ParsingFailed;

    fn from_str(s: &str) -> Result<Self, Self::Err> {
        Ipv4Mask::from_str(s)
    }
}

impl From<Ipv4Mask> for u32 {
    fn from(value: Ipv4Mask) -> (r: u32) {
        value.0
    }
}

impl vstd::std_specs::convert::FromSpecImpl<Ipv4Mask> for u32 {
    open spec fn obeys_from_spec() -> bool {
        true
    }

    open spec fn from_spec(value: Ipv4Mask) -> u32 {
        value@
    }
}

impl From<Ipv4Mask> for Ipv4Address {
    fn from(value: Ipv4Mask) -> (r: Ipv4Address) {
        Ipv4Address(value.0)
    }
}

impl vstd::std_specs::convert::FromSpecImpl<Ipv4Mask> for Ipv4Address {
    open spec fn obeys_from_spec() -> bool {
        true
    }

    open spec fn from_spec(value: Ipv4Mask) -> Ipv4Address {
        Ipv4Address(value@)
    }
}

impl core::ops::Not for Ipv4Mask {
    type Output = Ipv4Address;

    fn not(self) -> Ipv4Address {
        Ipv4Address(!self.0)
    }
}

impl vstd::std_specs::ops::NotSpecImpl for Ipv4Mask {
    open spec fn obeys_not_spec() -> bool {
        true
    }

    open spec fn not_req(self) -> bool {
        true
    }

    closed spec fn not_spec(self) -> Ipv4Address {
        Ipv4Address(!self.0)
    }
}

impl core::ops::BitAnd<Ipv4Mask> for Ipv4Address {
    type Output = Ipv4Address;

    fn bitand(self, rhs: Ipv4Mask) -> Ipv4Address {
        Ipv4Address(self.0 & rhs.0)
    }
}

impl vstd::std_specs::ops::BitAndSpecImpl<Ipv4Mask> for Ipv4Address {
    open spec fn obeys_bitand_spec() -> bool {
        true
    }

    open spec fn bitand_req(self, rhs: Ipv4Mask) -> bool {
        true
    }

    closed spec fn bitand_spec(self, rhs: Ipv4Mask) -> Ipv4Address {
        Ipv4Address(self.0 & rhs.0)
    }
}

} // verus!
