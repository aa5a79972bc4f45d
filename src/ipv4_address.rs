//! The 32-bit address type and its dotted-decimal text.
use vstd::prelude::*;
use crate::text::push_char;
use vstd::string::StringSliceAdditionalSpecFns;
use crate::errors::{MalformedAddress, ParsingFailed};
use crate::ipv4_parse::parse_ipv4_spec;
use crate::octets::{octets_of, octets_u32, octets_value, value_of_octets_u32};

verus! {

/// The value of the unspecified address: `0.0.0.0`
pub const IPV4_UNSPECIFIED: u32 = 0;

/// The value of the loopback address: `127.0.0.1`
pub const IPV4_LOOPBACK: u32 = 0x7f00_0001;

/// The largest prefix length of a 32-bit mask.
pub const IPV4_MAX_PREFIXLEN: u8 = 32;

/// The decimal digit `d`.
pub open spec fn dec_char(d: int) -> char {
    if d == 0 { '0' } else if d == 1 { '1' } else if d == 2 { '2' } else if d == 3 { '3' }
    else if d == 4 { '4' } else if d == 5 { '5' } else if d == 6 { '6' } else if d == 7 { '7' }
    else if d == 8 { '8' } else { '9' }
}

/// A byte in decimal, without leading zeros.
pub open spec fn dec_text(n: u8) -> Seq<char> {
    if n >= 100 {
        seq![dec_char(n as int / 100), dec_char(n as int / 10 % 10), dec_char(n as int % 10)]
    } else if n >= 10 {
        seq![dec_char(n as int / 10), dec_char(n as int % 10)]
    } else {
        seq![dec_char(n as int)]
    }
}

/// The dotted-decimal text of a 32-bit value.
pub open spec fn ipv4_text(v: u32) -> Seq<char> {
    let o = octets_of(v as nat, 4);
    dec_text(o[0]) + seq!['.'] + dec_text(o[1]) + seq!['.'] + dec_text(o[2]) + seq!['.']
        + dec_text(o[3])
}

fn decimal_char(d: u8) -> (c: char)
    requires
        d < 10,
    ensures
        c == dec_char(d as int),
{
    match d {
        0 => '0',
        1 => '1',
        2 => '2',
        3 => '3',
        4 => '4',
        5 => '5',
        6 => '6',
        7 => '7',
        8 => '8',
        _ => '9',
    }
}

pub(crate) fn write_decimal(out: &mut String, n: u8)
    ensures
        final(out)@ == old(out)@ + dec_text(n),
{
    if n >= 100 {
        push_char(out, decimal_char(n / 100));
    }
    if n >= 10 {
        push_char(out, decimal_char(n / 10 % 10));
    }
    push_char(out, decimal_char(n % 10));
    assert(out@ =~= old(out)@ + dec_text(n));
}

/// A 32-bit network address.
#[derive(Copy, Clone, Debug, PartialEq, Eq, Hash, Structural)]
pub struct Ipv4Address(pub u32);

impl Ipv4Address {
    /// Return `true` if this address is `0.0.0.0`
    pub fn is_unspecified(self) -> (r: bool)
        ensures
            r == (self.0 == 0),
    {
        self.0 == IPV4_UNSPECIFIED
    }

    /// Return `true` if this address is `127.0.0.1`
    pub fn is_loopback(self) -> (r: bool)
        ensures
            r == (self.0 == 0x7f00_0001),
    {
        self.0 == IPV4_LOOPBACK
    }

    /// Return `true` if this address is a multicast address: in `224.0.0.0/4`.
    pub fn is_multicast(self) -> (r: bool)
        ensures
            r == (self.0 / 0x1000_0000 == 0xe),
    {
        self.0 / 0x1000_0000 == 0xe
    }

    /// Return the address as an `u32`
    pub fn value(self) -> (r: u32)
        ensures
            r == self.0,
    {
        self.0
    }

    /// Return the address as an array of bytes, most significant first
    pub fn octets(self) -> (r: [u8; 4])
        ensures
            r@ == octets_of(self.0 as nat, 4),
    {
        octets_u32(self.0)
    }

    /// The address whose bytes are the first four of `bytes`.
    pub fn from_slice_unchecked(bytes: &[u8]) -> (r: Ipv4Address)
        requires
            bytes@.len() >= 4,
        ensures
            r.0 == octets_value(bytes@.subrange(0, 4)),
    {
        Ipv4Address(value_of_octets_u32(bytes))
    }

    /// The address whose bytes are `bytes`, or an error where there are not exactly four.
    pub fn from_slice(bytes: &[u8]) -> (r: Result<Ipv4Address, MalformedAddress>)
        ensures
            bytes@.len() != 4 ==> r == Err::<Ipv4Address, MalformedAddress>(MalformedAddress),
            bytes@.len() == 4 ==> r is Ok && r->Ok_0.0 == octets_value(bytes@),
            bytes@.len() == 4 ==> r == Ok::<Ipv4Address, MalformedAddress>(Ipv4Address(octets_value(bytes@) as u32)),
    {
        if bytes.len() != 4 {
            return Err(MalformedAddress);
        }
        assert(bytes@.subrange(0, 4) =~= bytes@);
        Ok(Self::from_slice_unchecked(bytes))
    }

    /// The dotted-decimal text of the address, such as `1.2.3.4`.
    pub fn to_string(self) -> (r: String)
        ensures
            r@ == ipv4_text(self.0),
    {
        let octets = self.octets();
        let mut s = String::new();
        write_decimal(&mut s, octets[0]);
        push_char(&mut s, '.');
        write_decimal(&mut s, octets[1]);
        push_char(&mut s, '.');
        write_decimal(&mut s, octets[2]);
        push_char(&mut s, '.');
        write_decimal(&mut s, octets[3]);
        assert(s@ =~= ipv4_text(self.0));
        s
    }

    /// Parses a dotted-decimal address. The error holds the text.
    pub fn from_str(s: &str) -> (r: Result<Ipv4Address, ParsingFailed>)
        ensures
            match parse_ipv4_spec(s.spec_bytes()) {
                Some(v) => r is Ok && r->Ok_0.0 == v,
                None => r is Err && r->Err_0.0@ == s@,
            },
    {
        match Ipv4Address::parse(s.as_bytes()) {
            Ok(v) => Ok(Ipv4Address(v)),
            Err(()) => Err(ParsingFailed(String::from_str(s))),
        }
    }
}

impl core::str::FromStr for Ipv4Address {
    type Err = ParsingFailed;

    fn from_str(s: &str) -> Result<Self, Self::Err> {
        Ipv4Address::from_str(s)
    }
}

impl From<u32> for Ipv4Address {
    fn from(value: u32) -> (r: Ipv4Address) {
        Ipv4Address(value)
    }
}

impl vstd::std_specs::convert::FromSpecImpl<u32> for Ipv4Address {
    open spec fn obeys_from_spec() -> bool {
        true
    }

    open spec fn from_spec(value: u32) -> Ipv4Address {
        Ipv4Address(value)
    }
}

impl From<Ipv4Address> for u32 {
    fn from(ip: Ipv4Address) -> (r: u32) {
        ip.0
    }
}

impl vstd::std_specs::convert::FromSpecImpl<Ipv4Address> for u32 {
    open spec fn obeys_from_spec() -> bool {
        true
    }

    open spec fn from_spec(ip: Ipv4Address) -> u32 {
        ip.0
    }
}

impl From<[u8; 16]> for Ipv4Address {
    fn from(bytes: [u8; 16]) -> (r: Ipv4Address) {
        Ipv4Address::from_slice_unchecked(vstd::array::array_as_slice(&bytes))
    }
}

impl vstd::std_specs::convert::FromSpecImpl<[u8; 16]> for Ipv4Address {
    open spec fn obeys_from_spec() -> bool {
        true
    }

    open spec fn from_spec(bytes: [u8; 16]) -> Ipv4Address {
        Ipv4Address(octets_value(bytes@.subrange(0, 4)) as u32)
    }
}

impl<'a> core::convert::TryFrom<&'a [u8]> for Ipv4Address {
    type Error = MalformedAddress;

    fn try_from(bytes: &'a [u8]) -> Result<Ipv4Address, MalformedAddress> {
        Ipv4Address::from_slice(bytes)
    }
}

impl<'a> vstd::std_specs::convert::TryFromSpecImpl<&'a [u8]> for Ipv4Address {
    open spec fn obeys_try_from_spec() -> bool {
        true
    }

    open spec fn try_from_spec(bytes: &'a [u8]) -> Result<Ipv4Address, MalformedAddress> {
        if bytes@.len() != 4 {
            Err(MalformedAddress)
        } else {
            Ok(Ipv4Address(octets_value(bytes@) as u32))
        }
    }
}

} // verus!
