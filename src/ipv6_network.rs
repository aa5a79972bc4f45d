//! A 128-bit network: an address together with a mask.
use vstd::prelude::*;
use vstd::string::StringSliceAdditionalSpecFns;
use crate::errors::ParsingFailed;
use crate::ipv4_address::{dec_text, write_decimal};
use crate::ipv4_parse::{dec_value, is_dec_byte};
use crate::ipv6_address::{format_canonical, Ipv6Address};
use crate::text::push_char;
use crate::ipv6_mask::Ipv6Mask;
use crate::ipv6_parse::parse_ipv6_spec;
use crate::prefix::{is_mask, mask128_len, prefix_mask};

verus! {

/// ASCII `/`.
pub const SLASH: u8 = 47;

/// ASCII `+`.
pub const PLUS: u8 = 43;

/// The first position at or after `i` where `b` holds `c`, or the length of `b` if there is none.
pub open spec fn find_byte(b: Seq<u8>, c: u8, i: int) -> int
    decreases b.len() - i,
{
    if i < 0 || i >= b.len() {
        b.len() as int
    } else if b[i] == c {
        i
    } else {
        find_byte(b, c, i + 1)
    }
}

/// What follows the optional `+` of a number.
pub open spec fn unsigned_digits(b: Seq<u8>) -> Seq<u8> {
    if b.len() > 0 && b[0] == PLUS {
        b.drop_first()
    } else {
        b
    }
}

/// Every byte of `d` is a decimal digit.
pub open spec fn all_dec(d: Seq<u8>) -> bool {
    forall|k: int| 0 <= k < d.len() ==> is_dec_byte(#[trigger] d[k])
}

/// The value of a decimal byte number, as the standard library reads one: an optional `+`, then
/// one or more decimal digits denoting at most 255.
pub open spec fn parse_u8_spec(b: Seq<u8>) -> Option<nat> {
    let d = unsigned_digits(b);
    if d.len() == 0 || !all_dec(d) {
        None
    } else if dec_value(d) > 255 {
        None
    } else {
        Some(dec_value(d))
    }
}

/// The address and the mask value that the text `b` of a network denotes, if it denotes one: an
/// address, a `/`, and a prefix length of at most 128 or a mask written as an address, ending at
/// the next `/` or at the end.
pub open spec fn parse_network_spec(b: Seq<u8>) -> Option<(u128, u128)> {
    let k = find_byte(b, SLASH, 0);
    let e = find_byte(b, SLASH, k + 1);
    if k >= b.len() {
        None
    } else {
        match parse_ipv6_spec(b.subrange(0, k)) {
            None => None,
            Some(ip) => {
                let field = b.subrange(k + 1, e);
                match parse_u8_spec(field) {
                    Some(n) => if n <= 128 {
                        Some((ip, prefix_mask(128, n) as u128))
                    } else {
                        None
                    },
                    None => match parse_ipv6_spec(field) {
                        Some(m) => if is_mask(128, m as nat) {
                            Some((ip, m))
                        } else {
                            None
                        },
                        None => None,
                    },
                }
            },
        }
    }
}

proof fn lemma_dec_value_prefix_le(d: Seq<u8>, k: int)
    requires
        0 <= k <= d.len(),
    ensures
        dec_value(d.subrange(0, k)) <= dec_value(d),
    decreases d.len(),
{
    if k < d.len() {
        let p = d.drop_last();
        assert(p.subrange(0, k) == d.subrange(0, k));
        lemma_dec_value_prefix_le(p, k);
    } else {
        assert(d.subrange(0, k) == d);
    }
}

/// Reads a decimal byte number as the standard library does.
fn parse_u8_text(b: &[u8]) -> (r: Option<u8>)
    ensures
        match parse_u8_spec(b@) {
            Some(n) => r == Some(n as u8),
            None => r is None,
        },
{
    let len = b.len();
    let start: usize = if len > 0 && b[0] == PLUS { 1 } else { 0 };
    let ghost d = b@.subrange(start as int, len as int);
    assert(d =~= unsigned_digits(b@));
    if start == len {
        return None;
    }
    let mut acc: u16 = 0;
    let mut i: usize = start;
    while i < len
        invariant
            len == b@.len(),
            start <= i <= len,
            d == b@.subrange(start as int, len as int),
            d == unsigned_digits(b@),
            forall|k: int| start <= k < i ==> is_dec_byte(#[trigger] b@[k]),
            acc == dec_value(b@.subrange(start as int, i as int)),
            acc <= 255,
        decreases len - i,
    {
        if b[i] < 48 || b[i] > 57 {
            assert(!is_dec_byte(d[i - start]));
            return None;
        }
        let ghost next = b@.subrange(start as int, i + 1);
        assert(next.drop_last() =~= b@.subrange(start as int, i as int));
        acc = acc * 10 + (b[i] - 48) as u16;
        i = i + 1;
        if acc > 255 {
            proof {
                assert(d.subrange(0, i - start) =~= next);
                lemma_dec_value_prefix_le(d, i - start);
                assert(dec_value(d) > 255);
                assert(parse_u8_spec(b@) is None);
            }
            return None;
        }
    }
    assert(b@.subrange(start as int, len as int) =~= d);
    assert forall|k: int| 0 <= k < d.len() implies is_dec_byte(#[trigger] d[k]) by {
        assert(d[k] == b@[start + k]);
    }
    Some(acc as u8)
}

/// The first position at or after `from` where `b` holds `c`, or its length.
fn find(b: &[u8], c: u8, from: usize) -> (r: usize)
    requires
        from <= b@.len(),
    ensures
        r == find_byte(b@, c, from as int),
        from <= r <= b@.len(),
{
    let mut i: usize = from;
    while i < b.len() && b[i] != c
        invariant
            from <= i <= b@.len(),
            find_byte(b@, c, from as int) == find_byte(b@, c, i as int),
        decreases b.len() - i,
    {
        i = i + 1;
    }
    i
}

/// A network: an address and a mask.
#[derive(Copy, Clone, Debug, PartialEq, Eq, Hash)]
pub struct Ipv6Network(pub Ipv6Address, pub Ipv6Mask);

impl Ipv6Network {
    /// Create a new network address from the given address and mask.
    pub fn new(ip: Ipv6Address, mask: Ipv6Mask) -> (r: Self)
        ensures
            r.0 == ip,
            r.1 == mask,
    {
        Ipv6Network(ip, mask)
    }

    /// The host part of the address: the bits that the mask leaves clear.
    pub fn host(&self) -> (r: Ipv6Address)
        ensures
            r.0 == self.0.0 & !self.1@,
    {
        Ipv6Address(self.0.0 & self.host_mask().0)
    }

    /// The network part of the address: the bits that the mask sets.
    pub fn network(&self) -> (r: Ipv6Address)
        ensures
            r.0 == self.0.0 & self.1@,
    {
        Ipv6Address(self.0.0 & u128::from(self.1))
    }

    /// The complement of the mask.
    pub fn host_mask(&self) -> (r: Ipv6Address)
        ensures
            r.0 == !self.1@,
    {
        Ipv6Address(!u128::from(self.1))
    }

    /// The last address of the network: the host bits all set.
    pub fn broadcast(&self) -> (r: Ipv6Address)
        ensures
            r.0 == self.0.0 | !self.1@,
    {
        Ipv6Address(self.0.0 | self.host_mask().0)
    }

    /// The largest host part: the complement of the mask as a number.
    pub fn len(&self) -> (r: u128)
        ensures
            r == !self.1@,
    {
        self.host_mask().0
    }

    pub fn mask(&self) -> (r: Ipv6Mask)
        ensures
            r == self.1,
    {
        self.1
    }

    pub fn ip(&self) -> (r: &Ipv6Address)
        ensures
            *r == self.0,
    {
        &self.0
    }

    pub fn ip_mut(&mut self) -> (r: &mut Ipv6Address)
        ensures
            *r == old(self).0,
            *final(self) == Ipv6Network(*final(r), old(self).1),
    {
        &mut self.0
    }

    pub fn mask_mut(&mut self) -> (r: &mut Ipv6Mask)
        ensures
            *r == old(self).1,
            *final(self) == Ipv6Network(old(self).0, *final(r)),
    {
        &mut self.1
    }

    /// The text of the network: the canonical text of the address, a `/`, and the prefix length.
    pub fn to_string(&self) -> (r: String)
        ensures
            exists|n: u8|
                n <= 128 && self.1@ == prefix_mask(128, n as nat) && r@ == format_canonical(
                    self.0.0,
                ) + seq!['/'] + dec_text(n),
    {
        let mut s = self.0.to_string();
        push_char(&mut s, '/');
        let n = self.1.prefixlen();
        write_decimal(&mut s, n as u8);
        s
    }

    /// Parses `address/prefix-length` or `address/mask`. The error holds the text.
    pub fn from_str(s: &str) -> (r: Result<Ipv6Network, ParsingFailed>)
        ensures
            match parse_network_spec(s.spec_bytes()) {
                Some((ip, m)) => r is Ok && r->Ok_0.0.0 == ip && r->Ok_0.1@ == m,
                None => r is Err && r->Err_0.0@ == s@,
            },
    {
        let bytes = s.as_bytes();
        let k = find(bytes, SLASH, 0);
        if k >= bytes.len() {
            return Err(ParsingFailed(String::from_str(s)));
        }
        let e = find(bytes, SLASH, k + 1);
        let ip = match Ipv6Address::parse(&bytes[0..k]) {
            Ok(v) => v,
            Err(()) => {
                return Err(ParsingFailed(String::from_str(s)));
            },
        };
        let field = &bytes[k + 1..e];
        match parse_u8_text(field) {
            Some(n) => {
                match Ipv6Mask::from_prefixlen(n) {
                    Ok(mask) => Ok(Ipv6Network(Ipv6Address(ip), mask)),
                    Err(_) => Err(ParsingFailed(String::from_str(s))),
                }
            },
            None => {
                let m = match Ipv6Address::parse(field) {
                    Ok(v) => v,
                    Err(()) => {
                        return Err(ParsingFailed(String::from_str(s)));
                    },
                };
                match Ipv6Mask::try_from(m) {
                    Ok(mask) => Ok(Ipv6Network(Ipv6Address(ip), mask)),
                    Err(_) => Err(ParsingFailed(String::from_str(s))),
                }
            },
        }
    }
}

impl core::str::FromStr for Ipv6Network {
    type Err = ParsingFailed;

    fn from_str(s: &str) -> Result<Self, Self::Err> {
        Ipv6Network::from_str(s)
    }
}

} // verus!
