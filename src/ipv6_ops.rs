//! Integer operations on 128-bit addresses: the address as a number.
use vstd::prelude::*;
use vstd::string::StringSliceAdditionalSpecFns;
use crate::ipv6_address::Ipv6Address;
use crate::octets::{octets_of, octets_u128, octets_value, value_of_octets_u128, pad_octets};
use crate::prefix::{lemma_two_to_values, two_to};

verus! {

/// `2^128`, the number of 128-bit values.
pub open spec fn modulus() -> int {
    0x1_0000_0000_0000_0000_0000_0000_0000_0000int
}

/// The number of set bits of `v`.
pub open spec fn ones(v: nat) -> nat
    decreases v,
{
    if v == 0 {
        0
    } else {
        v % 2 + ones(v / 2)
    }
}

/// The number of bits of `v` up to its highest set bit.
pub open spec fn bit_len(v: nat) -> nat
    decreases v,
{
    if v == 0 {
        0
    } else {
        1 + bit_len(v / 2)
    }
}

/// The number of clear bits of a nonzero `v` below its lowest set bit.
pub open spec fn low_zeros(v: nat) -> nat
    decreases v,
{
    if v == 0 || v % 2 == 1 {
        0
    } else {
        1 + low_zeros(v / 2)
    }
}

/// `v` with its sixteen bytes in reverse order.
pub open spec fn swapped(v: u128) -> nat {
    octets_value(octets_of(v as nat, 16).reverse())
}

/// The value that `u128::from_str_radix` reads from a text in a radix.
pub uninterp spec fn radix_value(s: Seq<char>, radix: u32) -> Option<u128>;

/// Relies on `u128::from_str_radix`: the value it reads from the text, or its error; an empty
/// text is an error. It panics on a radix outside 2 to 36.
#[verifier::external_body]
fn u128_from_str_radix(src: &str, radix: u32) -> (r: Result<u128, core::num::ParseIntError>)
    requires
        2 <= radix <= 36,
    ensures
        match r {
            Ok(v) => radix_value(src@, radix) == Some(v),
            Err(_) => radix_value(src@, radix) is None,
        },
        src@.len() == 0 ==> r is Err,
{
    u128::from_str_radix(src, radix)
}

#[verifier::external_type_specification]
#[verifier::external_body]
pub struct ExParseIntError(core::num::ParseIntError);

/// Relies on `u128::to_be`: on a big-endian target the value itself, else its bytes swapped.
#[verifier::external_body]
fn u128_to_be(v: u128) -> (r: u128)
    ensures
        r == v || r == swapped(v),
{
    v.to_be()
}

/// Relies on `u128::to_le`: on a little-endian target the value itself, else its bytes swapped.
#[verifier::external_body]
fn u128_to_le(v: u128) -> (r: u128)
    ensures
        r == v || r == swapped(v),
{
    v.to_le()
}

/// Relies on `u128::from_be`: on a big-endian target the value itself, else its bytes swapped.
#[verifier::external_body]
fn u128_from_be(v: u128) -> (r: u128)
    ensures
        r == v || r == swapped(v),
{
    u128::from_be(v)
}

/// Relies on `u128::from_le`: on a little-endian target the value itself, else its bytes swapped.
#[verifier::external_body]
fn u128_from_le(v: u128) -> (r: u128)
    ensures
        r == v || r == swapped(v),
{
    u128::from_le(v)
}

impl Ipv6Address {
    pub fn min_value() -> (r: Ipv6Address)
        ensures
            r.0 == 0,
    {
        Ipv6Address(0)
    }

    pub fn max_value() -> (r: Ipv6Address)
        ensures
            r.0 == u128::MAX,
    {
        Ipv6Address(u128::MAX)
    }

    /// Reads the address as a number written in `radix`, as `u128::from_str_radix` does.
    pub fn from_str_radix(src: &str, radix: u32) -> (r: Result<Ipv6Address, core::num::ParseIntError>)
        requires
            2 <= radix <= 36,
        ensures
            match r {
                Ok(a) => radix_value(src@, radix) == Some(a.0),
                Err(_) => radix_value(src@, radix) is None,
            },
    {
        match u128_from_str_radix(src, radix) {
            Ok(v) => Ok(Ipv6Address(v)),
            Err(e) => Err(e),
        }
    }

    /// The number of set bits.
    pub fn count_ones(self) -> (r: u32)
        ensures
            r == ones(self.0 as nat),
            r <= 128,
    {
        proof {
            lemma_two_to_values();
        }
        let mut x: u128 = self.0;
        let mut c: u32 = 0;
        let mut k: u32 = 0;
        while k < 128
            invariant
                k <= 128,
                c <= k,
                c + ones(x as nat) == ones(self.0 as nat),
                x < two_to((128 - k) as nat),
                two_to(128) == modulus(),
            decreases 128 - k,
        {
            assert(two_to((128 - k) as nat) == 2 * two_to((127 - k) as nat));
            c = c + (x % 2) as u32;
            x = x / 2;
            k = k + 1;
        }
        assert(x == 0);
        c
    }

    /// The number of clear bits.
    pub fn count_zeros(self) -> (r: u32)
        ensures
            r == 128 - ones(self.0 as nat),
    {
        128 - self.count_ones()
    }

    /// The number of clear bits above the highest set bit.
    pub fn leading_zeros(self) -> (r: u32)
        ensures
            r == 128 - bit_len(self.0 as nat),
    {
        proof {
            lemma_two_to_values();
        }
        let mut x: u128 = self.0;
        let mut n: u32 = 0;
        while x > 0
            invariant
                n <= 128,
                n + bit_len(x as nat) == bit_len(self.0 as nat),
                x < two_to((128 - n) as nat),
                two_to(128) == modulus(),
            decreases x,
        {
            assert(n < 128) by {
                if n == 128 {
                    assert(two_to(0) == 1);
                }
            }
            assert(two_to((128 - n) as nat) == 2 * two_to((127 - n) as nat));
            x = x / 2;
            n = n + 1;
        }
        128 - n
    }

    /// The number of clear bits below the lowest set bit; 128 for zero.
    pub fn trailing_zeros(self) -> (r: u32)
        ensures
            self.0 == 0 ==> r == 128,
            self.0 != 0 ==> r == low_zeros(self.0 as nat),
    {
        if self.0 == 0 {
            return 128;
        }
        proof {
            lemma_two_to_values();
        }
        let mut x: u128 = self.0;
        let mut n: u32 = 0;
        while x % 2 == 0
            invariant
                x > 0,
                n <= 128,
                n + low_zeros(x as nat) == low_zeros(self.0 as nat),
                x < two_to((128 - n) as nat),
                two_to(128) == modulus(),
            decreases x,
        {
            assert(n < 128) by {
                if n == 128 {
                    assert(two_to(0) == 1);
                }
            }
            assert(two_to((128 - n) as nat) == 2 * two_to((127 - n) as nat));
            x = x / 2;
            n = n + 1;
        }
        n
    }

    /// The bits shifted left by `n` modulo 128, those that leave at the top coming in at the
    /// bottom.
    pub fn rotate_left(self, n: u32) -> (r: Ipv6Address)
        ensures
            n % 128 == 0 ==> r.0 == self.0,
            n % 128 != 0 ==> r.0 == (self.0 << (n % 128)) | (self.0 >> (128 - n % 128) as u32),
    {
        let k: u32 = n % 128;
        if k == 0 {
            self
        } else {
            Ipv6Address((self.0 << k) | (self.0 >> (128 - k)))
        }
    }

    /// The bits shifted right by `n` modulo 128, those that leave at the bottom coming in at the
    /// top.
    pub fn rotate_right(self, n: u32) -> (r: Ipv6Address)
        ensures
            n % 128 == 0 ==> r.0 == self.0,
            n % 128 != 0 ==> r.0 == (self.0 >> (n % 128)) | (self.0 << (128 - n % 128) as u32),
    {
        let k: u32 = n % 128;
        if k == 0 {
            self
        } else {
            Ipv6Address((self.0 >> k) | (self.0 << (128 - k)))
        }
    }

    /// The address with its bytes in reverse order.
    pub fn swap_bytes(self) -> (r: Ipv6Address)
        ensures
            r.0 == swapped(self.0),
    {
        let bytes = octets_u128(self.0);
        let mut rev: [u8; 16] = [0; 16];
        let mut k: usize = 0;
        while k < 16
            invariant
                k <= 16,
                bytes@ == octets_of(self.0 as nat, 16),
                bytes@.len() == 16,
                rev@.len() == 16,
                forall|j: int| 0 <= j < k ==> rev@[j] == bytes@[15 - j],
            decreases 16 - k,
        {
            rev[k] = bytes[15 - k];
            k = k + 1;
        }
        assert(rev@ =~= bytes@.reverse());
        let v = value_of_octets_u128(vstd::array::array_as_slice(&rev));
        assert(pad_octets(rev@, 16) =~= rev@);
        Ipv6Address(v)
    }

    /// The address from a big-endian value: unchanged on a big-endian target, else swapped.
    pub fn from_be(x: u128) -> (r: Ipv6Address)
        ensures
            r.0 == x || r.0 == swapped(x),
    {
        Ipv6Address(u128_from_be(x))
    }

    /// The address from a little-endian value: unchanged on a little-endian target, else swapped.
    pub fn from_le(x: u128) -> (r: Ipv6Address)
        ensures
            r.0 == x || r.0 == swapped(x),
    {
        Ipv6Address(u128_from_le(x))
    }

    /// The value in big-endian order: unchanged on a big-endian target, else swapped.
    pub fn to_be(self) -> (r: u128)
        ensures
            r == self.0 || r == swapped(self.0),
    {
        u128_to_be(self.0)
    }

    /// The value in little-endian order: unchanged on a little-endian target, else swapped.
    pub fn to_le(self) -> (r: u128)
        ensures
            r == self.0 || r == swapped(self.0),
    {
        u128_to_le(self.0)
    }

    pub fn checked_add(self, rhs: u128) -> (r: Option<Ipv6Address>)
        ensures
            self.0 + rhs > u128::MAX ==> r is None,
            self.0 + rhs <= u128::MAX ==> r == Some(Ipv6Address((self.0 + rhs) as u128)),
    {
        match self.0.checked_add(rhs) {
            Some(v) => Some(Ipv6Address(v)),
            None => None,
        }
    }

    pub fn checked_sub(self, rhs: u128) -> (r: Option<Ipv6Address>)
        ensures
            self.0 < rhs ==> r is None,
            self.0 >= rhs ==> r == Some(Ipv6Address((self.0 - rhs) as u128)),
    {
        match self.0.checked_sub(rhs) {
            Some(v) => Some(Ipv6Address(v)),
            None => None,
        }
    }

    pub fn checked_mul(self, rhs: u128) -> (r: Option<Ipv6Address>)
        ensures
            self.0 * rhs > u128::MAX ==> r is None,
            self.0 * rhs <= u128::MAX ==> r == Some(Ipv6Address((self.0 * rhs) as u128)),
    {
        match self.0.checked_mul(rhs) {
            Some(v) => Some(Ipv6Address(v)),
            None => None,
        }
    }

    pub fn checked_div(self, rhs: u128) -> (r: Option<Ipv6Address>)
        ensures
            rhs == 0 ==> r is None,
            rhs != 0 ==> r == Some(Ipv6Address(self.0 / rhs)),
    {
        if rhs == 0 {
            None
        } else {
            Some(Ipv6Address(self.0 / rhs))
        }
    }

    pub fn checked_rem(self, rhs: u128) -> (r: Option<Ipv6Address>)
        ensures
            rhs == 0 ==> r is None,
            rhs != 0 ==> r == Some(Ipv6Address(self.0 % rhs)),
    {
        if rhs == 0 {
            None
        } else {
            Some(Ipv6Address(self.0 % rhs))
        }
    }

    /// The negation, which only zero has among unsigned values.
    pub fn checked_neg(self) -> (r: Option<Ipv6Address>)
        ensures
            self.0 == 0 ==> r == Some(Ipv6Address(0)),
            self.0 != 0 ==> r is None,
    {
        if self.0 == 0 {
            Some(self)
        } else {
            None
        }
    }

    pub fn checked_shl(self, rhs: u32) -> (r: Option<Ipv6Address>)
        ensures
            rhs >= 128 ==> r is None,
            rhs < 128 ==> r == Some(Ipv6Address(self.0 << rhs)),
    {
        if rhs >= 128 {
            None
        } else {
            Some(Ipv6Address(self.0 << rhs))
        }
    }

    pub fn checked_shr(self, rhs: u32) -> (r: Option<Ipv6Address>)
        ensures
            rhs >= 128 ==> r is None,
            rhs < 128 ==> r == Some(Ipv6Address(self.0 >> rhs)),
    {
        if rhs >= 128 {
            None
        } else {
            Some(Ipv6Address(self.0 >> rhs))
        }
    }

    pub fn saturating_add(self, rhs: u128) -> (r: Ipv6Address)
        ensures
            r.0 == if self.0 + rhs > u128::MAX { u128::MAX } else { (self.0 + rhs) as u128 },
    {
        Ipv6Address(self.0.saturating_add(rhs))
    }

    pub fn saturating_sub(self, rhs: u128) -> (r: Ipv6Address)
        ensures
            r.0 == if self.0 < rhs { 0 } else { (self.0 - rhs) as u128 },
    {
        Ipv6Address(self.0.saturating_sub(rhs))
    }

    pub fn saturating_mul(self, rhs: u128) -> (r: Ipv6Address)
        ensures
            r.0 == if self.0 * rhs > u128::MAX { u128::MAX } else { (self.0 * rhs) as u128 },
    {
        match self.0.checked_mul(rhs) {
            Some(v) => Ipv6Address(v),
            None => Ipv6Address(u128::MAX),
        }
    }

    pub fn wrapping_add(self, rhs: u128) -> (r: Ipv6Address)
        ensures
            r.0 == (self.0 + rhs) % modulus(),
    {
        Ipv6Address(self.0.wrapping_add(rhs))
    }

    pub fn wrapping_sub(self, rhs: u128) -> (r: Ipv6Address)
        ensures
            r.0 == (self.0 - rhs) % modulus(),
    {
        Ipv6Address(self.0.wrapping_sub(rhs))
    }

    pub fn wrapping_mul(self, rhs: u128) -> (r: Ipv6Address)
        ensures
            r.0 == (self.0 * rhs) % modulus(),
    {
        Ipv6Address(self.0.wrapping_mul(rhs))
    }

    pub fn wrapping_div(self, rhs: u128) -> (r: Ipv6Address)
        requires
            rhs != 0,
        ensures
            r.0 == self.0 / rhs,
    {
        Ipv6Address(self.0 / rhs)
    }

    pub fn wrapping_rem(self, rhs: u128) -> (r: Ipv6Address)
        requires
            rhs != 0,
        ensures
            r.0 == self.0 % rhs,
    {
        Ipv6Address(self.0 % rhs)
    }

    pub fn wrapping_neg(self) -> (r: Ipv6Address)
        ensures
            r.0 == (0 - self.0) % modulus(),
    {
        if self.0 == 0 {
            self
        } else {
            Ipv6Address(u128::MAX - self.0 + 1)
        }
    }

    pub fn wrapping_shl(self, rhs: u32) -> (r: Ipv6Address)
        ensures
            r.0 == self.0 << (rhs % 128),
    {
        Ipv6Address(self.0.wrapping_shl(rhs))
    }

    pub fn wrapping_shr(self, rhs: u32) -> (r: Ipv6Address)
        ensures
            r.0 == self.0 >> (rhs % 128),
    {
        Ipv6Address(self.0.wrapping_shr(rhs))
    }

    pub fn overflowing_add(self, rhs: u128) -> (r: (Ipv6Address, bool))
        ensures
            r.0.0 == (self.0 + rhs) % modulus(),
            r.1 == (self.0 + rhs > u128::MAX),
    {
        (self.wrapping_add(rhs), self.0 > u128::MAX - rhs)
    }

    pub fn overflowing_sub(self, rhs: u128) -> (r: (Ipv6Address, bool))
        ensures
            r.0.0 == (self.0 - rhs) % modulus(),
            r.1 == (self.0 < rhs),
    {
        (self.wrapping_sub(rhs), self.0 < rhs)
    }

    pub fn overflowing_mul(self, rhs: u128) -> (r: (Ipv6Address, bool))
        ensures
            r.0.0 == (self.0 * rhs) % modulus(),
            r.1 == (self.0 * rhs > u128::MAX),
    {
        (self.wrapping_mul(rhs), self.0.checked_mul(rhs).is_none())
    }

    pub fn overflowing_div(self, rhs: u128) -> (r: (Ipv6Address, bool))
        requires
            rhs != 0,
        ensures
            r.0.0 == self.0 / rhs,
            !r.1,
    {
        (Ipv6Address(self.0 / rhs), false)
    }

    pub fn overflowing_rem(self, rhs: u128) -> (r: (Ipv6Address, bool))
        requires
            rhs != 0,
        ensures
            r.0.0 == self.0 % rhs,
            !r.1,
    {
        (Ipv6Address(self.0 % rhs), false)
    }

    pub fn overflowing_neg(self) -> (r: (Ipv6Address, bool))
        ensures
            r.0.0 == (0 - self.0) % modulus(),
            r.1 == (self.0 != 0),
    {
        (self.wrapping_neg(), self.0 != 0)
    }

    pub fn overflowing_shl(self, rhs: u32) -> (r: (Ipv6Address, bool))
        ensures
            r.0.0 == self.0 << (rhs % 128),
            r.1 == (rhs >= 128),
    {
        (self.wrapping_shl(rhs), rhs >= 128)
    }

    pub fn overflowing_shr(self, rhs: u32) -> (r: (Ipv6Address, bool))
        ensures
            r.0.0 == self.0 >> (rhs % 128),
            r.1 == (rhs >= 128),
    {
        (self.wrapping_shr(rhs), rhs >= 128)
    }
}

impl core::ops::Add<Ipv6Address> for Ipv6Address {
    type Output = Ipv6Address;

    fn add(self, rhs: Ipv6Address) -> Ipv6Address {
        Ipv6Address(self.0 + rhs.0)
    }
}

impl vstd::std_specs::ops::AddSpecImpl<Ipv6Address> for Ipv6Address {
    open spec fn obeys_add_spec() -> bool {
        true
    }

    open spec fn add_req(self, rhs: Ipv6Address) -> bool {
        self.0 + rhs.0 <= u128::MAX
    }

    open spec fn add_spec(self, rhs: Ipv6Address) -> Ipv6Address {
        Ipv6Address((self.0 + rhs.0) as u128)
    }
}

impl core::ops::Add<u128> for Ipv6Address {
    type Output = Ipv6Address;

    fn add(self, rhs: u128) -> Ipv6Address {
        Ipv6Address(self.0 + rhs)
    }
}

impl vstd::std_specs::ops::AddSpecImpl<u128> for Ipv6Address {
    open spec fn obeys_add_spec() -> bool {
        true
    }

    open spec fn add_req(self, rhs: u128) -> bool {
        self.0 + rhs <= u128::MAX
    }

    open spec fn add_spec(self, rhs: u128) -> Ipv6Address {
        Ipv6Address((self.0 + rhs) as u128)
    }
}

impl core::ops::Sub<Ipv6Address> for Ipv6Address {
    type Output = Ipv6Address;

    fn sub(self, rhs: Ipv6Address) -> Ipv6Address {
        Ipv6Address(self.0 - rhs.0)
    }
}

impl vstd::std_specs::ops::SubSpecImpl<Ipv6Address> for Ipv6Address {
    open spec fn obeys_sub_spec() -> bool {
        true
    }

    open spec fn sub_req(self, rhs: Ipv6Address) -> bool {
        self.0 >= rhs.0
    }

    open spec fn sub_spec(self, rhs: Ipv6Address) -> Ipv6Address {
        Ipv6Address((self.0 - rhs.0) as u128)
    }
}

impl core::ops::Sub<u128> for Ipv6Address {
    type Output = Ipv6Address;

    fn sub(self, rhs: u128) -> Ipv6Address {
        Ipv6Address(self.0 - rhs)
    }
}

impl vstd::std_specs::ops::SubSpecImpl<u128> for Ipv6Address {
    open spec fn obeys_sub_spec() -> bool {
        true
    }

    open spec fn sub_req(self, rhs: u128) -> bool {
        self.0 >= rhs
    }

    open spec fn sub_spec(self, rhs: u128) -> Ipv6Address {
        Ipv6Address((self.0 - rhs) as u128)
    }
}

impl core::ops::Mul<Ipv6Address> for Ipv6Address {
    type Output = Ipv6Address;

    fn mul(self, rhs: Ipv6Address) -> Ipv6Address {
        Ipv6Address(self.0 * rhs.0)
    }
}

impl vstd::std_specs::ops::MulSpecImpl<Ipv6Address> for Ipv6Address {
    open spec fn obeys_mul_spec() -> bool {
        true
    }

    open spec fn mul_req(self, rhs: Ipv6Address) -> bool {
        self.0 * rhs.0 <= u128::MAX
    }

    open spec fn mul_spec(self, rhs: Ipv6Address) -> Ipv6Address {
        Ipv6Address((self.0 * rhs.0) as u128)
    }
}

impl core::ops::Mul<u128> for Ipv6Address {
    type Output = Ipv6Address;

    fn mul(self, rhs: u128) -> Ipv6Address {
        Ipv6Address(self.0 * rhs)
    }
}

impl vstd::std_specs::ops::MulSpecImpl<u128> for Ipv6Address {
    open spec fn obeys_mul_spec() -> bool {
        true
    }

    open spec fn mul_req(self, rhs: u128) -> bool {
        self.0 * rhs <= u128::MAX
    }

    open spec fn mul_spec(self, rhs: u128) -> Ipv6Address {
        Ipv6Address((self.0 * rhs) as u128)
    }
}

impl core::ops::Div<Ipv6Address> for Ipv6Address {
    type Output = Ipv6Address;

    fn div(self, rhs: Ipv6Address) -> Ipv6Address {
        Ipv6Address(self.0 / rhs.0)
    }
}

impl vstd::std_specs::ops::DivSpecImpl<Ipv6Address> for Ipv6Address {
    open spec fn obeys_div_spec() -> bool {
        true
    }

    open spec fn div_req(self, rhs: Ipv6Address) -> bool {
        rhs.0 != 0
    }

    open spec fn div_spec(self, rhs: Ipv6Address) -> Ipv6Address {
        Ipv6Address(self.0 / rhs.0)
    }
}

impl core::ops::Div<u128> for Ipv6Address {
    type Output = Ipv6Address;

    fn div(self, rhs: u128) -> Ipv6Address {
        Ipv6Address(self.0 / rhs)
    }
}

impl vstd::std_specs::ops::DivSpecImpl<u128> for Ipv6Address {
    open spec fn obeys_div_spec() -> bool {
        true
    }

    open spec fn div_req(self, rhs: u128) -> bool {
        rhs != 0
    }

    open spec fn div_spec(self, rhs: u128) -> Ipv6Address {
        Ipv6Address(self.0 / rhs)
    }
}

impl core::ops::Rem<Ipv6Address> for Ipv6Address {
    type Output = Ipv6Address;

    fn rem(self, rhs: Ipv6Address) -> Ipv6Address {
        Ipv6Address(self.0 % rhs.0)
    }
}

impl vstd::std_specs::ops::RemSpecImpl<Ipv6Address> for Ipv6Address {
    open spec fn obeys_rem_spec() -> bool {
        true
    }

    open spec fn rem_req(self, rhs: Ipv6Address) -> bool {
        rhs.0 != 0
    }

    open spec fn rem_spec(self, rhs: Ipv6Address) -> Ipv6Address {
        Ipv6Address(self.0 % rhs.0)
    }
}

impl core::ops::Rem<u128> for Ipv6Address {
    type Output = Ipv6Address;

    fn rem(self, rhs: u128) -> Ipv6Address {
        Ipv6Address(self.0 % rhs)
    }
}

impl vstd::std_specs::ops::RemSpecImpl<u128> for Ipv6Address {
    open spec fn obeys_rem_spec() -> bool {
        true
    }

    open spec fn rem_req(self, rhs: u128) -> bool {
        rhs != 0
    }

    open spec fn rem_spec(self, rhs: u128) -> Ipv6Address {
        Ipv6Address(self.0 % rhs)
    }
}

impl core::ops::BitAnd<Ipv6Address> for Ipv6Address {
    type Output = Ipv6Address;

    fn bitand(self, rhs: Ipv6Address) -> Ipv6Address {
        Ipv6Address(self.0 & rhs.0)
    }
}

impl vstd::std_specs::ops::BitAndSpecImpl<Ipv6Address> for Ipv6Address {
    open spec fn obeys_bitand_spec() -> bool {
        true
    }

    open spec fn bitand_req(self, rhs: Ipv6Address) -> bool {
        true
    }

    open spec fn bitand_spec(self, rhs: Ipv6Address) -> Ipv6Address {
        Ipv6Address(self.0 & rhs.0)
    }
}

impl core::ops::BitAnd<u128> for Ipv6Address {
    type Output = Ipv6Address;

    fn bitand(self, rhs: u128) -> Ipv6Address {
        Ipv6Address(self.0 & rhs)
    }
}

impl vstd::std_specs::ops::BitAndSpecImpl<u128> for Ipv6Address {
    open spec fn obeys_bitand_spec() -> bool {
        true
    }

    open spec fn bitand_req(self, rhs: u128) -> bool {
        true
    }

    open spec fn bitand_spec(self, rhs: u128) -> Ipv6Address {
        Ipv6Address(self.0 & rhs)
    }
}

impl core::ops::BitOr<Ipv6Address> for Ipv6Address {
    type Output = Ipv6Address;

    fn bitor(self, rhs: Ipv6Address) -> Ipv6Address {
        Ipv6Address(self.0 | rhs.0)
    }
}

impl vstd::std_specs::ops::BitOrSpecImpl<Ipv6Address> for Ipv6Address {
    open spec fn obeys_bitor_spec() -> bool {
        true
    }

    open spec fn bitor_req(self, rhs: Ipv6Address) -> bool {
        true
    }

    open spec fn bitor_spec(self, rhs: Ipv6Address) -> Ipv6Address {
        Ipv6Address(self.0 | rhs.0)
    }
}

impl core::ops::BitOr<u128> for Ipv6Address {
    type Output = Ipv6Address;

    fn bitor(self, rhs: u128) -> Ipv6Address {
        Ipv6Address(self.0 | rhs)
    }
}

impl vstd::std_specs::ops::BitOrSpecImpl<u128> for Ipv6Address {
    open spec fn obeys_bitor_spec() -> bool {
        true
    }

    open spec fn bitor_req(self, rhs: u128) -> bool {
        true
    }

    open spec fn bitor_spec(self, rhs: u128) -> Ipv6Address {
        Ipv6Address(self.0 | rhs)
    }
}

impl core::ops::BitXor<Ipv6Address> for Ipv6Address {
    type Output = Ipv6Address;

    fn bitxor(self, rhs: Ipv6Address) -> Ipv6Address {
        Ipv6Address(self.0 ^ rhs.0)
    }
}

impl vstd::std_specs::ops::BitXorSpecImpl<Ipv6Address> for Ipv6Address {
    open spec fn obeys_bitxor_spec() -> bool {
        true
    }

    open spec fn bitxor_req(self, rhs: Ipv6Address) -> bool {
        true
    }

    open spec fn bitxor_spec(self, rhs: Ipv6Address) -> Ipv6Address {
        Ipv6Address(self.0 ^ rhs.0)
    }
}

impl core::ops::BitXor<u128> for Ipv6Address {
    type Output = Ipv6Address;

    fn bitxor(self, rhs: u128) -> Ipv6Address {
        Ipv6Address(self.0 ^ rhs)
    }
}

impl vstd::std_specs::ops::BitXorSpecImpl<u128> for Ipv6Address {
    open spec fn obeys_bitxor_spec() -> bool {
        true
    }

    open spec fn bitxor_req(self, rhs: u128) -> bool {
        true
    }

    open spec fn bitxor_spec(self, rhs: u128) -> Ipv6Address {
        Ipv6Address(self.0 ^ rhs)
    }
}

impl core::ops::Shl<u32> for Ipv6Address {
    type Output = Ipv6Address;

    fn shl(self, rhs: u32) -> Ipv6Address {
        Ipv6Address(self.0 << rhs)
    }
}

impl vstd::std_specs::ops::ShlSpecImpl<u32> for Ipv6Address {
    open spec fn obeys_shl_spec() -> bool {
        true
    }

    open spec fn shl_req(self, rhs: u32) -> bool {
        rhs < 128
    }

    open spec fn shl_spec(self, rhs: u32) -> Ipv6Address {
        Ipv6Address(self.0 << rhs)
    }
}

impl core::ops::Shr<u32> for Ipv6Address {
    type Output = Ipv6Address;

    fn shr(self, rhs: u32) -> Ipv6Address {
        Ipv6Address(self.0 >> rhs)
    }
}

impl vstd::std_specs::ops::ShrSpecImpl<u32> for Ipv6Address {
    open spec fn obeys_shr_spec() -> bool {
        true
    }

    open spec fn shr_req(self, rhs: u32) -> bool {
        rhs < 128
    }

    open spec fn shr_spec(self, rhs: u32) -> Ipv6Address {
        Ipv6Address(self.0 >> rhs)
    }
}

impl core::ops::Not for Ipv6Address {
    type Output = Ipv6Address;

    fn not(self) -> Ipv6Address {
        Ipv6Address(!self.0)
    }
}

impl vstd::std_specs::ops::NotSpecImpl for Ipv6Address {
    open spec fn obeys_not_spec() -> bool {
        true
    }

    open spec fn not_req(self) -> bool {
        true
    }

    open spec fn not_spec(self) -> Ipv6Address {
        Ipv6Address(!self.0)
    }
}

impl From<u128> for Ipv6Address {
    fn from(value: u128) -> Ipv6Address {
        Ipv6Address(value)
    }
}

impl vstd::std_specs::convert::FromSpecImpl<u128> for Ipv6Address {
    open spec fn obeys_from_spec() -> bool {
        true
    }

    open spec fn from_spec(value: u128) -> Ipv6Address {
        Ipv6Address(value)
    }
}

impl From<Ipv6Address> for u128 {
    fn from(ip: Ipv6Address) -> u128 {
        ip.0
    }
}

impl vstd::std_specs::convert::FromSpecImpl<Ipv6Address> for u128 {
    open spec fn obeys_from_spec() -> bool {
        true
    }

    open spec fn from_spec(ip: Ipv6Address) -> u128 {
        ip.0
    }
}

impl From<[u8; 16]> for Ipv6Address {
    fn from(bytes: [u8; 16]) -> Ipv6Address {
        Ipv6Address::from_slice_unchecked(vstd::array::array_as_slice(&bytes))
    }
}

impl vstd::std_specs::convert::FromSpecImpl<[u8; 16]> for Ipv6Address {
    open spec fn obeys_from_spec() -> bool {
        true
    }

    open spec fn from_spec(bytes: [u8; 16]) -> Ipv6Address {
        Ipv6Address(octets_value(pad_octets(bytes@, 16)) as u128)
    }
}

} // verus!
