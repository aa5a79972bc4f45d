use ipaddr::{Ipv6Address, Ipv6Mask};

#[test]
fn bit_counts() {
    let ip = Ipv6Address(0x00f0_0000_0000_0000_0000_0000_0000_0100);
    assert_eq!(ip.count_ones(), 5);
    assert_eq!(ip.count_zeros(), 123);
    assert_eq!(ip.leading_zeros(), 8);
    assert_eq!(ip.trailing_zeros(), 8);
    assert_eq!(Ipv6Address(0).leading_zeros(), 128);
    assert_eq!(Ipv6Address(0).trailing_zeros(), 128);
    assert_eq!(Ipv6Address::max_value().count_ones(), 128);
    assert_eq!(Ipv6Address::min_value().count_ones(), 0);
}

#[test]
fn rotations_and_bytes() {
    let ip = Ipv6Address(0x8000_0000_0000_0000_0000_0000_0000_0001);
    assert_eq!(ip.rotate_left(1), Ipv6Address(3));
    assert_eq!(ip.rotate_right(1), Ipv6Address(0xc000_0000_0000_0000_0000_0000_0000_0000));
    assert_eq!(ip.rotate_left(128), ip);
    let v: u128 = 0x0102_0304_0506_0708_090a_0b0c_0d0e_0f10;
    assert_eq!(Ipv6Address(v).swap_bytes(), Ipv6Address(v.swap_bytes()));
    assert_eq!(Ipv6Address(v).to_be(), v.to_be());
    assert_eq!(Ipv6Address(v).to_le(), v.to_le());
    assert_eq!(Ipv6Address::from_be(v), Ipv6Address(u128::from_be(v)));
    assert_eq!(Ipv6Address::from_le(v), Ipv6Address(u128::from_le(v)));
}

#[test]
fn checked_saturating_wrapping_overflowing() {
    let max = Ipv6Address::max_value();
    assert_eq!(max.checked_add(1), None);
    assert_eq!(Ipv6Address(1).checked_add(1), Some(Ipv6Address(2)));
    assert_eq!(Ipv6Address(0).checked_sub(1), None);
    assert_eq!(Ipv6Address(6).checked_mul(7), Some(Ipv6Address(42)));
    assert_eq!(max.checked_mul(2), None);
    assert_eq!(Ipv6Address(7).checked_div(0), None);
    assert_eq!(Ipv6Address(7).checked_div(2), Some(Ipv6Address(3)));
    assert_eq!(Ipv6Address(7).checked_rem(2), Some(Ipv6Address(1)));
    assert_eq!(Ipv6Address(0).checked_neg(), Some(Ipv6Address(0)));
    assert_eq!(Ipv6Address(1).checked_neg(), None);
    assert_eq!(Ipv6Address(1).checked_shl(127), Some(Ipv6Address(1 << 127)));
    assert_eq!(Ipv6Address(1).checked_shl(128), None);
    assert_eq!(Ipv6Address(2).checked_shr(1), Some(Ipv6Address(1)));
    assert_eq!(max.saturating_add(5), max);
    assert_eq!(Ipv6Address(3).saturating_sub(5), Ipv6Address(0));
    assert_eq!(max.saturating_mul(2), max);
    assert_eq!(max.wrapping_add(2), Ipv6Address(1));
    assert_eq!(Ipv6Address(0).wrapping_sub(1), max);
    assert_eq!(max.wrapping_mul(2), Ipv6Address(u128::MAX - 1));
    assert_eq!(Ipv6Address(7).wrapping_div(2), Ipv6Address(3));
    assert_eq!(Ipv6Address(7).wrapping_rem(2), Ipv6Address(1));
    assert_eq!(Ipv6Address(1).wrapping_neg(), max);
    assert_eq!(Ipv6Address(1).wrapping_shl(129), Ipv6Address(2));
    assert_eq!(Ipv6Address(4).wrapping_shr(129), Ipv6Address(2));
    assert_eq!(max.overflowing_add(1), (Ipv6Address(0), true));
    assert_eq!(Ipv6Address(0).overflowing_sub(1), (max, true));
    assert_eq!(Ipv6Address(2).overflowing_mul(3), (Ipv6Address(6), false));
    assert_eq!(Ipv6Address(7).overflowing_div(2), (Ipv6Address(3), false));
    assert_eq!(Ipv6Address(7).overflowing_rem(2), (Ipv6Address(1), false));
    assert_eq!(Ipv6Address(1).overflowing_neg(), (max, true));
    assert_eq!(Ipv6Address(1).overflowing_shl(129), (Ipv6Address(2), true));
    assert_eq!(Ipv6Address(4).overflowing_shr(1), (Ipv6Address(2), false));
}

#[test]
fn radix_and_operators() {
    assert_eq!(Ipv6Address::from_str_radix("ff", 16).unwrap(), Ipv6Address(255));
    assert!(Ipv6Address::from_str_radix("", 10).is_err());
    assert!(Ipv6Address::from_str_radix("12z", 10).is_err());
    let a = Ipv6Address(12);
    let b = Ipv6Address(10);
    assert_eq!(a + b, Ipv6Address(22));
    assert_eq!(a - b, Ipv6Address(2));
    assert_eq!(a * b, Ipv6Address(120));
    assert_eq!(a / b, Ipv6Address(1));
    assert_eq!(a % b, Ipv6Address(2));
    assert_eq!(a & b, Ipv6Address(8));
    assert_eq!(a | b, Ipv6Address(14));
    assert_eq!(a ^ b, Ipv6Address(6));
    assert_eq!(a + 1u128, Ipv6Address(13));
    assert_eq!(a << 2u32, Ipv6Address(48));
    assert_eq!(a >> 2u32, Ipv6Address(3));
    assert_eq!(!Ipv6Address(0), Ipv6Address::max_value());
    let m = Ipv6Mask::from_prefixlen(120).unwrap();
    assert_eq!(Ipv6Address(0x1234) & m, Ipv6Address(0x1200));
    assert_eq!(!m, Ipv6Address(0xff));
    assert_eq!(u128::from(Ipv6Address::from(5u128)), 5);
}
