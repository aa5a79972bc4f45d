use ipaddr::Ipv6Mask;

fn mask(v: u128) -> Ipv6Mask {
    Ipv6Mask::try_from(v).unwrap()
}

#[test]
fn mask_test_cidr_simple() {
    let m = mask(0xff00_0000_0000_0000_0000_0000_0000_0000);
    assert_eq!(m.prefixlen(), 8);
    let m = mask(0xffff_ffff_0000_0000_0000_0000_0000_0000);
    assert_eq!(m.prefixlen(), 32);
    let m = mask(0xffff_ffff_ffff_ffff_ffff_ffff_ffff_ffff);
    assert_eq!(m.prefixlen(), 128);
    let m = mask(0x0000_0000_0000_0000_0000_0000_0000_0000);
    assert_eq!(m.prefixlen(), 0);
}

#[test]
fn mask_test_from_int() {
    assert!(Ipv6Mask::try_from(0xff00_0000_0000_0000_0000_0000_0000_0000).is_ok());
    assert!(Ipv6Mask::try_from(0xffff_ffff_0000_0000_0000_0000_0000_0000).is_ok());
    assert!(Ipv6Mask::try_from(0xffff_ffff_ffff_ffff_ffff_ffff_ffff_ffff).is_ok());
    assert!(Ipv6Mask::try_from(0x0000_0000_0000_0000_0000_0000_0000_0000).is_ok());
    assert!(Ipv6Mask::try_from(0xfe00_0000_0000_0000_0000_0000_0000_0000).is_ok());
    assert!(Ipv6Mask::try_from(0xf000_0000_0000_0000_0000_0000_0000_0000).is_ok());
    assert!(Ipv6Mask::try_from(0xffff_fff8_0000_0000_0000_0000_0000_0000).is_ok());

    assert!(Ipv6Mask::try_from(0xff70_0000_0000_0000_0000_0000_0000_0000).is_err());
    assert!(Ipv6Mask::try_from(0xffff_ffff_0000_0000_0000_0000_0000_0001).is_err());
    assert!(Ipv6Mask::try_from(0xffff_ffff_ffff_ffff_ffff_ffff_fff0_ffff).is_err());
    assert!(Ipv6Mask::try_from(0x0000_0000_0000_0000_0010_0000_0000_0000).is_err());
    assert!(Ipv6Mask::try_from(0xfe10_0000_0000_0000_0000_0000_0000_0000).is_err());
}

#[test]
fn mask_test_from_prefixlen_simple() {
    let m = mask(0xff00_0000_0000_0000_0000_0000_0000_0000);
    assert_eq!(Ipv6Mask::from_prefixlen(8).unwrap(), m);
    let m = mask(0xffff_ffff_0000_0000_0000_0000_0000_0000);
    assert_eq!(Ipv6Mask::from_prefixlen(32).unwrap(), m);
    let m = mask(0xffff_ffff_ffff_ffff_ffff_ffff_ffff_ffff);
    assert_eq!(Ipv6Mask::from_prefixlen(128).unwrap(), m);
    let m = mask(0x0000_0000_0000_0000_0000_0000_0000_0000);
    assert_eq!(Ipv6Mask::from_prefixlen(0).unwrap(), m);
}

#[test]
fn mask_test_cidr_single_bits() {
    let m = mask(0xfe00_0000_0000_0000_0000_0000_0000_0000);
    assert_eq!(m.prefixlen(), 7);
    let m = mask(0xf000_0000_0000_0000_0000_0000_0000_0000);
    assert_eq!(m.prefixlen(), 4);
    let m = mask(0xffff_fff8_0000_0000_0000_0000_0000_0000);
    assert_eq!(m.prefixlen(), 29);
}

#[test]
fn mask_test_from_prefixlen_single_bits() {
    let m = mask(0xfe00_0000_0000_0000_0000_0000_0000_0000);
    assert_eq!(Ipv6Mask::from_prefixlen(7).unwrap(), m);
    let m = mask(0xf000_0000_0000_0000_0000_0000_0000_0000);
    assert_eq!(Ipv6Mask::from_prefixlen(4).unwrap(), m);
    let m = mask(0xffff_fff8_0000_0000_0000_0000_0000_0000);
    assert_eq!(Ipv6Mask::from_prefixlen(29).unwrap(), m);
}

#[test]
fn mask_from_str() {
    let expected = mask(0xffff_ffff_ffff_ffff_0000_0000_0000_0000);
    assert_eq!(
        Ipv6Mask::from_str("ffff:ffff:ffff:ffff::").unwrap(),
        expected
    );
    assert_eq!(
        Ipv6Mask::from_str("ffff:ffff:ffff:ffff:0:0:0:0").unwrap(),
        expected
    );
    assert_eq!(
        Ipv6Mask::from_str("ffff:ffff:ffff:ffff:0000:0000:0000:0000").unwrap(),
        expected
    );
}

#[test]
fn mask_text_and_errors() {
    assert_eq!(Ipv6Mask::from_prefixlen(64).unwrap().to_string(), "ffff:ffff:ffff:ffff::");
    assert_eq!(u128::from(Ipv6Mask::from_prefixlen(64).unwrap()), 0xffff_ffff_ffff_ffff_0000_0000_0000_0000);
    assert!(Ipv6Mask::from_prefixlen(129).is_err());
    assert!(Ipv6Mask::from_str("ffff::1").is_err());
    assert!(Ipv6Mask::from_str("ffff::1::").is_err());
}
