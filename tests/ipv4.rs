use ipaddr::{Ipv4Address, Ipv4Mask};

fn mask(v: u32) -> Ipv4Mask {
    Ipv4Mask::try_from(v).unwrap()
}

#[test]
fn test_parse_zero() {
    assert_eq!(Ipv4Address::from_str("0.0.0.0").unwrap(), Ipv4Address(0));
}

#[test]
fn test_parse_1234() {
    assert_eq!(
        Ipv4Address::from_str("1.2.3.4").unwrap(),
        Ipv4Address(0x01020304)
    );
}

#[test]
fn test_parse_max() {
    assert_eq!(
        Ipv4Address::from_str("255.255.255.255").unwrap(),
        Ipv4Address(0xffffffff)
    );
}

#[test]
fn test_error() {
    assert!(Ipv4Address::from_str("1.2.3.").is_err());
    assert!(Ipv4Address::from_str("1.2.3.4.").is_err());
    assert!(Ipv4Address::from_str("1.2.3").is_err());
    assert!(Ipv4Address::from_str(".1.2.3.4").is_err());
    assert!(Ipv4Address::from_str("256.0.0.1").is_err());
    assert!(Ipv4Address::from_str("25.0.0.256").is_err());
}

#[test]
fn test_cidr_simple() {
    let m = mask(0xff00_0000);
    assert_eq!(m.prefixlen(), 8);

    let m = mask(0xffff_ffff);
    assert_eq!(m.prefixlen(), 32);

    let m = mask(0x0000_0000);
    assert_eq!(m.prefixlen(), 0);
}

#[test]
fn test_from_int() {
    assert!(Ipv4Mask::try_from(0xff00_0000).is_ok());
    assert!(Ipv4Mask::try_from(0xffff_ffff).is_ok());
    assert!(Ipv4Mask::try_from(0x0000_0000).is_ok());
    assert!(Ipv4Mask::try_from(0xfe00_0000).is_ok());
    assert!(Ipv4Mask::try_from(0xf000_0000).is_ok());
    assert!(Ipv4Mask::try_from(0xffff_fff8).is_ok());

    assert!(Ipv4Mask::try_from(0xff70_0000).is_err());
    assert!(Ipv4Mask::try_from(0x0000_0001).is_err());
    assert!(Ipv4Mask::try_from(0xfe10_0000).is_err());
}

#[test]
fn test_from_prefixlen_simple() {
    let m = mask(0xfff8_0000);
    assert_eq!(Ipv4Mask::from_prefixlen(13).unwrap(), m);

    let m = mask(0xffff_ffff);
    assert_eq!(Ipv4Mask::from_prefixlen(32).unwrap(), m);

    let m = mask(0x0000_0000);
    assert_eq!(Ipv4Mask::from_prefixlen(0).unwrap(), m);
}

#[test]
fn test_cidr_single_bits() {
    let m = mask(0xfe00_0000);
    assert_eq!(m.prefixlen(), 7);

    let m = mask(0xf000_0000);
    assert_eq!(m.prefixlen(), 4);

    let m = mask(0xffff_fff8);
    assert_eq!(m.prefixlen(), 29);
}

#[test]
fn test_from_prefixlen_single_bits() {
    let m = mask(0xfe00_0000);
    assert_eq!(Ipv4Mask::from_prefixlen(7).unwrap(), m);

    let m = mask(0xf000_0000);
    assert_eq!(Ipv4Mask::from_prefixlen(4).unwrap(), m);

    let m = mask(0xffff_fff8);
    assert_eq!(Ipv4Mask::from_prefixlen(29).unwrap(), m);
}

#[test]
fn from_str() {
    let expected = mask(0xffff_ffff);
    assert_eq!(Ipv4Mask::from_str("255.255.255.255").unwrap(), expected);

    let expected = mask(0xffff_0000);
    assert_eq!(Ipv4Mask::from_str("255.255.0.0").unwrap(), expected);

    let expected = mask(0xffff_f800);
    assert_eq!(Ipv4Mask::from_str("255.255.248.0").unwrap(), expected);

    let expected = mask(0);
    assert_eq!(Ipv4Mask::from_str("0.0.0.0").unwrap(), expected);
}

#[test]
fn ipv4_text_and_bytes() {
    let ip = Ipv4Address::from(0x01020304);
    assert_eq!(ip.to_string(), "1.2.3.4");
    assert_eq!(Ipv4Address(0xc0a8_00ff).to_string(), "192.168.0.255");
    assert_eq!(ip.octets(), [1, 2, 3, 4]);
    assert_eq!(Ipv4Address::from_slice(&[1, 2, 3, 4][..]).unwrap(), ip);
    assert!(Ipv4Address::from_slice(&[1, 2, 3][..]).is_err());
    assert_eq!(Ipv4Address::try_from(&[1u8, 2, 3, 4][..]).unwrap(), ip);
    assert_eq!(
        <Ipv4Mask as TryFrom<Ipv4Address>>::try_from(Ipv4Address(0xffff_0000)).unwrap(),
        Ipv4Mask::from_prefixlen(16).unwrap()
    );
    assert_eq!(Ipv4Address::from([1u8, 2, 3, 4, 9, 9, 9, 9, 9, 9, 9, 9, 9, 9, 9, 9]), ip);
    assert_eq!(u32::from(!Ipv4Mask::from_prefixlen(24).unwrap()), 0xff);
    assert_eq!(Ipv4Address(0x0102_0304) & Ipv4Mask::from_prefixlen(16).unwrap(), Ipv4Address(0x0102_0000));
    assert_eq!(Ipv4Address::from_slice_unchecked(&[1, 2, 3, 4, 5][..]), ip);
    assert_eq!(Ipv4Mask::from_prefixlen(13).unwrap().to_string(), "255.248.0.0");
    assert!(Ipv4Mask::from_prefixlen(33).is_err());
    assert!(Ipv4Mask::from_str("255.0.255.0").is_err());
}

#[test]
fn ipv4_predicates() {
    assert!(Ipv4Address::from(0).is_unspecified());
    assert!(Ipv4Address::from_str("127.0.0.1").unwrap().is_loopback());
    assert!(Ipv4Address::from_str("224.0.0.0").unwrap().is_multicast());
    assert!(Ipv4Address::from_str("239.255.255.255").unwrap().is_multicast());
    assert!(!Ipv4Address::from_str("240.0.0.0").unwrap().is_multicast());
    assert!(!Ipv4Address::from_str("223.255.255.255").unwrap().is_multicast());
    assert_eq!(Ipv4Address::from_str("255.255.0.0").unwrap().value(), 0xffff_0000);
    assert_eq!(Ipv4Address::from_str("001.02.3.4").unwrap(), Ipv4Address(0x01020304));
    assert!(Ipv4Address::from_str("1234.1.1.1").is_err());
    assert!(Ipv4Address::from_str("1.2.3.4 ").is_err());
}
