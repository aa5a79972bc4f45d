use ipaddr::{Ipv6Address, Ipv6AddressScope};

#[test]
fn parse_test_parse_zero() {
    assert_eq!(Ipv6Address::from_str("::").unwrap(), Ipv6Address(0));
}

#[test]
fn test_parse_one() {
    assert_eq!(Ipv6Address::from_str("::1").unwrap(), Ipv6Address(1));
}

#[test]
fn test_parse_link_local() {
    assert_eq!(
        Ipv6Address::from_str("fe80:0000:0000:0000:8657:e6fe:8d5::").unwrap(),
        Ipv6Address(0xfe800000000000008657e6fe08d50000)
    );
    assert_eq!(
        Ipv6Address::from_str("fe80:0000:0000:0000:8657:e6fe:8d5:5325").unwrap(),
        Ipv6Address(0xfe800000000000008657e6fe08d55325)
    );
    assert_eq!(
        Ipv6Address::from_str("fe80:0:0:0:8657:e6fe:8d5:5325").unwrap(),
        Ipv6Address(0xfe800000000000008657e6fe08d55325)
    );
    assert_eq!(
        Ipv6Address::from_str("fe80::8657:e6fe:8d5:5325").unwrap(),
        Ipv6Address(0xfe800000000000008657e6fe08d55325)
    );
    assert_eq!(
        Ipv6Address::from_str("ffff:ffff:ffff:ffff::").unwrap(),
        Ipv6Address(0xffff_ffff_ffff_ffff_0000_0000_0000_0000)
    );
}

#[test]
fn test_parse_trailing_zeros() {
    assert_eq!(
        Ipv6Address::from_str("ffff::").unwrap(),
        Ipv6Address(0xffff0000000000000000000000000000)
    );
}

#[test]
fn test_parse_with_ipv4() {
    assert_eq!(
        Ipv6Address::from_str("ffff::1.2.3.4").unwrap(),
        Ipv6Address(0xffff_0000_0000_0000_0000_0000_01020304)
    );
    assert_eq!(
        Ipv6Address::from_str("::1.2.3.4").unwrap(),
        Ipv6Address(0x0000_0000_0000_0000_0000_0000_01020304)
    );
    assert_eq!(
        Ipv6Address::from_str("fe80::8657:e6fe:128.128.128.128").unwrap(),
        Ipv6Address(0xfe800000000000008657e6fe_80808080)
    );
    assert_eq!(
        Ipv6Address::from_str("fe80:0:0:0:8657:e6fe:0.0.0.0").unwrap(),
        Ipv6Address(0xfe800000000000008657e6fe_00000000)
    );
    assert_eq!(
        Ipv6Address::from_str("fe80:0000:0000:0000:8657:e6fe:255.255.255.255").unwrap(),
        Ipv6Address(0xfe800000000000008657e6fe_ffffffff)
    );
}

#[test]
fn test_errors() {
    assert!(Ipv6Address::from_str("").is_err());
    assert!(Ipv6Address::from_str("  ").is_err());
    assert!(Ipv6Address::from_str(":").is_err());
    assert!(Ipv6Address::from_str(":: ").is_err());
    assert!(Ipv6Address::from_str("::::").is_err());
    assert!(Ipv6Address::from_str("::1::").is_err());
    assert!(Ipv6Address::from_str("ffff::1::").is_err());
    assert!(Ipv6Address::from_str("ffff::1:").is_err());
    assert!(Ipv6Address::from_str(":ffff::").is_err());
    assert!(Ipv6Address::from_str("::ffff::").is_err());
    assert!(Ipv6Address::from_str("::ffff:").is_err());
    assert!(Ipv6Address::from_str("::ffff ").is_err());
    assert!(Ipv6Address::from_str(" ::ffff").is_err());
    assert!(Ipv6Address::from_str("1fe80:0000:0000:0000:8657:e6fe:255.255.255.255").is_err());
    assert!(Ipv6Address::from_str("fe80:0000:0000:0000:8657:e6fe:1234").is_err());
}

#[test]
fn test_packed() {
    let expected: [u8; 16] = [
        0xfe, 0x80, 0x00, 0x00, 0x00, 0x00, 0x00, 0x00, 0x86, 0x57, 0xe6, 0xfe, 0x08, 0xd5,
        0x53, 0x25,
    ];

    let ip = Ipv6Address(0xfe80_0000_0000_0000_8657_e6fe_08d5_5325);
    assert_eq!(ip.octets(), expected);
}

#[test]
fn test_from_bytes() {
    let bytes: [u8; 16] = [
        0xfe, 0x80, 0x00, 0x00, 0x00, 0x00, 0x00, 0x00, 0x86, 0x57, 0xe6, 0xfe, 0x08, 0xd5,
        0x53, 0x25,
    ];

    let expected = Ipv6Address(0xfe800000000000008657e6fe08d55325);
    assert_eq!(Ipv6Address::from(bytes), expected);
}

#[test]
fn test_link_local() {
    assert!(Ipv6Address::from_str("fe80::").unwrap().is_link_local_unicast());
    assert!(Ipv6Address::from_str("fe80::ffff:ffff:ffff:ffff")
        .unwrap()
        .is_link_local_unicast());

    assert!(!Ipv6Address::from_str("febf:ffff:ffff:ffff:ffff:ffff:ffff:ffff")
        .unwrap()
        .is_link_local_unicast());
    assert!(!Ipv6Address::from_str("fe81::").unwrap().is_link_local_unicast());
    assert!(!Ipv6Address::from_str("fe80::1:ffff:ffff:ffff:ffff")
        .unwrap()
        .is_link_local_unicast());
}

#[test]
fn ipv6_classification() {
    assert!(Ipv6Address(0).is_unspecified());
    assert!(Ipv6Address(1).is_loopback());
    assert!(Ipv6Address::from_str("ff02::1").unwrap().is_multicast());
    assert!(!Ipv6Address::from_str("fe02::1").unwrap().is_multicast());
    assert!(Ipv6Address::from_str("::1.2.3.4").unwrap().is_ipv4_compatible());
    assert!(Ipv6Address::from_str("::ffff:1.2.3.4").unwrap().is_ipv4_mapped());
    assert!(!Ipv6Address::from_str("::fffe:1.2.3.4").unwrap().is_ipv4_mapped());
    assert!(Ipv6Address::from_str("2001:db8::1").unwrap().is_global_unicast());
    assert!(!Ipv6Address::from_str("fe80::1").unwrap().is_global_unicast());
    assert!(!Ipv6Address(1).is_global_unicast());
}

#[test]
fn ipv6_scope() {
    let mut ip = Ipv6Address::from_str("ff02::1").unwrap();
    assert_eq!(ip.scope(), Ipv6AddressScope::LinkLocal);
    assert_eq!(Ipv6Address::from_str("ff0e::1").unwrap().scope(), Ipv6AddressScope::Global);
    assert_eq!(Ipv6Address::from_str("ff00::1").unwrap().scope(), Ipv6AddressScope::Reserved(0));
    assert_eq!(Ipv6Address::from_str("ff07::1").unwrap().scope(), Ipv6AddressScope::Unassigned(7));
    ip.set_scope(Ipv6AddressScope::SiteLocal);
    assert_eq!(ip, Ipv6Address::from_str("ff05::1").unwrap());
    assert_eq!(u8::from(Ipv6AddressScope::OrganizationLocal), 8);
}

#[test]
fn ipv6_groups_and_slices() {
    let ip = Ipv6Address(0xfe80_0000_0000_0000_8657_e6fe_08d5_5325);
    assert_eq!(ip.hextets(), [0xfe80, 0, 0, 0, 0x8657, 0xe6fe, 0x08d5, 0x5325]);
    assert_eq!(Ipv6Address::from_slice(&ip.octets()[..]).unwrap(), ip);
    assert!(Ipv6Address::from_slice(&[1, 2, 3][..]).is_err());
    assert_eq!(Ipv6Address::try_from(&ip.octets()[..]).unwrap(), ip);
    assert!(Ipv6Address::try_from(&[0u8; 17][..]).is_err());
    assert_eq!(Ipv6Address::from_slice_unchecked(&[0xfe, 0x80][..]), Ipv6Address::from_str("fe80::").unwrap());
}
