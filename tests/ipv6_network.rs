use ipaddr::{Ipv6Address, Ipv6Mask, Ipv6Network};

const IP: u128 = 0xfe80_0000_0000_0000_aef4_1242_24e6_0c81;

fn get_net(prefix: u8) -> Ipv6Network {
    Ipv6Network::new(IP.into(), Ipv6Mask::from_prefixlen(prefix).unwrap())
}

#[test]
fn test_from_str() {
    let s = "fe80::aef4:1242:24e6:c81/64";
    let expected = Ipv6Network::new(IP.into(), Ipv6Mask::from_prefixlen(64).unwrap());
    assert_eq!(Ipv6Network::from_str(s).unwrap(), expected);

    let s = "fe80::aef4:1242:24e6:c81/ffff:ffff:ffff:ffff::";
    assert_eq!(Ipv6Network::from_str(s).unwrap(), expected);

    let s = "fe80::aef4:1242:24e6:c81/0";
    let expected = Ipv6Network::new(IP.into(), Ipv6Mask::try_from(0).unwrap());
    assert_eq!(Ipv6Network::from_str(s).unwrap(), expected);

    let s = "fe80::aef4:1242:24e6:c81/128";
    let expected = Ipv6Network::new(IP.into(), Ipv6Mask::try_from(u128::max_value()).unwrap());
    assert_eq!(Ipv6Network::from_str(s).unwrap(), expected);
}

#[test]
fn test_network() {
    assert_eq!(get_net(16).network(), Ipv6Address::from_str("fe80::").unwrap());
    assert_eq!(get_net(64).network(), Ipv6Address::from_str("fe80::").unwrap());
    assert_eq!(
        get_net(72).network(),
        Ipv6Address::from_str("fe80:0:0:0:ae00::").unwrap()
    );
    assert_eq!(
        get_net(73).network(),
        Ipv6Address::from_str("fe80:0:0:0:ae80::").unwrap()
    );
    assert_eq!(get_net(128).network(), IP.into());
}

#[test]
fn test_host() {
    assert_eq!(
        get_net(16).host(),
        Ipv6Address::from_str("::aef4:1242:24e6:c81").unwrap()
    );
    assert_eq!(
        get_net(64).host(),
        Ipv6Address::from_str("::aef4:1242:24e6:c81").unwrap()
    );
    assert_eq!(
        get_net(72).host(),
        Ipv6Address::from_str("::00f4:1242:24e6:c81").unwrap()
    );
    assert_eq!(
        get_net(73).host(),
        Ipv6Address::from_str("::0074:1242:24e6:c81").unwrap()
    );
    assert_eq!(get_net(128).host(), 0.into());
}

#[test]
fn test_host_mask() {
    assert_eq!(
        get_net(16).host_mask(),
        Ipv6Address::from_str("::ffff:ffff:ffff:ffff:ffff:ffff:ffff").unwrap()
    );
    assert_eq!(
        get_net(64).host_mask(),
        Ipv6Address::from_str("::ffff:ffff:ffff:ffff").unwrap()
    );
    assert_eq!(
        get_net(72).host_mask(),
        Ipv6Address::from_str("::ff:ffff:ffff:ffff").unwrap()
    );
    assert_eq!(
        get_net(73).host_mask(),
        Ipv6Address::from_str("::7f:ffff:ffff:ffff").unwrap()
    );
    assert_eq!(get_net(128).host_mask(), Ipv6Address::from_str("::").unwrap());
}

#[test]
fn test_mask() {
    assert_eq!(get_net(16).mask(), Ipv6Mask::from_str("ffff::").unwrap());
    assert_eq!(
        get_net(64).mask(),
        Ipv6Mask::from_str("ffff:ffff:ffff:ffff::").unwrap()
    );
    assert_eq!(
        get_net(72).mask(),
        Ipv6Mask::from_str("ffff:ffff:ffff:ffff:ff00::").unwrap()
    );
    assert_eq!(
        get_net(73).mask(),
        Ipv6Mask::from_str("ffff:ffff:ffff:ffff:ff80::").unwrap()
    );
    assert_eq!(
        get_net(128).mask(),
        Ipv6Mask::try_from(u128::max_value()).unwrap()
    );
}

#[test]
fn network_broadcast_len_text() {
    let net = get_net(64);
    assert_eq!(net.broadcast(), Ipv6Address::from_str("fe80::ffff:ffff:ffff:ffff").unwrap());
    assert_eq!(net.len(), 0xffff_ffff_ffff_ffff);
    assert_eq!(net.to_string(), "fe80::aef4:1242:24e6:c81/64");
    assert_eq!(*net.ip(), Ipv6Address(IP));
    let mut n = net;
    *n.ip_mut() = Ipv6Address(1);
    *n.mask_mut() = Ipv6Mask::from_prefixlen(128).unwrap();
    assert_eq!(n.to_string(), "::1/128");
}

#[test]
fn network_text_errors() {
    assert!(Ipv6Network::from_str("fe80::1").is_err());
    assert!(Ipv6Network::from_str("fe80::1/129").is_err());
    assert!(Ipv6Network::from_str("fe80::1/").is_err());
    assert!(Ipv6Network::from_str("fe80::1/ffff::1").is_err());
    assert!(Ipv6Network::from_str("fe80:::1/64").is_err());
    assert_eq!(Ipv6Network::from_str("fe80::1/+64").unwrap(), Ipv6Network::new(Ipv6Address::from_str("fe80::1").unwrap(), Ipv6Mask::from_prefixlen(64).unwrap()));
    let e = Ipv6Network::from_str("fe80::1/x").unwrap_err();
    assert_eq!(e.0, "fe80::1/x");
}
