use ipaddr::Ipv6Address;

#[test]
fn test_format_link_local() {
    let ip = Ipv6Address(0xfe80_0000_0000_0000_8657_0000_08d5_5325);
    let mut s = String::with_capacity(40);

    // Default formatting
    ip.formatter().write(&mut s);
    assert_eq!(s, "fe80::8657:0:8d5:5325");

    // The default formatting is the RFC5952 formatting
    s.truncate(0);
    ip.formatter().rfc_5952().write(&mut s);
    assert_eq!(s, "fe80::8657:0:8d5:5325");

    // Use upper case letters
    s.truncate(0);
    ip.formatter().upper_case(true).write(&mut s);
    assert_eq!(s, "FE80::8657:0:8D5:5325");

    // Do not reduce the longest 0 sequence to ::
    s.truncate(0);
    ip.formatter().ellipsis(false).write(&mut s);
    assert_eq!(s, "fe80:0:0:0:8657:0:8d5:5325");

    // Like the previous one, but with upper case letters
    s.truncate(0);
    ip.formatter().upper_case(true).ellipsis(false).write(&mut s);
    assert_eq!(s, "FE80:0:0:0:8657:0:8D5:5325");

    // Print leading zeros: 8d5 is now 08d5, and 0 is 0000
    s.truncate(0);
    ip.formatter().leading_zeros(true).write(&mut s);
    assert_eq!(s, "fe80::8657:0000:08d5:5325");

    // Disable ellipsis, and print leading zeros.
    s.truncate(0);
    ip.formatter().ellipsis(false).leading_zeros(true).write(&mut s);
    assert_eq!(s, "fe80:0000:0000:0000:8657:0000:08d5:5325");

    // A shortcut for the previous example:
    s.truncate(0);
    ip.formatter().expanded().write(&mut s);
    assert_eq!(s, "fe80:0000:0000:0000:8657:0000:08d5:5325");

    // Expanded and upper case
    s.truncate(0);
    ip.formatter()
        .upper_case(true)
        .ellipsis(false)
        .leading_zeros(true)
        .write(&mut s);
    assert_eq!(s, "FE80:0000:0000:0000:8657:0000:08D5:5325");
}

#[test]
fn test_format_zero() {
    let mut s = String::with_capacity(40);
    let ip = Ipv6Address(0);
    ip.formatter().write(&mut s);
    assert_eq!(s, "::");

    s.truncate(0);
    ip.formatter().upper_case(true).write(&mut s);
    assert_eq!(s, "::");

    s.truncate(0);
    ip.formatter().ellipsis(false).write(&mut s);
    assert_eq!(s, "0:0:0:0:0:0:0:0");

    s.truncate(0);
    ip.formatter().upper_case(true).ellipsis(false).write(&mut s);
    assert_eq!(s, "0:0:0:0:0:0:0:0");

    s.truncate(0);
    ip.formatter().leading_zeros(true).write(&mut s);
    assert_eq!(s, "::");

    s.truncate(0);
    ip.formatter().ellipsis(false).leading_zeros(true).write(&mut s);
    assert_eq!(s, "0000:0000:0000:0000:0000:0000:0000:0000");

    s.truncate(0);
    ip.formatter()
        .upper_case(true)
        .ellipsis(false)
        .leading_zeros(true)
        .write(&mut s);
    assert_eq!(s, "0000:0000:0000:0000:0000:0000:0000:0000");
}

#[test]
fn test_format_loopback() {
    let mut s = String::with_capacity(40);
    let ip = Ipv6Address(1);

    ip.formatter().write(&mut s);
    assert_eq!(s, "::1");

    s.truncate(0);
    ip.formatter().upper_case(true).write(&mut s);
    assert_eq!(s, "::1");

    s.truncate(0);
    ip.formatter().ellipsis(false).write(&mut s);
    assert_eq!(s, "0:0:0:0:0:0:0:1");

    s.truncate(0);
    ip.formatter().upper_case(true).ellipsis(false).write(&mut s);
    assert_eq!(s, "0:0:0:0:0:0:0:1");

    s.truncate(0);
    ip.formatter().leading_zeros(true).write(&mut s);
    assert_eq!(s, "::0001");

    s.truncate(0);
    ip.formatter().ellipsis(false).leading_zeros(true).write(&mut s);
    assert_eq!(s, "0000:0000:0000:0000:0000:0000:0000:0001");

    s.truncate(0);
    ip.formatter()
        .upper_case(true)
        .ellipsis(false)
        .leading_zeros(true)
        .write(&mut s);
    assert_eq!(s, "0000:0000:0000:0000:0000:0000:0000:0001");
}

#[test]
fn format_appends_to_existing_text() {
    let mut s = String::from("addr=");
    Ipv6Address(1).formatter().write(&mut s);
    assert_eq!(s, "addr=::1");
}
