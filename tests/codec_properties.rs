use ipaddr::Ipv6Address;

fn from_groups(g: [u16; 8]) -> Ipv6Address {
    let mut v: u128 = 0;
    for x in g.iter() {
        v = (v << 16) | u128::from(*x);
    }
    Ipv6Address(v)
}

const SAMPLES: [u128; 10] = [
    0,
    1,
    u128::MAX,
    0xfe80_0000_0000_0000_8657_e6fe_08d5_5325,
    0x0001_0000_0000_0002_0000_0000_0003_0004,
    0x0000_0001_0000_0000_0000_0001_0000_0000,
    0xffff_0000_0000_0000_0000_0000_0000_0000,
    0x0000_0000_0000_0000_0000_0000_0000_ffff,
    0x0001_0002_0003_0004_0005_0006_0007_0000,
    0x0001_0000_0002_0000_0003_0000_0004_0000,
];

#[test]
fn round_trip_on_samples() {
    for v in SAMPLES.iter() {
        let ip = Ipv6Address(*v);
        let text = ip.to_string();
        assert_eq!(Ipv6Address::from_str(&text).unwrap(), ip, "{}", text);
    }
}

#[test]
fn canonical_text_is_idempotent_and_distinct() {
    let mut seen: Vec<String> = Vec::new();
    for v in SAMPLES.iter() {
        let text = Ipv6Address(*v).to_string();
        let again = Ipv6Address::from_str(&text).unwrap().to_string();
        assert_eq!(again, text);
        assert!(!seen.contains(&text));
        seen.push(text);
    }
}

#[test]
fn tie_break_elides_leftmost_run() {
    let ip = from_groups([1, 0, 0, 2, 0, 0, 3, 4]);
    assert_eq!(ip.to_string(), "1::2:0:0:3:4");
    let ip = from_groups([1, 0, 2, 0, 0, 3, 0, 0]);
    assert_eq!(ip.to_string(), "1:0:2::3:0:0");
    let ip = from_groups([1, 0, 0, 2, 0, 0, 0, 4]);
    assert_eq!(ip.to_string(), "1:0:0:2::4");
    let ip = from_groups([1, 2, 3, 0, 5, 6, 7, 8]);
    assert_eq!(ip.to_string(), "1:2:3:0:5:6:7:8");
}

#[test]
fn boundary_literals() {
    assert_eq!(Ipv6Address::from_str("::").unwrap(), Ipv6Address(0));
    assert_eq!(Ipv6Address(0).to_string(), "::");
    assert_eq!(Ipv6Address::from_str("::1").unwrap(), Ipv6Address(1));
    assert_eq!(
        Ipv6Address::from_str("ffff::").unwrap().hextets(),
        [0xffff, 0, 0, 0, 0, 0, 0, 0]
    );
    let ip = Ipv6Address::from_str("fe80::8657:e6fe:8d5:5325").unwrap();
    assert_eq!(ip.hextets(), [0xfe80, 0, 0, 0, 0x8657, 0xe6fe, 0x8d5, 0x5325]);
    assert_eq!(ip.to_string(), "fe80::8657:e6fe:8d5:5325");
    assert_eq!(
        Ipv6Address::from_str("::1.2.3.4").unwrap().hextets(),
        [0, 0, 0, 0, 0, 0, 0x0102, 0x0304]
    );
    assert_eq!(Ipv6Address(u128::MAX).to_string(), "ffff:ffff:ffff:ffff:ffff:ffff:ffff:ffff");
    assert_eq!(Ipv6Address(0xffff).to_string(), "::ffff");
}

#[test]
fn rejected_inputs() {
    for s in [
        "",
        ":",
        "::::",
        "::1::",
        "1:2:3:4:5:6:7:8:9",
        "1:2:3:4:5:6:7",
        "12345::",
        "::ffff:256.0.0.1",
        "1:2:3:4:5:6:7::8",
        "1:2:3:4:5:6:7:8::",
        "::1.2.3.4:5",
        "g::",
        "1111:2222:3333:4444:5555:6666:7777:8888:123.123.123.123",
    ]
    .iter()
    {
        assert!(Ipv6Address::from_str(s).is_err(), "{}", s);
    }
    let e = Ipv6Address::from_str("::1::").unwrap_err();
    assert_eq!(e.0, "::1::");
}

#[test]
fn longest_accepted_input() {
    let s = "1111:2222:3333:4444:5555:6666:123.123.123.123";
    assert_eq!(s.len(), 45);
    assert_eq!(
        Ipv6Address::from_str(s).unwrap(),
        Ipv6Address(0x1111_2222_3333_4444_5555_6666_7b7b_7b7b)
    );
    assert_eq!(
        Ipv6Address::from_str("1:2:3:4:5:6:7::").unwrap(),
        Ipv6Address(0x0001_0002_0003_0004_0005_0006_0007_0000)
    );
    assert_eq!(
        Ipv6Address::from_str("FE80::A").unwrap(),
        Ipv6Address(0xfe80_0000_0000_0000_0000_0000_0000_000a)
    );
}

#[test]
fn formatter_configuration_combinations() {
    let ip = Ipv6Address(0xfe80_0000_0000_0000_8657_0000_08d5_5325);
    let render = |elide: bool, lead: bool, upper: bool| {
        let mut s = String::new();
        ip.formatter()
            .ellipsis(elide)
            .leading_zeros(lead)
            .upper_case(upper)
            .write(&mut s);
        s
    };
    assert_eq!(render(true, false, false), "fe80::8657:0:8d5:5325");
    assert_eq!(render(false, false, false), "fe80:0:0:0:8657:0:8d5:5325");
    assert_eq!(render(true, true, false), "fe80::8657:0000:08d5:5325");
    assert_eq!(render(false, true, false), "fe80:0000:0000:0000:8657:0000:08d5:5325");
    for elide in [true, false].iter() {
        for lead in [true, false].iter() {
            let lower = render(*elide, *lead, false);
            let upper = render(*elide, *lead, true);
            assert_eq!(upper, lower.to_uppercase());
        }
    }
}
