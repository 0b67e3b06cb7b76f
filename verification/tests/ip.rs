use topo_synth::ip::{IpAddr, IpNet, Ipv4Addr, Ipv4Net, Ipv6Addr, Ipv6Net};

#[test]
fn text_of_addresses() {
    assert_eq!(Ipv4Addr::new(10, 0, 0, 1).to_text(), "10.0.0.1");
    assert_eq!(Ipv4Addr(0).to_text(), "0.0.0.0");
    assert_eq!(Ipv4Addr(u32::MAX).to_text(), "255.255.255.255");
    assert_eq!(Ipv4Addr::new(192, 168, 100, 9).to_text(), "192.168.100.9");
    assert_eq!(Ipv6Addr(1).to_text(), "::1");
    assert_eq!(Ipv6Addr(0x2001_0db8 << 96 | 0x42).to_text(), "2001:db8::42");
    assert_eq!(IpAddr::V4(Ipv4Addr::new(172, 16, 0, 254)).to_text(), "172.16.0.254");
    assert_eq!(IpAddr::V6(Ipv6Addr(0xfe80 << 112 | 0xa)).to_text(), "fe80::a");
}

#[test]
fn address_bits() {
    assert_eq!(Ipv4Addr::new(1, 2, 3, 4).bits(), 0x0102_0304);
    assert_eq!(Ipv6Addr(77).bits(), 77);
}

#[test]
fn prefix_lengths_are_bounded() {
    assert!(Ipv4Net::new(Ipv4Addr(0), 32).is_some());
    assert_eq!(Ipv4Net::new(Ipv4Addr(0), 33), None);
    assert!(Ipv6Net::new(Ipv6Addr(0), 128).is_some());
    assert_eq!(Ipv6Net::new(Ipv6Addr(0), 129), None);
}

#[test]
fn host_networks() {
    let host = Ipv4Net::host(Ipv4Addr::new(10, 9, 8, 7));
    assert_eq!(host.addr(), Ipv4Addr::new(10, 9, 8, 7));
    assert_eq!(host.prefix_len(), 32);
    assert_eq!(host.network(), host.addr());
    assert_eq!(host.broadcast(), host.addr());
}

#[test]
fn networks_of_both_families() {
    let four = IpNet::V4(Ipv4Net::new(Ipv4Addr::new(10, 20, 30, 40), 20).unwrap());
    assert_eq!(four.addr(), IpAddr::V4(Ipv4Addr::new(10, 20, 30, 40)));
    assert_eq!(four.prefix_len(), 20);
    assert_eq!(four.trunc(), IpNet::V4(Ipv4Net::new(Ipv4Addr::new(10, 20, 16, 0), 20).unwrap()));
    let six = IpNet::V6(Ipv6Net::new(Ipv6Addr(0x2001_0db8_aaaa_bbbb << 64 | 9), 48).unwrap());
    assert_eq!(six.prefix_len(), 48);
    assert_eq!(
        six.trunc(),
        IpNet::V6(Ipv6Net::new(Ipv6Addr(0x2001_0db8_aaaa_0000 << 64), 48).unwrap())
    );
    assert_eq!(
        six.supernet(),
        Some(IpNet::V6(Ipv6Net::new(Ipv6Addr(0x2001_0db8_aaaa_0000 << 64), 47).unwrap()))
    );
    assert_eq!(Ipv6Addr(5).saturating_sub(9), Ipv6Addr(0));
    assert_eq!(Ipv6Addr(5).saturating_add(9), Ipv6Addr(14));
}
