use std::ops::Range;
use std::str::FromStr;

use topo_synth::gap::GapFinder;
use topo_synth::ip::{IpAddr, Ipv4Addr, Ipv4Net, Ipv6Addr};

fn addr(s: &str) -> Ipv4Addr {
    let parsed = ipnet::Ipv4Net::from_str(&format!("{s}/32")).unwrap();
    Ipv4Addr(u32::from(parsed.addr()))
}

fn net(s: &str) -> Ipv4Net {
    let parsed = ipnet::Ipv4Net::from_str(s).unwrap();
    Ipv4Net::new(Ipv4Addr(u32::from(parsed.addr())), parsed.prefix_len()).unwrap()
}

fn range(start: &str, end: &str) -> Range<Ipv4Addr> {
    addr(start)..addr(end)
}

#[test]
fn test_gap_empty() {
    let finder = GapFinder::<Ipv4Addr>::new();
    let gaps = finder.find_gaps_ipv4(net("172.16.1.1/24"));
    assert_eq!(gaps, vec![range("172.16.1.1", "172.16.1.254")]);
}

#[test]
fn test_gap_none() {
    let mut finder = GapFinder::<Ipv4Addr>::new();
    finder.reserve(range("172.16.1.0", "172.16.1.255"));
    let gaps = finder.find_gaps_ipv4(net("172.16.1.1/24"));
    assert_eq!(gaps, vec![]);
}

#[test]
fn test_gap_router_ip() {
    let mut finder = GapFinder::<Ipv4Addr>::new();
    finder.reserve_ipv4(addr("172.16.1.1"));
    let gaps = finder.find_gaps_ipv4(net("172.16.1.1/24"));
    assert_eq!(gaps, vec![range("172.16.1.2", "172.16.1.254")]);
}

#[test]
fn test_gap_router_and_host_ip() {
    let mut finder = GapFinder::<Ipv4Addr>::new();
    finder.reserve_ipv4(addr("172.16.1.1"));
    finder.reserve_ipv4(addr("172.16.1.10"));
    let gaps = finder.find_gaps_ipv4(net("172.16.1.1/24"));
    assert_eq!(
        gaps,
        vec![range("172.16.1.2", "172.16.1.9"), range("172.16.1.11", "172.16.1.254")]
    );
}

#[test]
fn test_gap_overlapping_ranges() {
    let mut finder = GapFinder::<Ipv4Addr>::new();
    finder.reserve_ipv4(addr("172.16.1.1"));
    finder.reserve_ipv4(addr("172.16.1.15"));
    finder.reserve_ipv4_range(range("172.16.1.10", "172.16.1.20"));
    let gaps = finder.find_gaps_ipv4(net("172.16.1.1/24"));
    assert_eq!(
        gaps,
        vec![range("172.16.1.2", "172.16.1.9"), range("172.16.1.21", "172.16.1.254")]
    );
}

#[test]
fn test_gap_subnet() {
    let mut finder = GapFinder::<Ipv4Addr>::new();
    finder.reserve_ipv4(addr("172.16.1.1"));
    finder.reserve_ipv4(addr("172.16.1.15"));
    finder.reserve_ipv4_range(range("172.16.1.10", "172.16.1.20"));
    finder.reserve_ipv4_net(net("172.16.3.0/24"));
    let gaps = finder.find_gaps_ipv4(net("172.16.0.0/12"));
    assert_eq!(
        gaps,
        vec![
            range("172.16.0.1", "172.16.1.0"),
            range("172.16.1.2", "172.16.1.9"),
            range("172.16.1.21", "172.16.2.255"),
            range("172.16.4.0", "172.31.255.254"),
        ]
    );
}

#[test]
fn gap_reserving_twice_changes_nothing() {
    let mut once = GapFinder::<Ipv4Addr>::new();
    once.reserve_ipv4(addr("10.0.0.7"));
    once.reserve_ipv4_range(range("10.0.0.20", "10.0.0.30"));
    let mut twice = GapFinder::<Ipv4Addr>::new();
    twice.reserve_ipv4(addr("10.0.0.7"));
    twice.reserve_ipv4_range(range("10.0.0.20", "10.0.0.30"));
    twice.reserve_ipv4_range(range("10.0.0.20", "10.0.0.30"));
    twice.reserve_ipv4(addr("10.0.0.7"));
    assert_eq!(once.len(), 2);
    assert_eq!(twice.len(), 4);
    assert_eq!(once.find_gaps_ipv4(net("10.0.0.0/24")), twice.find_gaps_ipv4(net("10.0.0.0/24")));
    assert_eq!(
        once.find_gaps_ipv4(net("10.0.0.0/24")),
        vec![
            range("10.0.0.1", "10.0.0.6"),
            range("10.0.0.8", "10.0.0.19"),
            range("10.0.0.31", "10.0.0.254"),
        ]
    );
}

#[test]
fn gap_order_of_reservations_does_not_matter() {
    let mut forward = GapFinder::<Ipv4Addr>::new();
    forward.reserve(range("10.0.0.10", "10.0.0.20"));
    forward.reserve(range("10.0.0.40", "10.0.0.50"));
    forward.reserve(range("10.0.0.15", "10.0.0.45"));
    let mut backward = GapFinder::<Ipv4Addr>::new();
    backward.reserve(range("10.0.0.15", "10.0.0.45"));
    backward.reserve(range("10.0.0.40", "10.0.0.50"));
    backward.reserve(range("10.0.0.10", "10.0.0.20"));
    let window = range("10.0.0.0", "10.0.0.100");
    let expected = vec![range("10.0.0.0", "10.0.0.10"), range("10.0.0.50", "10.0.0.100")];
    assert_eq!(forward.gaps(window.clone()), expected);
    assert_eq!(backward.gaps(window), expected);
}

#[test]
fn gap_free_ranges_are_ordered_and_cover_the_window() {
    let mut finder = GapFinder::<Ipv4Addr>::new();
    finder.reserve(range("10.0.0.30", "10.0.0.40"));
    finder.reserve(range("10.0.0.5", "10.0.0.12"));
    finder.reserve(range("10.0.0.35", "10.0.0.60"));
    let lo = addr("10.0.0.0");
    let hi = addr("10.0.0.80");
    let gaps = finder.gaps(lo..hi);
    for pair in gaps.windows(2) {
        assert!(pair[0].end <= pair[1].start);
    }
    let reserved =
        [range("10.0.0.30", "10.0.0.40"), range("10.0.0.5", "10.0.0.12"), range("10.0.0.35", "10.0.0.60")];
    for x in lo.0..hi.0 {
        let in_gap = gaps.iter().any(|g| g.start.0 <= x && x < g.end.0);
        let in_chunk = reserved.iter().any(|r| r.start.0 <= x && x < r.end.0);
        assert!(in_gap != in_chunk);
    }
}

#[test]
fn gap_window_is_clamped() {
    let mut finder = GapFinder::<Ipv4Addr>::new();
    finder.reserve(range("10.0.0.0", "10.0.0.10"));
    finder.reserve(range("10.0.0.90", "10.0.1.10"));
    let gaps = finder.gaps(range("10.0.0.5", "10.0.0.95"));
    assert_eq!(gaps, vec![range("10.0.0.10", "10.0.0.90")]);
}

#[test]
fn gap_window_that_ends_before_it_starts_has_no_gaps() {
    let mut finder = GapFinder::<Ipv4Addr>::new();
    finder.reserve_ipv4(addr("10.0.0.1"));
    assert_eq!(finder.gaps(range("10.0.0.9", "10.0.0.3")), vec![]);
    assert_eq!(finder.find_gaps_ipv4(net("10.0.0.1/32")), vec![]);
    assert_eq!(finder.find_gaps_ipv4(net("10.0.0.0/31")), vec![]);
}

#[test]
fn gap_saturates_at_the_ends_of_the_address_space() {
    let mut finder = GapFinder::<Ipv4Addr>::new();
    finder.reserve_ipv4(Ipv4Addr(0));
    finder.reserve_ipv4(Ipv4Addr(u32::MAX));
    let gaps = finder.gaps(Ipv4Addr(0)..Ipv4Addr(u32::MAX));
    assert_eq!(gaps, vec![Ipv4Addr(1)..Ipv4Addr(u32::MAX - 1)]);
}

#[test]
fn gap_ipv6_and_mixed_addresses() {
    let mut v6 = GapFinder::<Ipv6Addr>::new();
    v6.reserve_ipv6(Ipv6Addr(100));
    assert_eq!(
        v6.gaps(Ipv6Addr(90)..Ipv6Addr(110)),
        vec![Ipv6Addr(90)..Ipv6Addr(99), Ipv6Addr(101)..Ipv6Addr(110)]
    );
    let mut mixed = GapFinder::<IpAddr>::new();
    mixed.reserve_ip(IpAddr::V4(Ipv4Addr(50)));
    mixed.reserve_ip(IpAddr::V6(Ipv6Addr(7)));
    assert_eq!(
        mixed.gaps(IpAddr::V4(Ipv4Addr(40))..IpAddr::V6(Ipv6Addr(9))),
        vec![
            IpAddr::V4(Ipv4Addr(40))..IpAddr::V4(Ipv4Addr(49)),
            IpAddr::V4(Ipv4Addr(51))..IpAddr::V6(Ipv6Addr(6)),
            IpAddr::V6(Ipv6Addr(8))..IpAddr::V6(Ipv6Addr(9)),
        ]
    );
}

#[test]
fn gap_free_ranges_are_as_long_as_they_can_be() {
    let mut finder = GapFinder::<Ipv4Addr>::new();
    finder.reserve(Ipv4Addr(20)..Ipv4Addr(30));
    finder.reserve(Ipv4Addr(30)..Ipv4Addr(40));
    finder.reserve(Ipv4Addr(60)..Ipv4Addr(61));
    let gaps = finder.gaps(Ipv4Addr(0)..Ipv4Addr(100));
    assert_eq!(
        gaps,
        vec![Ipv4Addr(0)..Ipv4Addr(20), Ipv4Addr(40)..Ipv4Addr(60), Ipv4Addr(61)..Ipv4Addr(100)]
    );
    for pair in gaps.windows(2) {
        assert!(pair[0].end < pair[1].start);
    }
}

#[test]
fn gap_chunk_without_a_point_parts_the_free_range() {
    let mut finder = GapFinder::<Ipv4Addr>::new();
    finder.reserve(Ipv4Addr(5)..Ipv4Addr(5));
    assert_eq!(
        finder.gaps(Ipv4Addr(0)..Ipv4Addr(10)),
        vec![Ipv4Addr(0)..Ipv4Addr(5), Ipv4Addr(5)..Ipv4Addr(10)]
    );
}
