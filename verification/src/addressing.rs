//! Addresses and DHCP for the planes of a device.
//!
//! The interface that stands for a plane gets the addresses of the
//! interface of the plane, or a DHCP client where it has none and asks for
//! one. Where a DHCP server is asked for, each IPv4 address of the interface
//! gets a server for its prefix. The server hands out the ranges that the
//! inventory marks for DHCP; where there are none, it hands out what is left
//! of the host addresses of the prefix after every range, every network
//! below the prefix and every address in it has been taken out.

use crate::access::InterfaceAccess;
use crate::access::IpPrefixAccess;
use crate::bridging::Mapped;
use crate::bridging::mapped_on;
use crate::bridging::mapped_views;
use crate::error::SetupError;
use crate::error::SetupErrorView;
use crate::gap::free_ranges;
use crate::gap::positions;
use crate::gap::range_positions;
use crate::gap::GapFinder;
use crate::gap::MAX_CHUNKS;
use crate::ip::saturating_add_v4;
use crate::ip::saturating_sub_v4;
use crate::ip::IpAddr;
use crate::ip::IpNet;
use crate::ip::Ipv4Addr;
use crate::ip::Ipv4Net;
use crate::model::AddressRange;
use crate::model::DhcpServer;
use crate::model::DhcpServerNetwork;
use crate::model::DhcpServerNetworkView;
use crate::model::DhcpServerView;
use crate::model::Ipv4Pool;
use crate::model::Ipv4PoolView;
use crate::model::MappedPlaneView;
use crate::table::amended;
use crate::table::ensure;
use crate::table::ensured;
use crate::table::entry_views;
use crate::table::lemma_position;
use crate::table::put;
use crate::target::mapped_name;
use crate::target::with_dhcp_client;
use crate::target::with_ip_address;
use crate::target::with_mapped_plane;
use crate::target::BaseDeviceDataTarget;
use crate::target::TargetView;
use crate::text::append_decimal;
use crate::text::decimal;
use crate::text::push_char;
use crate::topology::InterfaceId;
use crate::topology::IpAddressId;
use crate::topology::IpPrefixData;
use crate::topology::IpPrefixId;
use crate::topology::IpRangeId;
use crate::topology::Topology;
use core::ops::Range;
use vstd::prelude::*;
use vstd::string::*;

verus! {

/// The chunk that is reserved for the addresses from `start` to `end`.
pub open spec fn chunk_of(start: Ipv4Addr, end: Ipv4Addr) -> (Ipv4Addr, Ipv4Addr) {
    (Ipv4Addr(saturating_sub_v4(start.0, 1)), Ipv4Addr(saturating_add_v4(end.0, 1)))
}

/// The ranges of a prefix that the inventory marks for DHCP, for the
/// ranges that it holds with IPv4 ends.
pub open spec fn explicit_ranges(t: &Topology, ids: Seq<IpRangeId>) -> Seq<AddressRange>
    decreases ids.len(),
{
    if ids.len() == 0 {
        Seq::empty()
    } else {
        let before = explicit_ranges(t, ids.drop_last());
        match t.spec_ip_range(ids.last()) {
            Some(r) => match (r.start, r.end) {
                (IpAddr::V4(start), IpAddr::V4(end)) => if r.is_dhcp {
                    before.push(AddressRange { start, end })
                } else {
                    before
                },
                _ => before,
            },
            None => before,
        }
    }
}

/// The chunks that the ranges of a prefix take.
pub open spec fn range_chunks(t: &Topology, ids: Seq<IpRangeId>) -> Seq<(Ipv4Addr, Ipv4Addr)>
    decreases ids.len(),
{
    if ids.len() == 0 {
        Seq::empty()
    } else {
        let before = range_chunks(t, ids.drop_last());
        match t.spec_ip_range(ids.last()) {
            Some(r) => match (r.start, r.end) {
                (IpAddr::V4(start), IpAddr::V4(end)) => before.push(chunk_of(start, end)),
                _ => before,
            },
            None => before,
        }
    }
}

/// The chunks that the networks below a prefix take.
pub open spec fn child_chunks(t: &Topology, ids: Seq<IpPrefixId>) -> Seq<(Ipv4Addr, Ipv4Addr)>
    decreases ids.len(),
{
    if ids.len() == 0 {
        Seq::empty()
    } else {
        let before = child_chunks(t, ids.drop_last());
        match t.spec_ip_prefix(ids.last()) {
            Some(p) => match p.prefix {
                IpNet::V4(n) => before.push(chunk_of(n.spec_network(), n.spec_broadcast())),
                _ => before,
            },
            None => before,
        }
    }
}

/// The chunks that the addresses in a prefix take.
pub open spec fn address_chunks(t: &Topology, ids: Seq<IpAddressId>) -> Seq<(Ipv4Addr, Ipv4Addr)>
    decreases ids.len(),
{
    if ids.len() == 0 {
        Seq::empty()
    } else {
        let before = address_chunks(t, ids.drop_last());
        match t.spec_ip_address(ids.last()) {
            Some(a) => match a.ip.spec_addr() {
                IpAddr::V4(x) => before.push(chunk_of(x, x)),
                _ => before,
            },
            None => before,
        }
    }
}

/// The ranges with the given ends.
pub open spec fn ranges_of(ends: Seq<(int, int)>) -> Seq<AddressRange> {
    Seq::new(
        ends.len(),
        |i: int|
            AddressRange { start: Ipv4Addr(ends[i].0 as u32), end: Ipv4Addr(ends[i].1 as u32) },
    )
}

/// The ranges that a DHCP server for the prefix hands out in the network
/// `net`; an error where the prefix holds more than a search for free ranges
/// takes.
pub open spec fn dhcp_ranges(t: &Topology, p: IpPrefixData, net: Ipv4Net) -> Result<
    Seq<AddressRange>,
    SetupErrorView,
> {
    let explicit = explicit_ranges(t, p.ranges@);
    if explicit.len() > 0 {
        Ok(explicit)
    } else if p.ranges@.len() + p.children@.len() + p.addresses@.len() > MAX_CHUNKS {
        Err(SetupErrorView::TooManyReservations)
    } else {
        Ok(
            ranges_of(
                free_ranges(
                    positions(
                        range_chunks(t, p.ranges@) + child_chunks(t, p.children@) + address_chunks(
                            t,
                            p.addresses@,
                        ),
                    ),
                    saturating_add_v4(net.spec_network().0, 1) as int,
                    saturating_sub_v4(net.spec_broadcast().0, 1) as int,
                ),
            ),
        )
    }
}

/// The name of the DHCP server for the address at the place `idx` among
/// the addresses of the interface `if_name`.
pub open spec fn server_name(if_name: Seq<char>, idx: nat) -> Seq<char> {
    if idx == 0 {
        "dhcp-"@ + if_name
    } else {
        "dhcp-"@ + if_name + seq!['-'] + decimal(idx)
    }
}

/// The list with `a` at its end, where it was not in it.
pub open spec fn with_addr(list: Seq<Ipv4Addr>, a: Ipv4Addr) -> Seq<Ipv4Addr> {
    if list.contains(a) {
        list
    } else {
        list.push(a)
    }
}

/// The configuration with a DHCP server that hands out `ranges` on the
/// interface `if_name` for the network `net`, with `ip` as the gateway and
/// name server; unchanged where there is no range to hand out.
pub open spec fn with_dhcp_server(
    t: TargetView,
    ranges: Seq<AddressRange>,
    ip: Ipv4Addr,
    net: Ipv4Net,
    idx: nat,
    if_name: Seq<char>,
) -> TargetView {
    if ranges.len() == 0 {
        t
    } else {
        let name = server_name(if_name, idx);
        TargetView {
            dhcp_v_4_server: amended::<DhcpServer>(
                t.dhcp_v_4_server,
                DhcpServerView { name, interface: None, address_pool: None },
                |s: DhcpServerView|
                    DhcpServerView { interface: Some(if_name), address_pool: Some(name), ..s },
            ),
            dhcp_v_4_server_network: amended::<DhcpServerNetwork>(
                t.dhcp_v_4_server_network,
                DhcpServerNetworkView {
                    address: net,
                    gateway: Seq::empty(),
                    dns_server: Seq::empty(),
                },
                |n: DhcpServerNetworkView|
                    DhcpServerNetworkView {
                        gateway: with_addr(n.gateway, ip),
                        dns_server: with_addr(n.dns_server, ip),
                        ..n
                    },
            ),
            ipv_4_pool: amended::<Ipv4Pool>(
                t.ipv_4_pool,
                Ipv4PoolView { name, ranges: Seq::empty() },
                |p: Ipv4PoolView| Ipv4PoolView { ranges, ..p },
            ),
            ..t
        }
    }
}

/// The configuration with the address `id` on the interface `if_name`,
/// and with a DHCP server for it where one is asked for and the address is
/// an IPv4 address in an IPv4 prefix.
pub open spec fn with_ip(
    t: TargetView,
    topology: &Topology,
    id: IpAddressId,
    idx: nat,
    if_name: Seq<char>,
    dhcp_server: bool,
) -> Result<TargetView, SetupErrorView> {
    match topology.spec_ip_address(id) {
        Some(a) => {
            let set = with_ip_address(t, a.ip, if_name);
            if !dhcp_server {
                Ok(set)
            } else {
                match a.prefix {
                    Some(pid) => match topology.spec_ip_prefix(pid) {
                        Some(p) => match (a.ip, p.prefix) {
                            (IpNet::V4(ip), IpNet::V4(net)) => match dhcp_ranges(topology, p, net) {
                                Ok(ranges) => Ok(
                                    with_dhcp_server(set, ranges, ip.spec_addr(), net, idx, if_name),
                                ),
                                Err(e) => Err(e),
                            },
                            _ => Ok(set),
                        },
                        None => Err(SetupErrorView::MissingAddressOnPrefix { prefix: pid }),
                    },
                    None => Err(SetupErrorView::MissingPrefixOnIpAddress { ip: a.ip }),
                }
            }
        },
        None => Ok(t),
    }
}

/// The configuration with the first `n` of the addresses on the interface
/// `if_name`.
pub open spec fn with_ips(
    t: TargetView,
    topology: &Topology,
    ids: Seq<IpAddressId>,
    n: int,
    if_name: Seq<char>,
    dhcp_server: bool,
) -> Result<TargetView, SetupErrorView>
    decreases n,
{
    if n <= 0 {
        Ok(t)
    } else {
        match with_ips(t, topology, ids, n - 1, if_name, dhcp_server) {
            Ok(before) => with_ip(before, topology, ids[n - 1], (n - 1) as nat, if_name, dhcp_server),
            Err(e) => Err(e),
        }
    }
}

/// The configuration with the addressing of one plane.
pub open spec fn with_plane_addresses(
    t: TargetView,
    topology: &Topology,
    interface: InterfaceId,
    plane: MappedPlaneView,
) -> Result<TargetView, SetupErrorView> {
    let access = InterfaceAccess { topology, id: interface };
    let ips = match topology.spec_interface(interface) {
        Some(d) => d.ips@,
        None => Seq::empty(),
    };
    if ips.len() == 0 {
        if access.spec_enable_dhcp_client() {
            Ok(with_dhcp_client(with_mapped_plane(t, plane), mapped_name(plane)))
        } else {
            Ok(t)
        }
    } else {
        with_ips(
            with_mapped_plane(t, plane),
            topology,
            ips,
            ips.len() as int,
            mapped_name(plane),
            access.spec_enable_dhcp_server(),
        )
    }
}

/// The configuration with the addressing of the planes.
pub open spec fn with_addresses(
    t: TargetView,
    topology: &Topology,
    mapped: Seq<(InterfaceId, MappedPlaneView)>,
) -> Result<TargetView, SetupErrorView>
    decreases mapped.len(),
{
    if mapped.len() == 0 {
        Ok(t)
    } else {
        match with_addresses(t, topology, mapped.drop_last()) {
            Ok(before) => with_plane_addresses(before, topology, mapped.last().0, mapped.last().1),
            Err(e) => Err(e),
        }
    }
}

proof fn lemma_with_ips_err(
    t: TargetView,
    topology: &Topology,
    ids: Seq<IpAddressId>,
    n: int,
    if_name: Seq<char>,
    dhcp_server: bool,
)
    requires
        0 <= n <= ids.len(),
        with_ips(t, topology, ids, n, if_name, dhcp_server) is Err,
    ensures
        with_ips(t, topology, ids, ids.len() as int, if_name, dhcp_server) == with_ips(
            t,
            topology,
            ids,
            n,
            if_name,
            dhcp_server,
        ),
    decreases ids.len() - n,
{
    if n < ids.len() {
        lemma_with_ips_err(t, topology, ids, n + 1, if_name, dhcp_server);
    }
}

proof fn lemma_with_addresses_err(
    t: TargetView,
    topology: &Topology,
    mapped: Seq<(InterfaceId, MappedPlaneView)>,
    n: int,
)
    requires
        0 <= n <= mapped.len(),
        with_addresses(t, topology, mapped.take(n)) is Err,
    ensures
        with_addresses(t, topology, mapped) == with_addresses(t, topology, mapped.take(n)),
    decreases mapped.len() - n,
{
    if n < mapped.len() {
        assert(mapped.take(n + 1).drop_last() =~= mapped.take(n));
        lemma_with_addresses_err(t, topology, mapped, n + 1);
    } else {
        assert(mapped.take(n) =~= mapped);
    }
}

/// Adds `a` at the end of a copy of the list, where it is not in it.
fn copy_with_addr(list: &Vec<Ipv4Addr>, a: Ipv4Addr) -> (r: Vec<Ipv4Addr>)
    ensures
        r@ == with_addr(list@, a),
{
    let mut out: Vec<Ipv4Addr> = Vec::new();
    let mut found = false;
    let mut i: usize = 0;
    while i < list.len()
        invariant
            i <= list.len(),
            out@ == list@.take(i as int),
            found == list@.take(i as int).contains(a),
        decreases list.len() - i,
    {
        let ghost before = list@.take(i as int);
        if list[i] == a {
            found = true;
        }
        out.push(list[i]);
        proof {
            let now = list@.take(i as int + 1);
            assert(now =~= before.push(list@[i as int]));
            if before.contains(a) {
                let w = choose|w: int| 0 <= w < before.len() && before[w] == a;
                assert(now[w] == a);
            }
            if list@[i as int] == a {
                assert(now[i as int] == a);
            }
            if now.contains(a) && list@[i as int] != a {
                let w = choose|w: int| 0 <= w < now.len() && now[w] == a;
                assert(before[w] == a);
            }
        }
        i += 1;
    }
    proof {
        assert(list@.take(list.len() as int) =~= list@);
    }
    if !found {
        out.push(a);
    }
    out
}

impl BaseDeviceDataTarget {
    /// The ranges that a DHCP server for the prefix hands out in the
    /// network `net`.
    fn find_dhcp_ranges(prefix: &IpPrefixAccess<'_>, net: Ipv4Net) -> (r: Result<
        Vec<AddressRange>,
        SetupError,
    >)
        requires
            prefix.spec_data() is Some,
        ensures
            match dhcp_ranges(prefix.topology, prefix.spec_data()->0, net) {
                Ok(ranges) => r matches Ok(v) && v@ == ranges,
                Err(e) => r matches Err(f) && f@ == e,
            },
    {
        let t = prefix.topology;
        let ghost p = prefix.spec_data()->0;
        let ranges = prefix.ranges();
        let ghost range_ids = p.ranges@;
        let mut explicit: Vec<AddressRange> = Vec::new();
        let mut i: usize = 0;
        proof {
            assert(range_ids.take(0) =~= Seq::<IpRangeId>::empty());
        }
        while i < ranges.len()
            invariant
                i <= ranges.len(),
                ranges@.len() == range_ids.len(),
                forall|k: int|
                    0 <= k < ranges@.len() ==> (#[trigger] ranges@[k]).topology == t && ranges@[k].id
                        == range_ids[k],
                explicit@ == explicit_ranges(t, range_ids.take(i as int)),
            decreases ranges.len() - i,
        {
            proof {
                assert(range_ids.take(i as int + 1).drop_last() =~= range_ids.take(i as int));
                assert(range_ids.take(i as int + 1).last() == ranges@[i as int].id);
            }
            let range = &ranges[i];
            match (range.start(), range.end()) {
                (Some(IpAddr::V4(start)), Some(IpAddr::V4(end))) => {
                    if range.is_dhcp() {
                        explicit.push(AddressRange { start, end });
                    }
                },
                _ => {},
            }
            i += 1;
        }
        proof {
            assert(range_ids.take(ranges@.len() as int) =~= range_ids);
        }
        if explicit.len() > 0 {
            return Ok(explicit);
        }
        let children = prefix.children();
        let ips = prefix.ips();
        let limit: u64 = MAX_CHUNKS as u64;
        if ranges.len() as u64 > limit || children.len() as u64 > limit || ips.len() as u64 > limit
            || ranges.len() as u64 + children.len() as u64 + ips.len() as u64 > limit {
            return Err(SetupError::TooManyReservations);
        }
        let mut finder: GapFinder<Ipv4Addr> = GapFinder::new();
        let mut i: usize = 0;
        proof {
            assert(range_ids.take(0) =~= Seq::<IpRangeId>::empty());
        }
        while i < ranges.len()
            invariant
                i <= ranges.len(),
                ranges@.len() == range_ids.len(),
                ranges@.len() + children@.len() + ips@.len() <= MAX_CHUNKS,
                forall|k: int|
                    0 <= k < ranges@.len() ==> (#[trigger] ranges@[k]).topology == t && ranges@[k].id
                        == range_ids[k],
                finder.wf(),
                finder.reservations() == range_chunks(t, range_ids.take(i as int)),
                finder.reservations().len() <= i,
            decreases ranges.len() - i,
        {
            proof {
                assert(range_ids.take(i as int + 1).drop_last() =~= range_ids.take(i as int));
                assert(range_ids.take(i as int + 1).last() == ranges@[i as int].id);
            }
            let range = &ranges[i];
            match (range.start(), range.end()) {
                (Some(IpAddr::V4(start)), Some(IpAddr::V4(end))) => {
                    finder.reserve_ipv4_range(Range { start, end });
                },
                _ => {},
            }
            i += 1;
        }
        proof {
            assert(range_ids.take(ranges@.len() as int) =~= range_ids);
        }
        let ghost first = finder.reservations();
        let ghost child_ids = p.children@;
        let mut i: usize = 0;
        proof {
            assert(child_ids.take(0) =~= Seq::<IpPrefixId>::empty());
            assert(first + Seq::<(Ipv4Addr, Ipv4Addr)>::empty() =~= first);
        }
        while i < children.len()
            invariant
                i <= children.len(),
                children@.len() == child_ids.len(),
                ranges@.len() + children@.len() + ips@.len() <= MAX_CHUNKS,
                forall|k: int|
                    0 <= k < children@.len() ==> (#[trigger] children@[k]).topology == t
                        && children@[k].id == child_ids[k],
                finder.wf(),
                first.len() <= ranges@.len(),
                finder.reservations() == first + child_chunks(t, child_ids.take(i as int)),
                child_chunks(t, child_ids.take(i as int)).len() <= i,
            decreases children.len() - i,
        {
            proof {
                assert(child_ids.take(i as int + 1).drop_last() =~= child_ids.take(i as int));
                assert(child_ids.take(i as int + 1).last() == children@[i as int].id);
            }
            let ghost before = child_chunks(t, child_ids.take(i as int));
            match children[i].prefix() {
                Some(IpNet::V4(n)) => {
                    finder.reserve_ipv4_net(n);
                    proof {
                        assert((first + before).push(chunk_of(n.spec_network(), n.spec_broadcast()))
                            =~= first + before.push(
                            chunk_of(n.spec_network(), n.spec_broadcast()),
                        ));
                    }
                },
                _ => {},
            }
            i += 1;
        }
        proof {
            assert(child_ids.take(children@.len() as int) =~= child_ids);
        }
        let ghost second = finder.reservations();
        let ghost ip_ids = p.addresses@;
        let mut i: usize = 0;
        proof {
            assert(ip_ids.take(0) =~= Seq::<IpAddressId>::empty());
            assert(second + Seq::<(Ipv4Addr, Ipv4Addr)>::empty() =~= second);
        }
        while i < ips.len()
            invariant
                i <= ips.len(),
                ips@.len() == ip_ids.len(),
                ranges@.len() + children@.len() + ips@.len() <= MAX_CHUNKS,
                forall|k: int|
                    0 <= k < ips@.len() ==> (#[trigger] ips@[k]).topology == t && ips@[k].id
                        == ip_ids[k],
                finder.wf(),
                second.len() <= ranges@.len() + children@.len(),
                finder.reservations() == second + address_chunks(t, ip_ids.take(i as int)),
                address_chunks(t, ip_ids.take(i as int)).len() <= i,
            decreases ips.len() - i,
        {
            proof {
                assert(ip_ids.take(i as int + 1).drop_last() =~= ip_ids.take(i as int));
                assert(ip_ids.take(i as int + 1).last() == ips@[i as int].id);
            }
            let ghost before = address_chunks(t, ip_ids.take(i as int));
            match ips[i].addr() {
                Some(IpAddr::V4(x)) => {
                    finder.reserve_ipv4(x);
                    proof {
                        assert((second + before).push(chunk_of(x, x)) =~= second + before.push(
                            chunk_of(x, x),
                        ));
                    }
                },
                _ => {},
            }
            i += 1;
        }
        proof {
            assert(ip_ids.take(ips@.len() as int) =~= ip_ids);
        }
        let gaps = finder.find_gaps_ipv4(net);
        let ghost ends = range_positions(gaps@);
        let mut out: Vec<AddressRange> = Vec::new();
        let mut i: usize = 0;
        while i < gaps.len()
            invariant
                i <= gaps.len(),
                ends == range_positions(gaps@),
                out@ == ranges_of(ends).take(i as int),
            decreases gaps.len() - i,
        {
            out.push(AddressRange { start: gaps[i].start, end: gaps[i].end });
            proof {
                assert(ends[i as int] == (gaps@[i as int].start.0 as int, gaps@[i as int].end.0 as int));
                assert(ranges_of(ends).take(i as int).push(ranges_of(ends)[i as int]) =~= ranges_of(
                    ends,
                ).take(i as int + 1));
            }
            i += 1;
        }
        proof {
            assert(ranges_of(ends).take(gaps@.len() as int) =~= ranges_of(ends));
        }
        Ok(out)
    }

    /// Sets up a DHCP server that hands out `ranges`, where there are any.
    fn setup_dhcp_server(
        &mut self,
        ranges: Vec<AddressRange>,
        ip: Ipv4Addr,
        net: Ipv4Net,
        idx: usize,
        if_name: &String,
    )
        ensures
            final(self)@ == with_dhcp_server(old(self)@, ranges@, ip, net, idx as nat, if_name@),
    {
        if ranges.len() == 0 {
            return ;
        }
        let mut name = String::from_str("dhcp-");
        name.append(if_name.as_str());
        if idx != 0 {
            push_char(&mut name, '-');
            append_decimal(&mut name, idx as u64);
        }
        proof {
            assert(name@ =~= server_name(if_name@, idx as nat));
        }
        let at = ensure(
            &mut self.dhcp_v_4_server,
            DhcpServer { name: name.clone(), interface: None, address_pool: None },
        );
        proof {
            lemma_position::<DhcpServer>(
                ensured::<DhcpServer>(
                    entry_views(old(self).dhcp_v_4_server@),
                    DhcpServerView { name: name@, interface: None, address_pool: None },
                ),
                name@,
            );
        }
        put(
            &mut self.dhcp_v_4_server,
            at,
            DhcpServer {
                name: name.clone(),
                interface: Some(if_name.clone()),
                address_pool: Some(name.clone()),
            },
        );
        let at = ensure(
            &mut self.dhcp_v_4_server_network,
            DhcpServerNetwork { address: net, gateway: Vec::new(), dns_server: Vec::new() },
        );
        proof {
            let e = ensured::<DhcpServerNetwork>(
                entry_views(old(self).dhcp_v_4_server_network@),
                DhcpServerNetworkView {
                    address: net,
                    gateway: Seq::empty(),
                    dns_server: Seq::empty(),
                },
            );
            lemma_position::<DhcpServerNetwork>(e, net);
            assert(e[at as int] == self.dhcp_v_4_server_network@[at as int]@);
        }
        let gateway = copy_with_addr(&self.dhcp_v_4_server_network[at].gateway, ip);
        let dns_server = copy_with_addr(&self.dhcp_v_4_server_network[at].dns_server, ip);
        put(
            &mut self.dhcp_v_4_server_network,
            at,
            DhcpServerNetwork { address: net, gateway, dns_server },
        );
        let at = ensure(&mut self.ipv_4_pool, Ipv4Pool { name: name.clone(), ranges: Vec::new() });
        proof {
            lemma_position::<Ipv4Pool>(
                ensured::<Ipv4Pool>(
                    entry_views(old(self).ipv_4_pool@),
                    Ipv4PoolView { name: name@, ranges: Seq::empty() },
                ),
                name@,
            );
        }
        put(&mut self.ipv_4_pool, at, Ipv4Pool { name, ranges });
    }

    /// Gives the interface that stands for each plane its addresses, its
    /// DHCP client or its DHCP servers.
    pub fn setup_ip_addresses<'a>(self, topology: &'a Topology, mapped_planes: &Vec<Mapped<'a>>) -> (r:
        Result<Self, SetupError>)
        requires
            mapped_on(mapped_planes@, topology),
        ensures
            match with_addresses(self@, topology, mapped_views(mapped_planes@)) {
                Ok(target) => r matches Ok(t) && t@ == target,
                Err(e) => r matches Err(f) && f@ == e,
            },
    {
        let ghost all = mapped_views(mapped_planes@);
        let mut t = self;
        let mut m: usize = 0;
        proof {
            assert(all.take(0) =~= Seq::<(InterfaceId, MappedPlaneView)>::empty());
        }
        while m < mapped_planes.len()
            invariant
                m <= mapped_planes.len(),
                all == mapped_views(mapped_planes@),
                mapped_on(mapped_planes@, topology),
                with_addresses(self@, topology, all.take(m as int)) == Ok::<
                    TargetView,
                    SetupErrorView,
                >(t@),
            decreases mapped_planes.len() - m,
        {
            let if_access = &mapped_planes[m].interface;
            let plane = &mapped_planes[m].plane;
            let ghost start = t@;
            proof {
                assert(all.take(m as int + 1).drop_last() =~= all.take(m as int));
                assert(all.take(m as int + 1).last() == (if_access.id, plane@));
                assert(mapped_planes@[m as int].interface.topology == topology);
                assert(*if_access == InterfaceAccess { topology, id: if_access.id });
            }
            let ips = if_access.ips();
            if ips.len() == 0 {
                if if_access.enable_dhcp_client() {
                    let if_name = t.if_of_mapped_plane(plane);
                    t.enable_dhcp_client(if_name);
                }
            } else {
                let if_name = t.if_of_mapped_plane(plane);
                let dhcp_server = if_access.enable_dhcp_server();
                let ghost ids = topology.spec_interface(if_access.id)->0.ips@;
                let ghost named = t@;
                let mut ip_idx: usize = 0;
                while ip_idx < ips.len()
                    invariant
                        ip_idx <= ips.len(),
                        0 <= m < mapped_planes.len(),
                        all == mapped_views(mapped_planes@),
                        ips@.len() == ids.len(),
                        ids.len() > 0,
                        forall|k: int|
                            0 <= k < ips@.len() ==> (#[trigger] ips@[k]).topology == topology
                                && ips@[k].id == ids[k],
                        if_name@ == mapped_name(plane@),
                        with_ips(named, topology, ids, ip_idx as int, if_name@, dhcp_server) == Ok::<
                            TargetView,
                            SetupErrorView,
                        >(t@),
                        with_addresses(self@, topology, all.take(m as int)) == Ok::<
                            TargetView,
                            SetupErrorView,
                        >(start),
                        with_plane_addresses(start, topology, all[m as int].0, all[m as int].1)
                            == with_ips(
                            named,
                            topology,
                            ids,
                            ids.len() as int,
                            if_name@,
                            dhcp_server,
                        ),
                    decreases ips.len() - ip_idx,
                {
                    let ip_address = &ips[ip_idx];
                    let ghost before = t@;
                    proof {
                        assert(all.take(m as int + 1).drop_last() =~= all.take(m as int));
                        assert(all.take(m as int + 1).last() == all[m as int]);
                    }
                    match ip_address.net() {
                        Some(ip) => {
                            t.set_ip_address(ip, if_name.as_str());
                            if dhcp_server {
                                let prefix = match ip_address.prefix() {
                                    Some(prefix) => prefix,
                                    None => {
                                        proof {
                                            lemma_with_ips_err(
                                                named,
                                                topology,
                                                ids,
                                                ip_idx as int + 1,
                                                if_name@,
                                                dhcp_server,
                                            );
                                            lemma_with_addresses_err(
                                                self@,
                                                topology,
                                                all,
                                                m as int + 1,
                                            );
                                        }
                                        return Err(SetupError::MissingPrefixOnIpAddress { ip });
                                    },
                                };
                                let prefix_net = match prefix.prefix() {
                                    Some(n) => n,
                                    None => {
                                        proof {
                                            lemma_with_ips_err(
                                                named,
                                                topology,
                                                ids,
                                                ip_idx as int + 1,
                                                if_name@,
                                                dhcp_server,
                                            );
                                            lemma_with_addresses_err(
                                                self@,
                                                topology,
                                                all,
                                                m as int + 1,
                                            );
                                        }
                                        return Err(
                                            SetupError::MissingAddressOnPrefix { prefix: prefix.id() },
                                        );
                                    },
                                };
                                match (ip, prefix_net) {
                                    (IpNet::V4(ip4), IpNet::V4(net)) => {
                                        match Self::find_dhcp_ranges(&prefix, net) {
                                            Ok(ranges) => {
                                                t.setup_dhcp_server(
                                                    ranges,
                                                    ip4.addr(),
                                                    net,
                                                    ip_idx,
                                                    &if_name,
                                                );
                                            },
                                            Err(e) => {
                                                proof {
                                                    lemma_with_ips_err(
                                                        named,
                                                        topology,
                                                        ids,
                                                        ip_idx as int + 1,
                                                        if_name@,
                                                        dhcp_server,
                                                    );
                                                    lemma_with_addresses_err(
                                                        self@,
                                                        topology,
                                                        all,
                                                        m as int + 1,
                                                    );
                                                }
                                                return Err(e);
                                            },
                                        }
                                    },
                                    _ => {},
                                }
                            }
                        },
                        None => {},
                    }
                    ip_idx += 1;
                }
            }
            m += 1;
        }
        proof {
            assert(all.take(mapped_planes@.len() as int) =~= all);
        }
        Ok(t)
    }
}

} // verus!
