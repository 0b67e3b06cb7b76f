//! A synthesis reads what a snapshot holds and nothing of how the snapshot
//! keeps it: snapshots with the same contents give the same planes and the
//! same target configuration.

use crate::access::InterfaceAccess;
use crate::addressing::address_chunks;
use crate::addressing::child_chunks;
use crate::addressing::dhcp_ranges;
use crate::addressing::explicit_ranges;
use crate::addressing::range_chunks;
use crate::addressing::with_addresses;
use crate::addressing::with_ip;
use crate::addressing::with_ips;
use crate::addressing::with_plane_addresses;
use crate::bridging::bridge_named;
use crate::bridging::with_l2;
use crate::cable::Segment;
use crate::fetch_prefixes::built;
use crate::inventory::FetchTopology;
use crate::ip::IpAddr;
use crate::ip::IpNet;
use crate::ip::Ipv4Net;
use crate::l2::L2Setup;
use crate::l2::NameGenerator;
use crate::l2::PlaneGroup;
use crate::l2::all_entries;
use crate::l2::entries_of;
use crate::l2::grouped;
use crate::l2::inventory_tag;
use crate::l2::inventory_tags;
use crate::l2::needs_name;
use crate::l2::planes_of;
use crate::model::Bridge;
use crate::model::BridgeView;
use crate::model::EthernetPortView;
use crate::model::MappedPlaneView;
use crate::model::ProtocolMode;
use crate::naming::EndpointNameGenerator;
use crate::routing::ospf_ports;
use crate::routing::with_ospf;
use crate::snapshot::table_view;
use crate::synth::device_name;
use crate::synth::device_planes;
use crate::synth::generated;
use crate::synth::loopback_of;
use crate::synth::with_poe;
use crate::table::amended;
use crate::target::TargetView;
use crate::target::mapped_name;
use crate::target::with_loopback;
use crate::target::with_mapped_plane;
use crate::topology::CableId;
use crate::topology::CablePort;
use crate::topology::DeviceId;
use crate::topology::FrontPortId;
use crate::topology::InterfaceId;
use crate::topology::IpAddressId;
use crate::topology::IpPrefixData;
use crate::topology::IpPrefixId;
use crate::topology::IpRangeId;
use crate::topology::RearPortId;
use crate::topology::Topology;
use crate::topology::VlanId;
use crate::topology::VxlanId;
use crate::topology::WlanGroupId;
use crate::topology::WlanId;
use crate::wireless::caps_bridge_name;
use crate::wireless::device_addresses;
use crate::wireless::group_vlans;
use crate::wireless::interface_devices;
use crate::wireless::router_address_of;
use crate::wireless::spec_vteps;
use crate::wireless::vlan_devices;
use crate::wireless::vlan_vxlans;
use crate::wireless::vtep_devices;
use crate::wireless::with_vxlans;
use crate::wireless::with_wlan_ap;
use crate::wireless::wlan_devices;
use crate::wireless::wlan_vlans;
use vstd::prelude::*;

verus! {

/// Whether two snapshots hold the same: the same entities under the same
/// ids, each with the same names, lists and settings.
pub open spec fn same_contents(a: &Topology, b: &Topology) -> bool {
    a@ == b@
}

proof fn lemma_same_table<T: View>(m: Map<u32, T>, n: Map<u32, T>)
    requires
        table_view(m) == table_view(n),
    ensures
        forall|k: u32| #[trigger] m.contains_key(k) == n.contains_key(k),
        forall|k: u32| m.contains_key(k) ==> (#[trigger] m[k])@ == n[k]@,
{
    assert forall|k: u32| #[trigger] m.contains_key(k) == n.contains_key(k) by {
        assert(table_view(m).contains_key(k) == m.contains_key(k));
        assert(table_view(n).contains_key(k) == n.contains_key(k));
    }
    assert forall|k: u32| m.contains_key(k) implies (#[trigger] m[k])@ == n[k]@ by {
        assert(table_view(m).contains_key(k));
        assert(table_view(m)[k] == m[k]@);
        assert(table_view(n)[k] == n[k]@);
    }
}

/// Snapshots with the same contents hold the same under every id.
pub proof fn lemma_same_entities(a: &Topology, b: &Topology)
    requires
        same_contents(a, b),
    ensures
        forall|id: DeviceId|
            match #[trigger] a.spec_device(id) {
                Some(x) => b.spec_device(id) matches Some(y) && x@ == y@,
                None => b.spec_device(id) is None,
            },
        forall|id: InterfaceId|
            match #[trigger] a.spec_interface(id) {
                Some(x) => b.spec_interface(id) matches Some(y) && x@ == y@,
                None => b.spec_interface(id) is None,
            },
        forall|id: FrontPortId|
            match #[trigger] a.spec_front_port(id) {
                Some(x) => b.spec_front_port(id) matches Some(y) && x@ == y@,
                None => b.spec_front_port(id) is None,
            },
        forall|id: RearPortId|
            match #[trigger] a.spec_rear_port(id) {
                Some(x) => b.spec_rear_port(id) matches Some(y) && x@ == y@,
                None => b.spec_rear_port(id) is None,
            },
        forall|id: CableId|
            match #[trigger] a.spec_cable(id) {
                Some(x) => b.spec_cable(id) matches Some(y) && x@ == y@,
                None => b.spec_cable(id) is None,
            },
        forall|id: VlanId|
            match #[trigger] a.spec_vlan(id) {
                Some(x) => b.spec_vlan(id) matches Some(y) && x@ == y@,
                None => b.spec_vlan(id) is None,
            },
        forall|id: VxlanId|
            match #[trigger] a.spec_vxlan(id) {
                Some(x) => b.spec_vxlan(id) matches Some(y) && x@ == y@,
                None => b.spec_vxlan(id) is None,
            },
        forall|id: WlanId|
            match #[trigger] a.spec_wlan(id) {
                Some(x) => b.spec_wlan(id) matches Some(y) && x@ == y@,
                None => b.spec_wlan(id) is None,
            },
        forall|id: WlanGroupId|
            match #[trigger] a.spec_wlan_group(id) {
                Some(x) => b.spec_wlan_group(id) matches Some(y) && x@ == y@,
                None => b.spec_wlan_group(id) is None,
            },
        forall|id: IpPrefixId|
            match #[trigger] a.spec_ip_prefix(id) {
                Some(x) => b.spec_ip_prefix(id) matches Some(y) && x@ == y@,
                None => b.spec_ip_prefix(id) is None,
            },
        forall|id: IpAddressId| #[trigger] a.spec_ip_address(id) == b.spec_ip_address(id),
        forall|id: IpRangeId| #[trigger] a.spec_ip_range(id) == b.spec_ip_range(id),
{
    lemma_same_table(a.devices@, b.devices@);
    lemma_same_table(a.interfaces@, b.interfaces@);
    lemma_same_table(a.front_ports@, b.front_ports@);
    lemma_same_table(a.rear_ports@, b.rear_ports@);
    lemma_same_table(a.cables@, b.cables@);
    lemma_same_table(a.vlans@, b.vlans@);
    lemma_same_table(a.vxlans@, b.vxlans@);
    lemma_same_table(a.wlans@, b.wlans@);
    lemma_same_table(a.wlan_groups@, b.wlan_groups@);
    lemma_same_table(a.ip_prefixes@, b.ip_prefixes@);
}

/// The cables at a port are the same.
proof fn lemma_same_segments(a: &Topology, b: &Topology, port: CablePort)
    requires
        same_contents(a, b),
    ensures
        a.spec_cable_of(port) == b.spec_cable_of(port),
        a.spec_segments(port) == b.spec_segments(port),
        a.spec_next_port(port) == b.spec_next_port(port),
{
    lemma_same_entities(a, b);
}

proof fn lemma_same_paths_at(
    a: &Topology,
    b: &Topology,
    start: CablePort,
    port: CablePort,
    chain: Seq<Segment>,
    on_path: Seq<CablePort>,
)
    requires
        same_contents(a, b),
    ensures
        a.paths_at(start, port, chain, on_path) == b.paths_at(start, port, chain, on_path),
    decreases usize::MAX - on_path.len(), 0nat,
{
    lemma_same_segments(a, b, port);
    let segments = a.spec_segments(port);
    if segments.len() == 0 {
    } else if on_path.contains(port) || on_path.len() >= usize::MAX {
    } else {
        lemma_same_paths_over(a, b, start, segments, chain, on_path.push(port));
    }
}

proof fn lemma_same_paths_over(
    a: &Topology,
    b: &Topology,
    start: CablePort,
    segments: Seq<Segment>,
    chain: Seq<Segment>,
    on_path: Seq<CablePort>,
)
    requires
        same_contents(a, b),
    ensures
        a.paths_over(start, segments, chain, on_path) == b.paths_over(
            start,
            segments,
            chain,
            on_path,
        ),
    decreases usize::MAX - on_path.len(), 1 + segments.len(),
{
    if segments.len() > 0 {
        let first = segments[0];
        lemma_same_segments(a, b, first.far);
        match a.spec_next_port(first.far) {
            Some(next) => {
                lemma_same_paths_at(a, b, start, next, chain.push(first), on_path);
            },
            None => {},
        }
        lemma_same_paths_over(a, b, start, segments.skip(1), chain, on_path);
    }
}

/// The walks from a port are the same.
pub proof fn lemma_same_cable_paths(a: &Topology, b: &Topology, start: CablePort)
    requires
        same_contents(a, b),
    ensures
        a.spec_cable_paths(start) == b.spec_cable_paths(start),
{
    lemma_same_paths_at(a, b, start, start, Seq::empty(), Seq::empty());
}

/// The name that an interface has from what it is cabled to is the same.
proof fn lemma_same_name(a: &Topology, b: &Topology, id: InterfaceId)
    requires
        same_contents(a, b),
    ensures
        EndpointNameGenerator.spec_name(InterfaceAccess { topology: a, id })
            == EndpointNameGenerator.spec_name(InterfaceAccess { topology: b, id }),
        L2Setup::names_of(a, EndpointNameGenerator)(id) == L2Setup::names_of(
            b,
            EndpointNameGenerator,
        )(id),
{
    lemma_same_entities(a, b);
    lemma_same_cable_paths(a, b, CablePort::Interface(id));
}

/// The ports that an interface has in the planes are the same.
proof fn lemma_same_entries(
    a: &Topology,
    b: &Topology,
    interfaces: Seq<InterfaceId>,
    names: spec_fn(InterfaceId) -> Option<Seq<char>>,
    others: spec_fn(InterfaceId) -> Option<Seq<char>>,
)
    requires
        same_contents(a, b),
        forall|id: InterfaceId| #[trigger] names(id) == others(id),
    ensures
        all_entries(a, interfaces, names) == all_entries(b, interfaces, others),
    decreases interfaces.len(),
{
    lemma_same_entities(a, b);
    if interfaces.len() > 0 {
        let id = interfaces.last();
        lemma_same_entries(a, b, interfaces.drop_last(), names, others);
        assert(needs_name(a, id) == needs_name(b, id));
        assert(names(id) == others(id));
        match names(id) {
            Some(name) => {
                assert(entries_of(a, id, name) =~= entries_of(b, id, name));
            },
            None => {},
        }
    }
}

proof fn lemma_same_planes_of(a: &Topology, b: &Topology, groups: Seq<PlaneGroup>, used: Set<u16>)
    requires
        same_contents(a, b),
    ensures
        planes_of(a, groups, used) == planes_of(b, groups, used),
    decreases groups.len(),
{
    lemma_same_entities(a, b);
    if groups.len() > 0 {
        let g = groups[0];
        assert(inventory_tag(a, g.vlan) == inventory_tag(b, g.vlan));
        lemma_same_planes_of(a, b, groups.skip(1), used);
        match crate::l2::next_free(used, crate::l2::FIRST_SYNTHETIC_TAG as int) {
            Some(tag) => {
                lemma_same_planes_of(a, b, groups.skip(1), used.insert(tag));
            },
            None => {},
        }
    }
}

/// The planes of a device are the same.
pub proof fn lemma_same_planes(a: &Topology, b: &Topology, device: DeviceId)
    requires
        same_contents(a, b),
    ensures
        device_planes(a, device) == device_planes(b, device),
{
    lemma_same_entities(a, b);
    let names = L2Setup::names_of(a, EndpointNameGenerator);
    let others = L2Setup::names_of(b, EndpointNameGenerator);
    assert forall|id: InterfaceId| #[trigger] names(id) == others(id) by {
        lemma_same_name(a, b, id);
    }
    let interfaces = a.spec_interfaces_of(device);
    assert(interfaces == b.spec_interfaces_of(device));
    lemma_same_entries(a, b, interfaces, names, others);
    match all_entries(a, interfaces, names) {
        Some(entries) => {
            let groups = grouped(entries);
            assert(inventory_tags(a, groups) =~= inventory_tags(b, groups));
            lemma_same_planes_of(a, b, groups, inventory_tags(a, groups));
        },
        None => {},
    }
}

proof fn lemma_same_poe(
    ethernet: Seq<EthernetPortView>,
    a: &Topology,
    b: &Topology,
    interfaces: Seq<InterfaceId>,
    n: int,
)
    requires
        same_contents(a, b),
    ensures
        with_poe(ethernet, a, interfaces, n) == with_poe(ethernet, b, interfaces, n),
    decreases n,
{
    lemma_same_entities(a, b);
    if n > 0 {
        lemma_same_poe(ethernet, a, b, interfaces, n - 1);
    }
}

proof fn lemma_same_explicit_ranges(a: &Topology, b: &Topology, ids: Seq<IpRangeId>)
    requires
        same_contents(a, b),
    ensures
        explicit_ranges(a, ids) == explicit_ranges(b, ids),
        range_chunks(a, ids) == range_chunks(b, ids),
    decreases ids.len(),
{
    lemma_same_entities(a, b);
    if ids.len() > 0 {
        lemma_same_explicit_ranges(a, b, ids.drop_last());
    }
}

proof fn lemma_same_child_chunks(a: &Topology, b: &Topology, ids: Seq<IpPrefixId>)
    requires
        same_contents(a, b),
    ensures
        child_chunks(a, ids) == child_chunks(b, ids),
    decreases ids.len(),
{
    lemma_same_entities(a, b);
    if ids.len() > 0 {
        lemma_same_child_chunks(a, b, ids.drop_last());
    }
}

proof fn lemma_same_address_chunks(a: &Topology, b: &Topology, ids: Seq<IpAddressId>)
    requires
        same_contents(a, b),
    ensures
        address_chunks(a, ids) == address_chunks(b, ids),
    decreases ids.len(),
{
    lemma_same_entities(a, b);
    if ids.len() > 0 {
        lemma_same_address_chunks(a, b, ids.drop_last());
    }
}

proof fn lemma_same_dhcp_ranges(
    a: &Topology,
    b: &Topology,
    p: IpPrefixData,
    q: IpPrefixData,
    net: Ipv4Net,
)
    requires
        same_contents(a, b),
        p@ == q@,
    ensures
        dhcp_ranges(a, p, net) == dhcp_ranges(b, q, net),
{
    lemma_same_explicit_ranges(a, b, p.ranges@);
    lemma_same_child_chunks(a, b, p.children@);
    lemma_same_address_chunks(a, b, p.addresses@);
}

proof fn lemma_same_ip(
    t: TargetView,
    a: &Topology,
    b: &Topology,
    id: IpAddressId,
    idx: nat,
    if_name: Seq<char>,
    dhcp_server: bool,
)
    requires
        same_contents(a, b),
    ensures
        with_ip(t, a, id, idx, if_name, dhcp_server) == with_ip(t, b, id, idx, if_name, dhcp_server),
{
    lemma_same_entities(a, b);
    match a.spec_ip_address(id) {
        Some(x) => match x.prefix {
            Some(pid) => match (a.spec_ip_prefix(pid), b.spec_ip_prefix(pid)) {
                (Some(p), Some(q)) => match (x.ip, p.prefix) {
                    (IpNet::V4(_), IpNet::V4(net)) => {
                        lemma_same_dhcp_ranges(a, b, p, q, net);
                    },
                    _ => {},
                },
                _ => {},
            },
            None => {},
        },
        None => {},
    }
}

proof fn lemma_same_ips(
    t: TargetView,
    a: &Topology,
    b: &Topology,
    ids: Seq<IpAddressId>,
    n: int,
    if_name: Seq<char>,
    dhcp_server: bool,
)
    requires
        same_contents(a, b),
    ensures
        with_ips(t, a, ids, n, if_name, dhcp_server) == with_ips(t, b, ids, n, if_name, dhcp_server),
    decreases n,
{
    if n > 0 {
        lemma_same_ips(t, a, b, ids, n - 1, if_name, dhcp_server);
        match with_ips(t, a, ids, n - 1, if_name, dhcp_server) {
            Ok(before) => {
                lemma_same_ip(before, a, b, ids[n - 1], (n - 1) as nat, if_name, dhcp_server);
            },
            Err(_) => {},
        }
    }
}

proof fn lemma_same_plane_addresses(
    t: TargetView,
    a: &Topology,
    b: &Topology,
    interface: InterfaceId,
    plane: MappedPlaneView,
)
    requires
        same_contents(a, b),
    ensures
        with_plane_addresses(t, a, interface, plane) == with_plane_addresses(
            t,
            b,
            interface,
            plane,
        ),
{
    lemma_same_entities(a, b);
    match a.spec_interface(interface) {
        Some(d) => {
            lemma_same_ips(
                with_mapped_plane(t, plane),
                a,
                b,
                d.ips@,
                d.ips@.len() as int,
                mapped_name(plane),
                d.enable_dhcp_server,
            );
        },
        None => {},
    }
}

/// The addressing of the planes is the same.
proof fn lemma_same_addresses(
    t: TargetView,
    a: &Topology,
    b: &Topology,
    mapped: Seq<(InterfaceId, MappedPlaneView)>,
)
    requires
        same_contents(a, b),
    ensures
        with_addresses(t, a, mapped) == with_addresses(t, b, mapped),
    decreases mapped.len(),
{
    if mapped.len() > 0 {
        lemma_same_addresses(t, a, b, mapped.drop_last());
        match with_addresses(t, a, mapped.drop_last()) {
            Ok(before) => {
                lemma_same_plane_addresses(before, a, b, mapped.last().0, mapped.last().1);
            },
            Err(_) => {},
        }
    }
}

proof fn lemma_same_ospf_ports(
    t: TargetView,
    a: &Topology,
    b: &Topology,
    mapped: Seq<(InterfaceId, MappedPlaneView)>,
    n: int,
)
    requires
        same_contents(a, b),
    ensures
        ospf_ports(t, a, mapped, n) == ospf_ports(t, b, mapped, n),
    decreases n,
{
    lemma_same_entities(a, b);
    if n > 0 {
        lemma_same_ospf_ports(t, a, b, mapped, n - 1);
    }
}

/// The routing is the same.
proof fn lemma_same_ospf(
    t: TargetView,
    a: &Topology,
    b: &Topology,
    device: DeviceId,
    mapped: Seq<(InterfaceId, MappedPlaneView)>,
)
    requires
        same_contents(a, b),
    ensures
        with_ospf(t, a, device, mapped) == with_ospf(t, b, device, mapped),
{
    lemma_same_entities(a, b);
    lemma_same_ospf_ports(t, a, b, mapped, mapped.len() as int);
}

proof fn lemma_same_interface_devices(a: &Topology, b: &Topology, ids: Seq<InterfaceId>)
    requires
        same_contents(a, b),
    ensures
        interface_devices(a, ids) == interface_devices(b, ids),
    decreases ids.len(),
{
    lemma_same_entities(a, b);
    if ids.len() > 0 {
        lemma_same_interface_devices(a, b, ids.drop_last());
    }
}

proof fn lemma_same_wlan_devices(a: &Topology, b: &Topology, ids: Seq<WlanId>)
    requires
        same_contents(a, b),
    ensures
        wlan_devices(a, ids) == wlan_devices(b, ids),
    decreases ids.len(),
{
    lemma_same_entities(a, b);
    if ids.len() > 0 {
        lemma_same_wlan_devices(a, b, ids.drop_last());
    }
}

proof fn lemma_same_vlan_devices(a: &Topology, b: &Topology, ids: Seq<VlanId>)
    requires
        same_contents(a, b),
    ensures
        vlan_devices(a, ids) == vlan_devices(b, ids),
    decreases ids.len(),
{
    lemma_same_entities(a, b);
    if ids.len() > 0 {
        lemma_same_vlan_devices(a, b, ids.drop_last());
        match a.spec_vlan(ids.last()) {
            Some(v) => {
                lemma_same_wlan_devices(a, b, v.wlans@);
            },
            None => {},
        }
    }
}

proof fn lemma_same_device_addresses(a: &Topology, b: &Topology, devices: Seq<DeviceId>)
    requires
        same_contents(a, b),
    ensures
        device_addresses(a, devices) == device_addresses(b, devices),
    decreases devices.len(),
{
    lemma_same_entities(a, b);
    if devices.len() > 0 {
        lemma_same_device_addresses(a, b, devices.drop_last());
    }
}

/// The far ends of a VXLAN are the same.
pub proof fn lemma_same_vteps(a: &Topology, b: &Topology, vxlan: VxlanId)
    requires
        same_contents(a, b),
    ensures
        spec_vteps(a, vxlan) == spec_vteps(b, vxlan),
{
    lemma_same_entities(a, b);
    match a.spec_vxlan(vxlan) {
        Some(d) => {
            lemma_same_interface_devices(a, b, d.interface_terminations@);
            lemma_same_vlan_devices(a, b, d.vlan_terminations@);
        },
        None => {},
    }
    lemma_same_device_addresses(a, b, vtep_devices(a, vxlan));
}

proof fn lemma_same_wlan_vlans(a: &Topology, b: &Topology, acc: Seq<VlanId>, wlans: Seq<WlanId>)
    requires
        same_contents(a, b),
    ensures
        wlan_vlans(a, acc, wlans) == wlan_vlans(b, acc, wlans),
    decreases wlans.len(),
{
    lemma_same_entities(a, b);
    if wlans.len() > 0 {
        lemma_same_wlan_vlans(a, b, acc, wlans.drop_last());
    }
}

proof fn lemma_same_vlan_vxlans(a: &Topology, b: &Topology, vlans: Seq<VlanId>)
    requires
        same_contents(a, b),
    ensures
        vlan_vxlans(a, vlans) == vlan_vxlans(b, vlans),
    decreases vlans.len(),
{
    lemma_same_entities(a, b);
    if vlans.len() > 0 {
        lemma_same_vlan_vxlans(a, b, vlans.drop_last());
    }
}

proof fn lemma_same_vxlans(
    t: TargetView,
    a: &Topology,
    b: &Topology,
    vxlans: Seq<VxlanId>,
    my_ip: IpAddr,
)
    requires
        same_contents(a, b),
    ensures
        with_vxlans(t, a, vxlans, my_ip) == with_vxlans(t, b, vxlans, my_ip),
    decreases vxlans.len(),
{
    lemma_same_entities(a, b);
    if vxlans.len() > 0 {
        lemma_same_vxlans(t, a, b, vxlans.drop_last(), my_ip);
        lemma_same_vteps(a, b, vxlans.last());
    }
}

/// The transport of the wireless networks is the same.
proof fn lemma_same_wlan_ap(t: TargetView, a: &Topology, b: &Topology, device: DeviceId)
    requires
        same_contents(a, b),
    ensures
        with_wlan_ap(t, a, device) == with_wlan_ap(t, b, device),
{
    lemma_same_entities(a, b);
    match a.spec_device(device) {
        Some(d) => match d.wlan_ap_of {
            Some(group) => {
                match a.spec_wlan_group(group) {
                    Some(g) => {
                        lemma_same_wlan_vlans(
                            a,
                            b,
                            match g.mgmt_vlan {
                                Some(v) => seq![v],
                                None => Seq::empty(),
                            },
                            g.wlans@,
                        );
                    },
                    None => {},
                }
                let vlans = group_vlans(a, group);
                lemma_same_vlan_vxlans(a, b, vlans);
                let bridged = TargetView {
                    bridge: amended::<Bridge>(
                        t.bridge,
                        bridge_named(caps_bridge_name()),
                        |b: BridgeView|
                            BridgeView {
                                vlan_filtering: Some(true),
                                protocol_mode: Some(ProtocolMode::Mstp),
                                ..b
                            },
                    ),
                    ..t
                };
                match router_address_of(a, device) {
                    Some(my_ip) => {
                        lemma_same_vxlans(bridged, a, b, vlan_vxlans(a, vlans), my_ip);
                    },
                    None => {},
                }
            },
            None => {},
        },
        None => {},
    }
}

/// The target configuration of a device depends on the contents of the
/// snapshot alone: set up on the same configuration, from snapshots that
/// hold the same, the same configuration or the same error comes out.
pub proof fn lemma_generated_from_contents(
    t: TargetView,
    a: &Topology,
    b: &Topology,
    device: DeviceId,
)
    requires
        same_contents(a, b),
    ensures
        generated(t, a, device) == generated(t, b, device),
{
    lemma_same_entities(a, b);
    lemma_same_planes(a, b, device);
    let named = TargetView { identity: device_name(a, device), ..t };
    let looped = match loopback_of(a, device) {
        Some(x) => with_loopback(named, x.spec_host()),
        None => named,
    };
    match device_planes(a, device) {
        Ok(planes) => match with_l2(looped, planes) {
            Ok((wired, mapped)) => {
                let interfaces = a.spec_interfaces_of(device);
                lemma_same_poe(wired.ethernet, a, b, interfaces, interfaces.len() as int);
                match with_poe(wired.ethernet, a, interfaces, interfaces.len() as int) {
                    Ok(ethernet) => {
                        let powered = TargetView { ethernet, ..wired };
                        lemma_same_addresses(powered, a, b, mapped);
                        match with_addresses(powered, a, mapped) {
                            Ok(addressed) => {
                                lemma_same_ospf(addressed, a, b, device, mapped);
                                lemma_same_wlan_ap(
                                    with_ospf(addressed, a, device, mapped),
                                    a,
                                    b,
                                    device,
                                );
                            },
                            Err(_) => {},
                        }
                    },
                    Err(_) => {},
                }
            },
            Err(_) => {},
        },
        Err(_) => {},
    }
}

/// Two snapshots that were built from the same records of the inventory
/// give the same target configuration, or the same error.
pub proof fn lemma_generated_from_records(
    t: TargetView,
    data: FetchTopology,
    a: &Topology,
    b: &Topology,
    device: DeviceId,
)
    requires
        a@ == built(data),
        b@ == built(data),
    ensures
        generated(t, a, device) == generated(t, b, device),
{
    lemma_generated_from_contents(t, a, b, device);
}

} // verus!
