//! What holds of every snapshot that was built from records.

use crate::access::interface_ids;
use crate::fetch::BuildingView;
use crate::fetch::nothing_built;
use crate::fetch::with_wlan_groups;
use crate::fetch::with_wlans;
use crate::fetch_devices::DeviceScan;
use crate::fetch_devices::PortScan;
use crate::fetch_devices::with_device;
use crate::fetch_devices::with_devices;
use crate::fetch_devices::with_front_ports;
use crate::fetch_devices::with_interfaces;
use crate::fetch_devices::with_port;
use crate::fetch_devices::with_rear_ports;
use crate::fetch_links::VlanScan;
use crate::fetch_links::attached_all;
use crate::fetch_links::cable_ports;
use crate::fetch_links::with_cables;
use crate::fetch_links::with_l2vpns;
use crate::fetch_links::with_vlan_groups;
use crate::fetch_links::with_vlans;
use crate::fetch_prefixes::built;
use crate::fetch_prefixes::with_addresses;
use crate::fetch_prefixes::with_parents;
use crate::fetch_prefixes::with_prefixes;
use crate::fetch_prefixes::with_ranges;
use crate::inventory::CableRecord;
use crate::inventory::DeviceRecord;
use crate::inventory::FetchTopology;
use crate::inventory::FrontPortRecord;
use crate::inventory::InterfaceRecord;
use crate::inventory::IpAddressRecord;
use crate::inventory::IpRangeRecord;
use crate::inventory::L2vpnRecord;
use crate::inventory::PrefixRecord;
use crate::inventory::RearPortRecord;
use crate::inventory::TenantRecord;
use crate::inventory::VlanGroupRecord;
use crate::inventory::VlanRecord;
use crate::inventory::WirelessLanGroupRecord;
use crate::inventory::WirelessLanRecord;
use crate::snapshot::TopologyView;
use crate::topology::CablePort;
use crate::topology::DeviceId;
use crate::topology::InterfaceId;
use crate::topology::Topology;
use vstd::prelude::*;

verus! {

/// Whether no device of the snapshot lists a port twice.
pub open spec fn ports_once(t: TopologyView) -> bool {
    forall|id: u32| t.devices.contains_key(id) ==> (#[trigger] t.devices[id]).ports.no_duplicates()
}

impl Topology {
    /// Whether no device of the snapshot lists a port twice.
    pub open spec fn lists_ports_once(&self) -> bool {
        forall|id: DeviceId|
            (#[trigger] self.spec_device(id)) matches Some(d) ==> d.ports@.no_duplicates()
    }
}

proof fn lemma_with_port(ports: Seq<CablePort>, p: CablePort)
    requires
        ports.no_duplicates(),
    ensures
        with_port(ports, p).no_duplicates(),
{
}

proof fn lemma_wlans_keep(b: BuildingView, group: u32, ws: Seq<WirelessLanRecord>)
    ensures
        with_wlans(b, group, ws).topology.devices == b.topology.devices,
    decreases ws.len(),
{
    if ws.len() > 0 {
        lemma_wlans_keep(b, group, ws.drop_last());
    }
}

proof fn lemma_wlan_groups_keep(b: BuildingView, gs: Seq<WirelessLanGroupRecord>)
    ensures
        with_wlan_groups(b, gs).topology.devices == b.topology.devices,
    decreases gs.len(),
{
    if gs.len() > 0 {
        lemma_wlan_groups_keep(b, gs.drop_last());
        let before = with_wlan_groups(b, gs.drop_last());
        let g = gs.last();
        match (crate::parse::parse_u32(g.id@), g.custom_fields.controller) {
            (Some(gid), Some(controller)) => {
                lemma_wlans_keep(
                    BuildingView { controllers: before.controllers.insert(controller, gid), ..before },
                    gid,
                    g.wireless_lans@,
                );
            },
            _ => {},
        }
    }
}

proof fn lemma_interfaces_keep(s: DeviceScan, device: u32, rs: Seq<InterfaceRecord>)
    requires
        s.ports.no_duplicates(),
    ensures
        with_interfaces(s, device, rs).b.topology.devices == s.b.topology.devices,
        with_interfaces(s, device, rs).ports.no_duplicates(),
    decreases rs.len(),
{
    if rs.len() > 0 {
        lemma_interfaces_keep(s, device, rs.drop_last());
        let before = with_interfaces(s, device, rs.drop_last());
        match crate::parse::parse_u32(rs.last().id@) {
            Some(id) => {
                lemma_with_port(before.ports, CablePort::Interface(crate::topology::InterfaceId(id)));
            },
            None => {},
        }
    }
}

proof fn lemma_rear_ports_keep(s: PortScan, device: u32, rs: Seq<RearPortRecord>)
    requires
        s.ports.no_duplicates(),
    ensures
        with_rear_ports(s, device, rs).b.topology.devices == s.b.topology.devices,
        with_rear_ports(s, device, rs).ports.no_duplicates(),
    decreases rs.len(),
{
    if rs.len() > 0 {
        lemma_rear_ports_keep(s, device, rs.drop_last());
        let before = with_rear_ports(s, device, rs.drop_last());
        match crate::parse::parse_u32(rs.last().id@) {
            Some(id) => {
                lemma_with_port(before.ports, CablePort::RearPort(crate::topology::RearPortId(id)));
            },
            None => {},
        }
    }
}

proof fn lemma_front_ports_keep(s: PortScan, device: u32, rs: Seq<FrontPortRecord>)
    requires
        s.ports.no_duplicates(),
    ensures
        with_front_ports(s, device, rs).b.topology.devices == s.b.topology.devices,
        with_front_ports(s, device, rs).ports.no_duplicates(),
    decreases rs.len(),
{
    if rs.len() > 0 {
        lemma_front_ports_keep(s, device, rs.drop_last());
        let before = with_front_ports(s, device, rs.drop_last());
        match crate::parse::parse_u32(rs.last().id@) {
            Some(id) => {
                lemma_with_port(before.ports, CablePort::FrontPort(crate::topology::FrontPortId(id)));
            },
            None => {},
        }
    }
}

proof fn lemma_device_once(b: BuildingView, tenants: Seq<TenantRecord>, d: DeviceRecord)
    requires
        ports_once(b.topology),
    ensures
        ports_once(with_device(b, tenants, d).topology),
{
    match crate::parse::parse_u32(d.id@) {
        Some(id) => {
            let start = DeviceScan { b, ports: Seq::empty(), loopback: None };
            lemma_interfaces_keep(start, id, d.interfaces@);
            let interfaces = with_interfaces(start, id, d.interfaces@);
            let rear = PortScan { b: interfaces.b, ports: interfaces.ports };
            lemma_rear_ports_keep(rear, id, d.rearports@);
            lemma_front_ports_keep(with_rear_ports(rear, id, d.rearports@), id, d.frontports@);
        },
        None => {},
    }
}

proof fn lemma_devices_once(b: BuildingView, tenants: Seq<TenantRecord>, ds: Seq<DeviceRecord>)
    requires
        ports_once(b.topology),
    ensures
        ports_once(with_devices(b, tenants, ds).topology),
    decreases ds.len(),
{
    if ds.len() > 0 {
        lemma_devices_once(b, tenants, ds.drop_last());
        lemma_device_once(with_devices(b, tenants, ds.drop_last()), tenants, ds.last());
    }
}

proof fn lemma_l2vpns_keep(b: BuildingView, ls: Seq<L2vpnRecord>)
    ensures
        with_l2vpns(b, ls).topology.devices == b.topology.devices,
    decreases ls.len(),
{
    if ls.len() > 0 {
        lemma_l2vpns_keep(b, ls.drop_last());
    }
}

proof fn lemma_vlans_keep(s: VlanScan, group: u32, vs: Seq<VlanRecord>)
    ensures
        with_vlans(s, group, vs).b.topology.devices == s.b.topology.devices,
    decreases vs.len(),
{
    if vs.len() > 0 {
        lemma_vlans_keep(s, group, vs.drop_last());
    }
}

proof fn lemma_vlan_groups_keep(b: BuildingView, gs: Seq<VlanGroupRecord>)
    ensures
        with_vlan_groups(b, gs).topology.devices == b.topology.devices,
    decreases gs.len(),
{
    if gs.len() > 0 {
        lemma_vlan_groups_keep(b, gs.drop_last());
        let before = with_vlan_groups(b, gs.drop_last());
        match crate::parse::parse_u32(gs.last().id@) {
            Some(gid) => {
                lemma_vlans_keep(VlanScan { b: before, ids: Seq::empty() }, gid, gs.last().vlans@);
            },
            None => {},
        }
    }
}

proof fn lemma_attached_keep(t: TopologyView, ports: Seq<CablePort>, cable: u32)
    ensures
        attached_all(t, ports, cable).devices == t.devices,
    decreases ports.len(),
{
    if ports.len() > 0 {
        lemma_attached_keep(t, ports.drop_last(), cable);
    }
}

proof fn lemma_cables_keep(b: BuildingView, cs: Seq<CableRecord>)
    ensures
        with_cables(b, cs).topology.devices == b.topology.devices,
    decreases cs.len(),
{
    if cs.len() > 0 {
        lemma_cables_keep(b, cs.drop_last());
        let before = with_cables(b, cs.drop_last());
        let c = cs.last();
        match crate::parse::parse_u32(c.id@) {
            Some(id) => {
                let port_a = cable_ports(c.a_terminations@);
                let port_b = cable_ports(c.b_terminations@);
                lemma_attached_keep(before.topology, port_a, id);
                lemma_attached_keep(attached_all(before.topology, port_a, id), port_b, id);
            },
            None => {},
        }
    }
}

proof fn lemma_prefixes_keep(b: BuildingView, ps: Seq<PrefixRecord>)
    ensures
        with_prefixes(b, ps).topology.devices == b.topology.devices,
    decreases ps.len(),
{
    if ps.len() > 0 {
        lemma_prefixes_keep(b, ps.drop_last());
    }
}

proof fn lemma_ranges_keep(b: BuildingView, rs: Seq<IpRangeRecord>)
    ensures
        with_ranges(b, rs).topology.devices == b.topology.devices,
    decreases rs.len(),
{
    if rs.len() > 0 {
        lemma_ranges_keep(b, rs.drop_last());
    }
}

proof fn lemma_addresses_keep(b: BuildingView, rs: Seq<IpAddressRecord>)
    ensures
        with_addresses(b, rs).topology.devices == b.topology.devices,
    decreases rs.len(),
{
    if rs.len() > 0 {
        lemma_addresses_keep(b, rs.drop_last());
    }
}

/// In the snapshot that records of the inventory make, no device lists a
/// port twice, however often the records name it.
pub proof fn lemma_built_ports_once(data: FetchTopology)
    ensures
        ports_once(built(data)),
{
    let groups = with_wlan_groups(nothing_built(), data.wireless_lan_group_list@);
    lemma_wlan_groups_keep(nothing_built(), data.wireless_lan_group_list@);
    let devices = with_devices(groups, data.tenant_list@, data.device_list@);
    lemma_devices_once(groups, data.tenant_list@, data.device_list@);
    let l2vpns = with_l2vpns(devices, data.l2vpn_list@);
    lemma_l2vpns_keep(devices, data.l2vpn_list@);
    let vlans = with_vlan_groups(l2vpns, data.vlan_group_list@);
    lemma_vlan_groups_keep(l2vpns, data.vlan_group_list@);
    let cables = with_cables(vlans, data.cable_list@);
    lemma_cables_keep(vlans, data.cable_list@);
    let prefixes = with_prefixes(cables, data.prefix_list@);
    lemma_prefixes_keep(cables, data.prefix_list@);
    let parents = with_parents(prefixes);
    let ranges = with_ranges(parents, data.ip_range_list@);
    lemma_ranges_keep(parents, data.ip_range_list@);
    lemma_addresses_keep(ranges, data.ip_address_list@);
}

/// A snapshot whose contents list no port twice lists none twice.
pub proof fn lemma_lists_ports_once(t: &Topology)
    requires
        ports_once(t@),
    ensures
        t.lists_ports_once(),
{
    assert forall|id: DeviceId| (#[trigger] t.spec_device(id)) is Some implies t.spec_device(
        id,
    )->0.ports@.no_duplicates() by {
        if t.devices@.contains_key(id.0) {
            assert(t@.devices.contains_key(id.0));
            assert(t@.devices[id.0] == t.devices@[id.0]@);
        }
    }
}

proof fn lemma_interface_ids(ports: Seq<CablePort>)
    requires
        ports.no_duplicates(),
    ensures
        interface_ids(ports).no_duplicates(),
        forall|id: InterfaceId|
            #[trigger] interface_ids(ports).contains(id) <==> ports.contains(CablePort::Interface(id)),
    decreases ports.len(),
{
    if ports.len() > 0 {
        let before = ports.drop_last();
        let last = ports.last();
        let ids = interface_ids(before);
        let all = interface_ids(ports);
        lemma_interface_ids(before);
        assert(ports =~= before.push(last));
        assert forall|p: CablePort| #[trigger] ports.contains(p) <==> before.contains(p) || p
            == last by {
            if before.contains(p) {
                let k = choose|k: int| 0 <= k < before.len() && before[k] == p;
                assert(ports[k] == p);
            }
            if ports.contains(p) {
                let k = choose|k: int| 0 <= k < ports.len() && ports[k] == p;
                if k < before.len() {
                    assert(before[k] == p);
                }
            }
            if p == last {
                assert(ports[ports.len() - 1] == p);
            }
        }
        if before.contains(last) {
            let k = choose|k: int| 0 <= k < before.len() && before[k] == last;
            assert(ports[k] == ports[ports.len() - 1]);
        }
        match last {
            CablePort::Interface(x) => {
                assert(all == ids.push(x));
                assert(!ids.contains(x));
                assert forall|id: InterfaceId| #[trigger] all.contains(id) <==> ids.contains(id)
                    || id == x by {
                    if ids.contains(id) {
                        let j = choose|j: int| 0 <= j < ids.len() && ids[j] == id;
                        assert(all[j] == id);
                    }
                    if all.contains(id) {
                        let j = choose|j: int| 0 <= j < all.len() && all[j] == id;
                        if j < ids.len() {
                            assert(ids[j] == id);
                        }
                    }
                    if id == x {
                        assert(all[ids.len() as int] == id);
                    }
                }
                assert forall|id: InterfaceId| #[trigger] all.contains(id) <==> ports.contains(
                    CablePort::Interface(id),
                ) by {
                    assert(ids.contains(id) <==> before.contains(CablePort::Interface(id)));
                }
            },
            _ => {
                assert(all == ids);
                assert forall|id: InterfaceId| #[trigger] all.contains(id) <==> ports.contains(
                    CablePort::Interface(id),
                ) by {
                    assert(ids.contains(id) <==> before.contains(CablePort::Interface(id)));
                }
            },
        }
    }
}

/// In a snapshot that lists no port twice, a device has each of its
/// interfaces once.
pub proof fn lemma_interfaces_once(t: &Topology, device: DeviceId)
    requires
        t.lists_ports_once(),
    ensures
        t.spec_interfaces_of(device).no_duplicates(),
{
    match t.spec_device(device) {
        Some(d) => {
            lemma_interface_ids(d.ports@);
        },
        None => {},
    }
}

} // verus!
