//! The devices of the inventory and their ports.

use crate::fetch::as_vlans;
use crate::fetch::id_of_ref;
use crate::fetch::vlan_ids;
use crate::fetch::ref_id;
use crate::fetch::sorted_added;
use crate::fetch::add_sorted;
use crate::fetch::Building;
use crate::fetch::BuildingView;
use crate::inventory::DeviceRecord;
use crate::inventory::FrontPortRecord;
use crate::inventory::IdRef;
use crate::inventory::InterfaceRecord;
use crate::inventory::RearPortRecord;
use crate::inventory::TagRecord;
use crate::inventory::TenantRecord;
use crate::parse::parse_id;
use crate::parse::parse_u32;
use crate::snapshot::lemma_table_insert;
use crate::snapshot::table_view;
use crate::snapshot::DeviceView;
use crate::snapshot::FrontPortView;
use crate::snapshot::InterfaceView;
use crate::snapshot::RearPortView;
use crate::snapshot::TopologyView;
use crate::snapshot::WlanGroupDataView;
use crate::text::is_text;
use crate::topology::parse_port_name;
use crate::topology::CablePort;
use crate::topology::Device;
use crate::topology::DeviceId;
use crate::topology::FrontPort;
use crate::topology::FrontPortId;
use crate::topology::Interface;
use crate::topology::InterfaceId;
use crate::topology::IpAddressId;
use crate::topology::PhysicalPortId;
use crate::topology::PortType;
use crate::topology::RearPort;
use crate::topology::RearPortId;
use crate::topology::VlanId;
use crate::topology::WlanGroupData;
use crate::topology::WlanGroupId;
use vstd::prelude::*;
use vstd::std_specs::hash::*;
use vstd::string::*;

verus! {

broadcast use vstd::std_specs::hash::group_hash_axioms;

/// The credentials of the tenant `id`: those of the last record of the
/// tenant that has any.
pub open spec fn credential_of(tenants: Seq<TenantRecord>, id: Seq<char>) -> Option<Seq<char>>
    decreases tenants.len(),
{
    if tenants.len() == 0 {
        None
    } else {
        let t = tenants.last();
        if t.id@ == id && t.custom_field_data.mikrotik_credentials is Some {
            Some(t.custom_field_data.mikrotik_credentials->0@)
        } else {
            credential_of(tenants.drop_last(), id)
        }
    }
}

/// The credentials of the tenant that a place belongs to.
pub open spec fn tenant_credentials(tenants: Seq<TenantRecord>, tenant: Option<IdRef>) -> Option<
    Seq<char>,
> {
    match tenant {
        Some(r) => credential_of(tenants, r.id@),
        None => None,
    }
}

/// The credentials for a device: those of its own tenant, else those of
/// the tenant of its location, else those of the tenant of its site.
pub open spec fn device_credentials(tenants: Seq<TenantRecord>, d: DeviceRecord) -> Option<
    Seq<char>,
> {
    match tenant_credentials(tenants, d.tenant) {
        Some(c) => Some(c),
        None => match tenant_credentials(
            tenants,
            match d.location {
                Some(l) => l.tenant,
                None => None,
            },
        ) {
            Some(c) => Some(c),
            None => tenant_credentials(tenants, d.site.tenant),
        },
    }
}

fn find_credentials<'a>(tenants: &'a Vec<TenantRecord>, tenant: &Option<IdRef>) -> (r: Option<
    &'a String,
>)
    ensures
        r is Some <==> tenant_credentials(tenants@, *tenant) is Some,
        r matches Some(c) ==> c@ == tenant_credentials(tenants@, *tenant)->0,
{
    match tenant {
        Some(wanted) => {
            let mut i: usize = tenants.len();
            proof {
                assert(tenants@.take(i as int) =~= tenants@);
            }
            while i > 0
                invariant
                    i <= tenants.len(),
                    *tenant == Some(*wanted),
                    credential_of(tenants@, wanted.id@) == credential_of(
                        tenants@.take(i as int),
                        wanted.id@,
                    ),
                decreases i,
            {
                let t = &tenants[i - 1];
                proof {
                    assert(tenants@.take(i as int).last() == tenants@[i - 1]);
                    assert(tenants@.take(i as int).drop_last() =~= tenants@.take(i - 1));
                }
                if crate::text::same_text(&t.id, &wanted.id) {
                    match &t.custom_field_data.mikrotik_credentials {
                        Some(c) => {
                            return Some(c);
                        },
                        None => {},
                    }
                }
                i -= 1;
            }
            None
        },
        None => None,
    }
}

/// The ids that the references name, in their order.
pub open spec fn ids_of(refs: Seq<IdRef>) -> Seq<u32>
    decreases refs.len(),
{
    if refs.len() == 0 {
        Seq::empty()
    } else {
        match parse_u32(refs.last().id@) {
            Some(id) => ids_of(refs.drop_last()).push(id),
            None => ids_of(refs.drop_last()),
        }
    }
}

fn parse_refs(refs: &Vec<IdRef>) -> (r: Vec<u32>)
    ensures
        r@ == ids_of(refs@),
{
    let mut out: Vec<u32> = Vec::new();
    let mut i: usize = 0;
    proof {
        assert(refs@.take(0) =~= Seq::<IdRef>::empty());
    }
    while i < refs.len()
        invariant
            i <= refs.len(),
            out@ == ids_of(refs@.take(i as int)),
        decreases refs.len() - i,
    {
        proof {
            assert(refs@.take(i as int + 1).drop_last() =~= refs@.take(i as int));
            assert(refs@.take(i as int + 1).last() == refs@[i as int]);
        }
        match parse_id(refs[i].id.as_str()) {
            Some(id) => {
                out.push(id);
            },
            None => {},
        }
        i += 1;
    }
    proof {
        assert(refs@.take(refs.len() as int) =~= refs@);
    }
    out
}

/// Whether one of the tags is `slug`.
pub open spec fn has_tag(tags: Seq<TagRecord>, slug: Seq<char>) -> bool {
    exists|i: int| 0 <= i < tags.len() && (#[trigger] tags[i]).slug@ == slug
}

fn tagged(tags: &Vec<TagRecord>, slug: &str) -> (r: bool)
    ensures
        r == has_tag(tags@, slug@),
{
    let mut i: usize = 0;
    while i < tags.len()
        invariant
            i <= tags.len(),
            forall|j: int| 0 <= j < i ==> (#[trigger] tags@[j]).slug@ != slug@,
        decreases tags.len() - i,
    {
        if is_text(&tags[i].slug, slug) {
            return true;
        }
        i += 1;
    }
    false
}

/// The kind of port that a type of interface is.
pub open spec fn port_type_of(t: Seq<char>) -> Option<PortType> {
    if t == "10gbase-x-sfpp"@ || t == "1000base-x-sfp"@ || t == "1000base-t"@ || t
        == "100base-tx"@ || t == "40gbase-x-qsfpp"@ {
        Some(PortType::Ethernet)
    } else if t == "ieee802.11n"@ || t == "ieee802.11ac"@ || t == "ieee802.11ad"@ {
        Some(PortType::Wireless)
    } else if t == "bridge"@ {
        Some(PortType::Bridge)
    } else if t == "virtual"@ {
        Some(PortType::Loopback)
    } else {
        None
    }
}

fn port_type(t: &String) -> (r: Option<PortType>)
    ensures
        r == port_type_of(t@),
{
    if is_text(t, "10gbase-x-sfpp") || is_text(t, "1000base-x-sfp") || is_text(t, "1000base-t")
        || is_text(t, "100base-tx") || is_text(t, "40gbase-x-qsfpp") {
        Some(PortType::Ethernet)
    } else if is_text(t, "ieee802.11n") || is_text(t, "ieee802.11ac") || is_text(
        t,
        "ieee802.11ad",
    ) {
        Some(PortType::Wireless)
    } else if is_text(t, "bridge") {
        Some(PortType::Bridge)
    } else if is_text(t, "virtual") {
        Some(PortType::Loopback)
    } else {
        None
    }
}

/// The ids as ids of addresses.
pub open spec fn typed_addresses(ids: Seq<u32>) -> Seq<IpAddressId> {
    Seq::new(ids.len(), |i: int| IpAddressId(ids[i]))
}

/// The interface that a record of the device `device` tells of.
pub open spec fn interface_of(device: u32, r: InterfaceRecord) -> InterfaceView {
    InterfaceView {
        name: r.name@,
        label: r.label@,
        device: DeviceId(device),
        external: parse_port_name(r.name@),
        port_type: port_type_of(r.type_@),
        vlan: match ref_id(r.untagged_vlan) {
            Some(v) => Some(VlanId(v)),
            None => None,
        },
        tagged_vlans: as_vlans(ids_of(r.tagged_vlans@)),
        ips: typed_addresses(ids_of(r.ip_addresses@)),
        use_ospf: has_tag(r.tags@, "ospf"@),
        enable_dhcp_client: has_tag(r.tags@, "dhcp-client"@),
        enable_dhcp_server: has_tag(r.tags@, "dhcp"@),
        bridge: match ref_id(r.bridge) {
            Some(b) => Some(InterfaceId(b)),
            None => None,
        },
        cable: None,
        enable_poe: r.poe_mode matches Some(m) && m@ == "pse"@,
    }
}

/// The list with `p` at its end, where it was not in it.
pub open spec fn with_port(ports: Seq<CablePort>, p: CablePort) -> Seq<CablePort> {
    if ports.contains(p) {
        ports
    } else {
        ports.push(p)
    }
}

/// The interfaces of the addresses with each of `ips` on `interface`.
pub open spec fn assigned(m: Map<u32, u32>, ips: Seq<u32>, interface: u32) -> Map<u32, u32>
    decreases ips.len(),
{
    if ips.len() == 0 {
        m
    } else {
        assigned(m, ips.drop_last(), interface).insert(ips.last(), interface)
    }
}

/// What is known of a device while its ports are taken.
pub struct DeviceScan {
    pub b: BuildingView,
    /// The ports of the device, each once, in the order of the records.
    pub ports: Seq<CablePort>,
    /// The first address of the last loopback interface that has one.
    pub loopback: Option<IpAddressId>,
}

/// The snapshot with an interface of the device `device`. The interface
/// named `lo` of the type `virtual` gives the loopback address.
pub open spec fn with_interface(s: DeviceScan, device: u32, r: InterfaceRecord) -> DeviceScan {
    let ips = ids_of(r.ip_addresses@);
    let loopback = if r.name@ == "lo"@ && r.type_@ == "virtual"@ && ips.len() > 0 {
        Some(IpAddressId(ips[0]))
    } else {
        s.loopback
    };
    match parse_u32(r.id@) {
        Some(id) => DeviceScan {
            b: BuildingView {
                topology: TopologyView {
                    interfaces: s.b.topology.interfaces.insert(id, interface_of(device, r)),
                    ..s.b.topology
                },
                interface_of_address: assigned(s.b.interface_of_address, ips, id),
                interfaces_of_vlan: match ref_id(r.untagged_vlan) {
                    Some(v) => sorted_added(s.b.interfaces_of_vlan, v, id),
                    None => s.b.interfaces_of_vlan,
                },
                ..s.b
            },
            ports: with_port(s.ports, CablePort::Interface(InterfaceId(id))),
            loopback,
        },
        None => DeviceScan { loopback, ..s },
    }
}

pub open spec fn with_interfaces(s: DeviceScan, device: u32, rs: Seq<InterfaceRecord>) -> DeviceScan
    decreases rs.len(),
{
    if rs.len() == 0 {
        s
    } else {
        with_interface(with_interfaces(s, device, rs.drop_last()), device, rs.last())
    }
}

/// What is known of a device while its pass-through ports are taken.
pub struct PortScan {
    pub b: BuildingView,
    /// The ports of the device, each once, in the order of the records.
    pub ports: Seq<CablePort>,
}

/// The snapshot with a rear port of the device `device`.
pub open spec fn with_rear_port(s: PortScan, device: u32, r: RearPortRecord) -> PortScan {
    match parse_u32(r.id@) {
        Some(id) => PortScan {
            b: BuildingView {
                topology: TopologyView {
                    rear_ports: s.b.topology.rear_ports.insert(
                        id,
                        RearPortView {
                            name: r.name@,
                            device: DeviceId(device),
                            front_port: None,
                            cable: None,
                        },
                    ),
                    ..s.b.topology
                },
                ..s.b
            },
            ports: with_port(s.ports, CablePort::RearPort(RearPortId(id))),
        },
        None => s,
    }
}

pub open spec fn with_rear_ports(s: PortScan, device: u32, rs: Seq<RearPortRecord>) -> PortScan
    decreases rs.len(),
{
    if rs.len() == 0 {
        s
    } else {
        with_rear_port(with_rear_ports(s, device, rs.drop_last()), device, rs.last())
    }
}

/// The snapshot with a front port of the device `device`, which the rear
/// port that it names comes to name in turn.
pub open spec fn with_front_port(s: PortScan, device: u32, r: FrontPortRecord) -> PortScan {
    match parse_u32(r.id@) {
        Some(id) => {
            let rear = parse_u32(r.rear_port.id@);
            let rear_ports = s.b.topology.rear_ports;
            PortScan {
                b: BuildingView {
                    topology: TopologyView {
                        front_ports: s.b.topology.front_ports.insert(
                            id,
                            FrontPortView {
                                name: r.name@,
                                device: DeviceId(device),
                                rear_port: match rear {
                                    Some(x) => Some(RearPortId(x)),
                                    None => None,
                                },
                                cable: None,
                            },
                        ),
                        rear_ports: match rear {
                            Some(x) => if rear_ports.contains_key(x) {
                                rear_ports.insert(
                                    x,
                                    RearPortView {
                                        front_port: Some(FrontPortId(id)),
                                        ..rear_ports[x]
                                    },
                                )
                            } else {
                                rear_ports
                            },
                            None => rear_ports,
                        },
                        ..s.b.topology
                    },
                    ..s.b
                },
                ports: with_port(s.ports, CablePort::FrontPort(FrontPortId(id))),
            }
        },
        None => s,
    }
}

pub open spec fn with_front_ports(s: PortScan, device: u32, rs: Seq<FrontPortRecord>) -> PortScan
    decreases rs.len(),
{
    if rs.len() == 0 {
        s
    } else {
        with_front_port(with_front_ports(s, device, rs.drop_last()), device, rs.last())
    }
}

/// The snapshot with a device: its interfaces, its rear ports, its front
/// ports and itself. An access point joins its group of wireless networks
/// and the VLAN that the group is managed in.
pub open spec fn with_device(b: BuildingView, tenants: Seq<TenantRecord>, d: DeviceRecord) -> BuildingView {
    match parse_u32(d.id@) {
        Some(id) => {
            let interfaces = with_interfaces(
                DeviceScan { b, ports: Seq::empty(), loopback: None },
                id,
                d.interfaces@,
            );
            let scanned = with_front_ports(
                with_rear_ports(
                    PortScan { b: interfaces.b, ports: interfaces.ports },
                    id,
                    d.rearports@,
                ),
                id,
                d.frontports@,
            );
            let groups = scanned.b.topology.wlan_groups;
            let v4 = ref_id(d.primary_ip4);
            let v6 = ref_id(d.primary_ip6);
            let ap_of = d.custom_field_data.wlan_group;
            let device = DeviceView {
                name: match d.name {
                    Some(n) => n@,
                    None => Seq::empty(),
                },
                ports: scanned.ports,
                primary_ip: match v6 {
                    Some(x) => Some(IpAddressId(x)),
                    None => match v4 {
                        Some(x) => Some(IpAddressId(x)),
                        None => None,
                    },
                },
                primary_ip_v4: match v4 {
                    Some(x) => Some(IpAddressId(x)),
                    None => None,
                },
                primary_ip_v6: match v6 {
                    Some(x) => Some(IpAddressId(x)),
                    None => None,
                },
                loopback_ip: interfaces.loopback,
                credentials: device_credentials(tenants, d),
                has_routeros: d.platform matches Some(p) && p.name@ == "routeros"@,
                serial: if d.serial@.len() > 0 {
                    Some(d.serial@)
                } else {
                    None
                },
                wlan_controller_of: if scanned.b.controllers.contains_key(id) {
                    Some(WlanGroupId(scanned.b.controllers[id]))
                } else {
                    None
                },
                wlan_ap_of: match ap_of {
                    Some(g) => Some(WlanGroupId(g)),
                    None => None,
                },
                vlans: match ap_of {
                    Some(g) => if groups.contains_key(g) && groups[g].mgmt_vlan is Some {
                        seq![groups[g].mgmt_vlan->0]
                    } else {
                        Seq::empty()
                    },
                    None => Seq::empty(),
                },
            };
            BuildingView {
                topology: TopologyView {
                    devices: scanned.b.topology.devices.insert(id, device),
                    wlan_groups: match ap_of {
                        Some(g) => if groups.contains_key(g) {
                            groups.insert(
                                g,
                                WlanGroupDataView { aps: groups[g].aps.push(DeviceId(id)), ..groups[g] },
                            )
                        } else {
                            groups
                        },
                        None => groups,
                    },
                    ..scanned.b.topology
                },
                ..scanned.b
            }
        },
        None => b,
    }
}

/// The snapshot with the devices.
pub open spec fn with_devices(b: BuildingView, tenants: Seq<TenantRecord>, ds: Seq<DeviceRecord>) -> BuildingView
    decreases ds.len(),
{
    if ds.len() == 0 {
        b
    } else {
        with_device(with_devices(b, tenants, ds.drop_last()), tenants, ds.last())
    }
}

fn push_port(ports: &mut Vec<CablePort>, p: CablePort)
    ensures
        final(ports)@ == with_port(old(ports)@, p),
{
    let mut i: usize = 0;
    while i < ports.len()
        invariant
            i <= ports.len(),
            ports@ == old(ports)@,
            forall|k: int| 0 <= k < i ==> ports@[k] != p,
        decreases ports.len() - i,
    {
        if ports[i] == p {
            return ;
        }
        i += 1;
    }
    ports.push(p);
}

fn address_ids(ids: &Vec<u32>) -> (r: Vec<IpAddressId>)
    ensures
        r@ == typed_addresses(ids@),
{
    let mut out: Vec<IpAddressId> = Vec::new();
    let mut i: usize = 0;
    while i < ids.len()
        invariant
            i <= ids.len(),
            out@ == typed_addresses(ids@).take(i as int),
        decreases ids.len() - i,
    {
        out.push(IpAddressId(ids[i]));
        proof {
            assert(typed_addresses(ids@).take(i as int).push(IpAddressId(ids@[i as int]))
                =~= typed_addresses(ids@).take(i as int + 1));
        }
        i += 1;
    }
    proof {
        assert(typed_addresses(ids@).take(ids.len() as int) =~= typed_addresses(ids@));
    }
    out
}

impl Building {
    /// Takes an interface of the device `device` into the snapshot.
    fn add_interface(
        &mut self,
        ports: &mut Vec<CablePort>,
        loopback: &mut Option<IpAddressId>,
        device: u32,
        r: &InterfaceRecord,
    )
        ensures
            (DeviceScan { b: final(self)@, ports: final(ports)@, loopback: *final(loopback) })
                == with_interface(
                DeviceScan { b: old(self)@, ports: old(ports)@, loopback: *old(loopback) },
                device,
                *r,
            ),
    {
        let ips = parse_refs(&r.ip_addresses);
        if is_text(&r.name, "lo") && is_text(&r.type_, "virtual") && ips.len() > 0 {
            *loopback = Some(IpAddressId(ips[0]));
        }
        match parse_id(r.id.as_str()) {
            Some(id) => {
                push_port(ports, CablePort::Interface(InterfaceId(id)));
                let mut i: usize = 0;
                proof {
                    assert(ips@.take(0) =~= Seq::<u32>::empty());
                }
                while i < ips.len()
                    invariant
                        i <= ips.len(),
                        self.interface_of_address@ == assigned(
                            old(self).interface_of_address@,
                            ips@.take(i as int),
                            id,
                        ),
                        self.topology == old(self).topology,
                        self.controllers == old(self).controllers,
                        self.wlans_of_vlan == old(self).wlans_of_vlan,
                        self.interfaces_of_vlan == old(self).interfaces_of_vlan,
                        self.vxlan_of_vlan == old(self).vxlan_of_vlan,
                        self.prefix_idx == old(self).prefix_idx,
                    decreases ips.len() - i,
                {
                    proof {
                        assert(ips@.take(i as int + 1).drop_last() =~= ips@.take(i as int));
                        assert(ips@.take(i as int + 1).last() == ips@[i as int]);
                    }
                    self.interface_of_address.insert(ips[i], id);
                    i += 1;
                }
                proof {
                    assert(ips@.take(ips.len() as int) =~= ips@);
                }
                let vlan = id_of_ref(&r.untagged_vlan);
                let data = Interface {
                    name: r.name.clone(),
                    label: r.label.clone(),
                    device: DeviceId(device),
                    external: match PhysicalPortId::from_str(r.name.as_str()) {
                        Ok(p) => Some(p),
                        Err(_) => None,
                    },
                    port_type: port_type(&r.type_),
                    vlan: match vlan {
                        Some(v) => Some(VlanId(v)),
                        None => None,
                    },
                    tagged_vlans: vlan_ids(&parse_refs(&r.tagged_vlans)),
                    ips: address_ids(&ips),
                    use_ospf: tagged(&r.tags, "ospf"),
                    enable_dhcp_client: tagged(&r.tags, "dhcp-client"),
                    enable_dhcp_server: tagged(&r.tags, "dhcp"),
                    bridge: match id_of_ref(&r.bridge) {
                        Some(b) => Some(InterfaceId(b)),
                        None => None,
                    },
                    cable: None,
                    enable_poe: match &r.poe_mode {
                        Some(m) => is_text(m, "pse"),
                        None => false,
                    },
                };
                proof {
                    lemma_table_insert(self.topology.interfaces@, id, data);
                }
                self.topology.interfaces.insert(id, data);
                match vlan {
                    Some(v) => {
                        add_sorted(&mut self.interfaces_of_vlan, v, id);
                    },
                    None => {},
                }
            },
            None => {},
        }
    }

    /// Takes a rear port of the device `device` into the snapshot.
    fn add_rear_port(&mut self, ports: &mut Vec<CablePort>, device: u32, r: &RearPortRecord)
        ensures
            (PortScan { b: final(self)@, ports: final(ports)@ }) == with_rear_port(
                PortScan { b: old(self)@, ports: old(ports)@ },
                device,
                *r,
            ),
    {
        match parse_id(r.id.as_str()) {
            Some(id) => {
                let data = RearPort {
                    name: r.name.clone(),
                    device: DeviceId(device),
                    front_port: None,
                    cable: None,
                };
                proof {
                    lemma_table_insert(self.topology.rear_ports@, id, data);
                }
                self.topology.rear_ports.insert(id, data);
                push_port(ports, CablePort::RearPort(RearPortId(id)));
            },
            None => {},
        }
    }

    /// Takes a front port of the device `device` into the snapshot.
    fn add_front_port(&mut self, ports: &mut Vec<CablePort>, device: u32, r: &FrontPortRecord)
        ensures
            (PortScan { b: final(self)@, ports: final(ports)@ }) == with_front_port(
                PortScan { b: old(self)@, ports: old(ports)@ },
                device,
                *r,
            ),
    {
        match parse_id(r.id.as_str()) {
            Some(id) => {
                let rear = parse_id(r.rear_port.id.as_str());
                let data = FrontPort {
                    name: r.name.clone(),
                    device: DeviceId(device),
                    rear_port: match rear {
                        Some(x) => Some(RearPortId(x)),
                        None => None,
                    },
                    cable: None,
                };
                proof {
                    lemma_table_insert(self.topology.front_ports@, id, data);
                }
                self.topology.front_ports.insert(id, data);
                match rear {
                    Some(x) => {
                        let ghost before = self.topology.rear_ports@;
                        match self.topology.rear_ports.remove(&x) {
                            Some(old_port) => {
                                let data = RearPort {
                                    name: old_port.name,
                                    device: old_port.device,
                                    front_port: Some(FrontPortId(id)),
                                    cable: old_port.cable,
                                };
                                proof {
                                    lemma_table_insert(before.remove(x), x, data);
                                    assert(table_view(before.remove(x).insert(x, data))
                                        =~= table_view(before).insert(x, data@));
                                }
                                self.topology.rear_ports.insert(x, data);
                            },
                            None => {
                                proof {
                                    assert(before.remove(x) =~= before);
                                }
                            },
                        }
                    },
                    None => {},
                }
                push_port(ports, CablePort::FrontPort(FrontPortId(id)));
            },
            None => {},
        }
    }

    /// Takes a device into the snapshot.
    pub fn add_device(&mut self, tenants: &Vec<TenantRecord>, d: &DeviceRecord)
        ensures
            final(self)@ == with_device(old(self)@, tenants@, *d),
    {
        match parse_id(d.id.as_str()) {
            Some(id) => {
                let credentials = match find_credentials(tenants, &d.tenant) {
                    Some(c) => Some(c.clone()),
                    None => {
                        let location_tenant = match &d.location {
                            Some(l) => find_credentials(tenants, &l.tenant),
                            None => None,
                        };
                        match location_tenant {
                            Some(c) => Some(c.clone()),
                            None => match find_credentials(tenants, &d.site.tenant) {
                                Some(c) => Some(c.clone()),
                                None => None,
                            },
                        }
                    },
                };
                let v4 = id_of_ref(&d.primary_ip4);
                let v6 = id_of_ref(&d.primary_ip6);
                let mut ports: Vec<CablePort> = Vec::new();
                let mut loopback: Option<IpAddressId> = None;
                let ghost start = DeviceScan { b: self@, ports: Seq::empty(), loopback: None };
                let mut i: usize = 0;
                proof {
                    assert(d.interfaces@.take(0) =~= Seq::<InterfaceRecord>::empty());
                }
                while i < d.interfaces.len()
                    invariant
                        i <= d.interfaces.len(),
                        (DeviceScan { b: self@, ports: ports@, loopback }) == with_interfaces(
                            start,
                            id,
                            d.interfaces@.take(i as int),
                        ),
                    decreases d.interfaces.len() - i,
                {
                    proof {
                        assert(d.interfaces@.take(i as int + 1).drop_last() =~= d.interfaces@.take(
                            i as int,
                        ));
                        assert(d.interfaces@.take(i as int + 1).last() == d.interfaces@[i as int]);
                    }
                    self.add_interface(&mut ports, &mut loopback, id, &d.interfaces[i]);
                    i += 1;
                }
                proof {
                    assert(d.interfaces@.take(d.interfaces.len() as int) =~= d.interfaces@);
                }
                let ghost first = PortScan { b: self@, ports: ports@ };
                let mut i: usize = 0;
                proof {
                    assert(d.rearports@.take(0) =~= Seq::<RearPortRecord>::empty());
                }
                while i < d.rearports.len()
                    invariant
                        i <= d.rearports.len(),
                        (PortScan { b: self@, ports: ports@ }) == with_rear_ports(
                            first,
                            id,
                            d.rearports@.take(i as int),
                        ),
                    decreases d.rearports.len() - i,
                {
                    proof {
                        assert(d.rearports@.take(i as int + 1).drop_last() =~= d.rearports@.take(
                            i as int,
                        ));
                        assert(d.rearports@.take(i as int + 1).last() == d.rearports@[i as int]);
                    }
                    self.add_rear_port(&mut ports, id, &d.rearports[i]);
                    i += 1;
                }
                proof {
                    assert(d.rearports@.take(d.rearports.len() as int) =~= d.rearports@);
                }
                let ghost second = PortScan { b: self@, ports: ports@ };
                let mut i: usize = 0;
                proof {
                    assert(d.frontports@.take(0) =~= Seq::<FrontPortRecord>::empty());
                }
                while i < d.frontports.len()
                    invariant
                        i <= d.frontports.len(),
                        (PortScan { b: self@, ports: ports@ }) == with_front_ports(
                            second,
                            id,
                            d.frontports@.take(i as int),
                        ),
                    decreases d.frontports.len() - i,
                {
                    proof {
                        assert(d.frontports@.take(i as int + 1).drop_last() =~= d.frontports@.take(
                            i as int,
                        ));
                        assert(d.frontports@.take(i as int + 1).last() == d.frontports@[i as int]);
                    }
                    self.add_front_port(&mut ports, id, &d.frontports[i]);
                    i += 1;
                }
                proof {
                    assert(d.frontports@.take(d.frontports.len() as int) =~= d.frontports@);
                }
                let ap_of = d.custom_field_data.wlan_group;
                let mut vlans: Vec<VlanId> = Vec::new();
                match ap_of {
                    Some(g) => {
                        let ghost before = self.topology.wlan_groups@;
                        match self.topology.wlan_groups.remove(&g) {
                            Some(group) => {
                                match group.mgmt_vlan {
                                    Some(v) => {
                                        vlans.push(v);
                                    },
                                    None => {},
                                }
                                let mut aps = group.aps;
                                aps.push(DeviceId(id));
                                let data = WlanGroupData {
                                    mgmt_vlan: group.mgmt_vlan,
                                    controller: group.controller,
                                    aps,
                                    wlans: group.wlans,
                                };
                                proof {
                                    assert(table_view(before.remove(g).insert(g, data))
                                        =~= table_view(before).insert(g, data@));
                                }
                                self.topology.wlan_groups.insert(g, data);
                            },
                            None => {
                                proof {
                                    assert(before.remove(g) =~= before);
                                }
                            },
                        }
                    },
                    None => {},
                }
                let data = Device {
                    name: match &d.name {
                        Some(n) => n.clone(),
                        None => String::new(),
                    },
                    ports,
                    primary_ip: match v6 {
                        Some(x) => Some(IpAddressId(x)),
                        None => match v4 {
                            Some(x) => Some(IpAddressId(x)),
                            None => None,
                        },
                    },
                    primary_ip_v4: match v4 {
                        Some(x) => Some(IpAddressId(x)),
                        None => None,
                    },
                    primary_ip_v6: match v6 {
                        Some(x) => Some(IpAddressId(x)),
                        None => None,
                    },
                    loopback_ip: loopback,
                    credentials,
                    has_routeros: match &d.platform {
                        Some(p) => is_text(&p.name, "routeros"),
                        None => false,
                    },
                    serial: if d.serial.as_str().unicode_len() > 0 {
                        Some(d.serial.clone())
                    } else {
                        None
                    },
                    wlan_controller_of: match self.controllers.get(&id) {
                        Some(g) => Some(WlanGroupId(*g)),
                        None => None,
                    },
                    wlan_ap_of: match ap_of {
                        Some(g) => Some(WlanGroupId(g)),
                        None => None,
                    },
                    vlans,
                };
                proof {
                    lemma_table_insert(self.topology.devices@, id, data);
                }
                self.topology.devices.insert(id, data);
            },
            None => {},
        }
    }

    /// Takes the devices into the snapshot.
    pub fn add_devices(&mut self, tenants: &Vec<TenantRecord>, ds: &Vec<DeviceRecord>)
        ensures
            final(self)@ == with_devices(old(self)@, tenants@, ds@),
    {
        let mut i: usize = 0;
        proof {
            assert(ds@.take(0) =~= Seq::<DeviceRecord>::empty());
        }
        while i < ds.len()
            invariant
                i <= ds.len(),
                self@ == with_devices(old(self)@, tenants@, ds@.take(i as int)),
            decreases ds.len() - i,
        {
            proof {
                assert(ds@.take(i as int + 1).drop_last() =~= ds@.take(i as int));
                assert(ds@.take(i as int + 1).last() == ds@[i as int]);
            }
            self.add_device(tenants, &ds[i]);
            i += 1;
        }
        proof {
            assert(ds@.take(ds.len() as int) =~= ds@);
        }
    }
}

} // verus!
