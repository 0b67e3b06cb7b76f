//! The VXLANs, VLANs and cables of the inventory.

use crate::fetch::as_interfaces;
use crate::fetch::as_vlans;
use crate::fetch::as_wlans;
use crate::fetch::insert_sorted;
use crate::fetch::interface_ids;
use crate::fetch::list_at;
use crate::fetch::sorted_with;
use crate::fetch::vlan_ids;
use crate::fetch::wlan_ids;
use crate::fetch::Building;
use crate::fetch::BuildingView;
use crate::inventory::AssignedObject;
use crate::inventory::CableConnectionTermination;
use crate::inventory::CableRecord;
use crate::inventory::L2vpnRecord;
use crate::inventory::VlanGroupRecord;
use crate::inventory::VlanRecord;
use crate::parse::parse_id;
use crate::parse::parse_u32;
use crate::snapshot::lemma_table_insert;
use crate::snapshot::table_view;
use crate::snapshot::CableView;
use crate::snapshot::FrontPortView;
use crate::snapshot::InterfaceView;
use crate::snapshot::RearPortView;
use crate::snapshot::TopologyView;
use crate::snapshot::VlanDataView;
use crate::snapshot::VlanGroupDataView;
use crate::snapshot::VxlanDataView;
use crate::text::is_text;
use crate::topology::Cable;
use crate::topology::CableId;
use crate::topology::CablePort;
use crate::topology::FrontPort;
use crate::topology::FrontPortId;
use crate::topology::Interface;
use crate::topology::InterfaceId;
use crate::topology::RearPort;
use crate::topology::RearPortId;
use crate::topology::Topology;
use crate::topology::VlanData;
use crate::topology::VlanGroupData;
use crate::topology::VlanGroupId;
use crate::topology::VxlanData;
use crate::topology::VxlanId;
use vstd::prelude::*;
use vstd::std_specs::hash::*;
use vstd::string::*;

verus! {

broadcast use vstd::std_specs::hash::group_hash_axioms;

/// What a VXLAN ends on, while its ends are taken.
pub struct EndScan {
    /// The interfaces that the VXLAN ends on, ascending.
    pub interfaces: Seq<u32>,
    /// The VLANs that the VXLAN backs, ascending.
    pub vlans: Seq<u32>,
    /// The VXLAN that backs each VLAN.
    pub vxlan_of_vlan: Map<u32, u32>,
}

/// The ends of the VXLAN `vxlan` with one more.
pub open spec fn with_end(s: EndScan, vxlan: u32, t: AssignedObject) -> EndScan {
    match t {
        AssignedObject::InterfaceType(r) => match parse_u32(r.id@) {
            Some(i) => EndScan { interfaces: sorted_with(s.interfaces, i), ..s },
            None => s,
        },
        AssignedObject::VLANType(r) => match parse_u32(r.id@) {
            Some(v) => EndScan {
                vlans: sorted_with(s.vlans, v),
                vxlan_of_vlan: s.vxlan_of_vlan.insert(v, vxlan),
                ..s
            },
            None => s,
        },
        AssignedObject::VMInterfaceType => s,
    }
}

pub open spec fn with_ends(s: EndScan, vxlan: u32, ts: Seq<AssignedObject>) -> EndScan
    decreases ts.len(),
{
    if ts.len() == 0 {
        s
    } else {
        with_end(with_ends(s, vxlan, ts.drop_last()), vxlan, ts.last())
    }
}

/// The snapshot with a layer 2 VPN, where it is a VXLAN with an
/// identifier, of which the lower 32 bits are its network number.
pub open spec fn with_l2vpn(b: BuildingView, l: L2vpnRecord) -> BuildingView {
    if l.type_@ == "vxlan"@ {
        match (parse_u32(l.id@), l.identifier) {
            (Some(id), Some(identifier)) => {
                let ends = with_ends(
                    EndScan {
                        interfaces: Seq::empty(),
                        vlans: Seq::empty(),
                        vxlan_of_vlan: b.vxlan_of_vlan,
                    },
                    id,
                    l.terminations@,
                );
                BuildingView {
                    topology: TopologyView {
                        vxlans: b.topology.vxlans.insert(
                            id,
                            VxlanDataView {
                                name: l.name@,
                                vni: identifier as u32,
                                interface_terminations: as_interfaces(ends.interfaces),
                                vlan_terminations: as_vlans(ends.vlans),
                            },
                        ),
                        ..b.topology
                    },
                    vxlan_of_vlan: ends.vxlan_of_vlan,
                    ..b
                }
            },
            _ => b,
        }
    } else {
        b
    }
}

pub open spec fn with_l2vpns(b: BuildingView, ls: Seq<L2vpnRecord>) -> BuildingView
    decreases ls.len(),
{
    if ls.len() == 0 {
        b
    } else {
        with_l2vpn(with_l2vpns(b, ls.drop_last()), ls.last())
    }
}

/// What is known of a group of VLANs while its VLANs are taken.
pub struct VlanScan {
    pub b: BuildingView,
    /// The VLANs of the group, ascending.
    pub ids: Seq<u32>,
}

/// The snapshot with a VLAN of the group `group`. The VLAN takes the
/// interfaces that are untagged for it and its wireless networks with it: a
/// later record of the same VLAN finds none.
pub open spec fn with_vlan(s: VlanScan, group: u32, v: VlanRecord) -> VlanScan {
    match parse_u32(v.id@) {
        Some(id) => VlanScan {
            b: BuildingView {
                topology: TopologyView {
                    vlans: s.b.topology.vlans.insert(
                        id,
                        VlanDataView {
                            name: v.name@,
                            vlan_id: v.vid as u16,
                            group: VlanGroupId(group),
                            terminations: as_interfaces(list_at(s.b.interfaces_of_vlan, id)),
                            vxlan: if s.b.vxlan_of_vlan.contains_key(id) {
                                Some(VxlanId(s.b.vxlan_of_vlan[id]))
                            } else {
                                None
                            },
                            wlans: as_wlans(list_at(s.b.wlans_of_vlan, id)),
                        },
                    ),
                    ..s.b.topology
                },
                interfaces_of_vlan: s.b.interfaces_of_vlan.remove(id),
                wlans_of_vlan: s.b.wlans_of_vlan.remove(id),
                ..s.b
            },
            ids: sorted_with(s.ids, id),
        },
        None => s,
    }
}

pub open spec fn with_vlans(s: VlanScan, group: u32, vs: Seq<VlanRecord>) -> VlanScan
    decreases vs.len(),
{
    if vs.len() == 0 {
        s
    } else {
        with_vlan(with_vlans(s, group, vs.drop_last()), group, vs.last())
    }
}

/// The snapshot with a group of VLANs.
pub open spec fn with_vlan_group(b: BuildingView, g: VlanGroupRecord) -> BuildingView {
    match parse_u32(g.id@) {
        Some(gid) => {
            let scanned = with_vlans(VlanScan { b, ids: Seq::empty() }, gid, g.vlans@);
            BuildingView {
                topology: TopologyView {
                    vlan_groups: scanned.b.topology.vlan_groups.insert(
                        gid,
                        VlanGroupDataView { vlans: as_vlans(scanned.ids) },
                    ),
                    ..scanned.b.topology
                },
                ..scanned.b
            }
        },
        None => b,
    }
}

pub open spec fn with_vlan_groups(b: BuildingView, gs: Seq<VlanGroupRecord>) -> BuildingView
    decreases gs.len(),
{
    if gs.len() == 0 {
        b
    } else {
        with_vlan_group(with_vlan_groups(b, gs.drop_last()), gs.last())
    }
}

/// The port that a cable ends in, for the kinds of end that the snapshot
/// keeps.
pub open spec fn cable_port_of(t: CableConnectionTermination) -> Option<CablePort> {
    match t {
        CableConnectionTermination::FrontPortType { id } => match parse_u32(id@) {
            Some(x) => Some(CablePort::FrontPort(FrontPortId(x))),
            None => None,
        },
        CableConnectionTermination::InterfaceType { id } => match parse_u32(id@) {
            Some(x) => Some(CablePort::Interface(InterfaceId(x))),
            None => None,
        },
        CableConnectionTermination::RearPortType { id } => match parse_u32(id@) {
            Some(x) => Some(CablePort::RearPort(RearPortId(x))),
            None => None,
        },
        _ => None,
    }
}

/// The port that a cable ends in.
pub fn termination_2_cable_port(termination: &CableConnectionTermination) -> (r: Option<CablePort>)
    ensures
        r == cable_port_of(*termination),
{
    match termination {
        CableConnectionTermination::CircuitTerminationType => None,
        CableConnectionTermination::ConsolePortType => None,
        CableConnectionTermination::ConsoleServerPortType => None,
        CableConnectionTermination::FrontPortType { id } => match parse_id(id.as_str()) {
            Some(x) => Some(CablePort::FrontPort(FrontPortId(x))),
            None => None,
        },
        CableConnectionTermination::InterfaceType { id } => match parse_id(id.as_str()) {
            Some(x) => Some(CablePort::Interface(InterfaceId(x))),
            None => None,
        },
        CableConnectionTermination::PowerFeedType => None,
        CableConnectionTermination::PowerOutletType => None,
        CableConnectionTermination::PowerPortType => None,
        CableConnectionTermination::RearPortType { id } => match parse_id(id.as_str()) {
            Some(x) => Some(CablePort::RearPort(RearPortId(x))),
            None => None,
        },
    }
}

/// The ports that a cable ends in at one end.
pub open spec fn cable_ports(ts: Seq<CableConnectionTermination>) -> Seq<CablePort>
    decreases ts.len(),
{
    if ts.len() == 0 {
        Seq::empty()
    } else {
        match cable_port_of(ts.last()) {
            Some(p) => cable_ports(ts.drop_last()).push(p),
            None => cable_ports(ts.drop_last()),
        }
    }
}

fn ports_of(ts: &Vec<CableConnectionTermination>) -> (r: Vec<CablePort>)
    ensures
        r@ == cable_ports(ts@),
{
    let mut out: Vec<CablePort> = Vec::new();
    let mut i: usize = 0;
    proof {
        assert(ts@.take(0) =~= Seq::<CableConnectionTermination>::empty());
    }
    while i < ts.len()
        invariant
            i <= ts.len(),
            out@ == cable_ports(ts@.take(i as int)),
        decreases ts.len() - i,
    {
        proof {
            assert(ts@.take(i as int + 1).drop_last() =~= ts@.take(i as int));
            assert(ts@.take(i as int + 1).last() == ts@[i as int]);
        }
        match termination_2_cable_port(&ts[i]) {
            Some(p) => {
                out.push(p);
            },
            None => {},
        }
        i += 1;
    }
    proof {
        assert(ts@.take(ts.len() as int) =~= ts@);
    }
    out
}

/// The snapshot with the cable `cable` on the port, where it holds the port.
pub open spec fn attached(t: TopologyView, port: CablePort, cable: u32) -> TopologyView {
    match port {
        CablePort::Interface(id) => if t.interfaces.contains_key(id.0) {
            TopologyView {
                interfaces: t.interfaces.insert(
                    id.0,
                    InterfaceView { cable: Some(CableId(cable)), ..t.interfaces[id.0] },
                ),
                ..t
            }
        } else {
            t
        },
        CablePort::FrontPort(id) => if t.front_ports.contains_key(id.0) {
            TopologyView {
                front_ports: t.front_ports.insert(
                    id.0,
                    FrontPortView { cable: Some(CableId(cable)), ..t.front_ports[id.0] },
                ),
                ..t
            }
        } else {
            t
        },
        CablePort::RearPort(id) => if t.rear_ports.contains_key(id.0) {
            TopologyView {
                rear_ports: t.rear_ports.insert(
                    id.0,
                    RearPortView { cable: Some(CableId(cable)), ..t.rear_ports[id.0] },
                ),
                ..t
            }
        } else {
            t
        },
    }
}

pub open spec fn attached_all(t: TopologyView, ports: Seq<CablePort>, cable: u32) -> TopologyView
    decreases ports.len(),
{
    if ports.len() == 0 {
        t
    } else {
        attached(attached_all(t, ports.drop_last(), cable), ports.last(), cable)
    }
}

/// The snapshot with a cable, which each port that it ends in comes to
/// name.
pub open spec fn with_cable(b: BuildingView, c: CableRecord) -> BuildingView {
    match parse_u32(c.id@) {
        Some(id) => {
            let port_a = cable_ports(c.a_terminations@);
            let port_b = cable_ports(c.b_terminations@);
            let wired = attached_all(attached_all(b.topology, port_a, id), port_b, id);
            BuildingView {
                topology: TopologyView {
                    cables: wired.cables.insert(id, CableView { port_a, port_b }),
                    ..wired
                },
                ..b
            }
        },
        None => b,
    }
}

pub open spec fn with_cables(b: BuildingView, cs: Seq<CableRecord>) -> BuildingView
    decreases cs.len(),
{
    if cs.len() == 0 {
        b
    } else {
        with_cable(with_cables(b, cs.drop_last()), cs.last())
    }
}

impl Topology {
    /// Has the port name the cable `cable`, where the snapshot holds the
    /// port.
    fn attach(&mut self, port: CablePort, cable: u32)
        ensures
            final(self)@ == attached(old(self)@, port, cable),
    {
        match port {
            CablePort::Interface(id) => {
                let ghost before = self.interfaces@;
                match self.interfaces.remove(&id.0) {
                    Some(d) => {
                        let data = Interface {
                            name: d.name,
                            label: d.label,
                            device: d.device,
                            external: d.external,
                            port_type: d.port_type,
                            vlan: d.vlan,
                            tagged_vlans: d.tagged_vlans,
                            ips: d.ips,
                            use_ospf: d.use_ospf,
                            enable_dhcp_client: d.enable_dhcp_client,
                            enable_dhcp_server: d.enable_dhcp_server,
                            bridge: d.bridge,
                            cable: Some(CableId(cable)),
                            enable_poe: d.enable_poe,
                        };
                        proof {
                            assert(table_view(before.remove(id.0).insert(id.0, data))
                                =~= table_view(before).insert(id.0, data@));
                        }
                        self.interfaces.insert(id.0, data);
                    },
                    None => {
                        proof {
                            assert(before.remove(id.0) =~= before);
                        }
                    },
                }
            },
            CablePort::FrontPort(id) => {
                let ghost before = self.front_ports@;
                match self.front_ports.remove(&id.0) {
                    Some(d) => {
                        let data = FrontPort {
                            name: d.name,
                            device: d.device,
                            rear_port: d.rear_port,
                            cable: Some(CableId(cable)),
                        };
                        proof {
                            assert(table_view(before.remove(id.0).insert(id.0, data))
                                =~= table_view(before).insert(id.0, data@));
                        }
                        self.front_ports.insert(id.0, data);
                    },
                    None => {
                        proof {
                            assert(before.remove(id.0) =~= before);
                        }
                    },
                }
            },
            CablePort::RearPort(id) => {
                let ghost before = self.rear_ports@;
                match self.rear_ports.remove(&id.0) {
                    Some(d) => {
                        let data = RearPort {
                            name: d.name,
                            device: d.device,
                            front_port: d.front_port,
                            cable: Some(CableId(cable)),
                        };
                        proof {
                            assert(table_view(before.remove(id.0).insert(id.0, data))
                                =~= table_view(before).insert(id.0, data@));
                        }
                        self.rear_ports.insert(id.0, data);
                    },
                    None => {
                        proof {
                            assert(before.remove(id.0) =~= before);
                        }
                    },
                }
            },
        }
    }

    fn attach_all(&mut self, ports: &Vec<CablePort>, cable: u32)
        ensures
            final(self)@ == attached_all(old(self)@, ports@, cable),
    {
        let mut i: usize = 0;
        proof {
            assert(ports@.take(0) =~= Seq::<CablePort>::empty());
        }
        while i < ports.len()
            invariant
                i <= ports.len(),
                self@ == attached_all(old(self)@, ports@.take(i as int), cable),
            decreases ports.len() - i,
        {
            proof {
                assert(ports@.take(i as int + 1).drop_last() =~= ports@.take(i as int));
                assert(ports@.take(i as int + 1).last() == ports@[i as int]);
            }
            self.attach(ports[i], cable);
            i += 1;
        }
        proof {
            assert(ports@.take(ports.len() as int) =~= ports@);
        }
    }
}

impl Building {
    /// Takes a layer 2 VPN into the snapshot.
    pub fn add_l2vpn(&mut self, l: &L2vpnRecord)
        ensures
            final(self)@ == with_l2vpn(old(self)@, *l),
    {
        if !is_text(&l.type_, "vxlan") {
            return ;
        }
        match (parse_id(l.id.as_str()), l.identifier) {
            (Some(id), Some(identifier)) => {
                let mut interfaces: Vec<u32> = Vec::new();
                let mut vlans: Vec<u32> = Vec::new();
                let ghost start = EndScan {
                    interfaces: Seq::empty(),
                    vlans: Seq::empty(),
                    vxlan_of_vlan: self.vxlan_of_vlan@,
                };
                let mut i: usize = 0;
                proof {
                    assert(l.terminations@.take(0) =~= Seq::<AssignedObject>::empty());
                }
                while i < l.terminations.len()
                    invariant
                        i <= l.terminations.len(),
                        (EndScan {
                            interfaces: interfaces@,
                            vlans: vlans@,
                            vxlan_of_vlan: self.vxlan_of_vlan@,
                        }) == with_ends(start, id, l.terminations@.take(i as int)),
                        self.topology == old(self).topology,
                        self.controllers == old(self).controllers,
                        self.wlans_of_vlan == old(self).wlans_of_vlan,
                        self.interfaces_of_vlan == old(self).interfaces_of_vlan,
                        self.interface_of_address == old(self).interface_of_address,
                        self.prefix_idx == old(self).prefix_idx,
                    decreases l.terminations.len() - i,
                {
                    proof {
                        assert(l.terminations@.take(i as int + 1).drop_last()
                            =~= l.terminations@.take(i as int));
                        assert(l.terminations@.take(i as int + 1).last()
                            == l.terminations@[i as int]);
                    }
                    match &l.terminations[i] {
                        AssignedObject::InterfaceType(r) => match parse_id(r.id.as_str()) {
                            Some(x) => {
                                insert_sorted(&mut interfaces, x);
                            },
                            None => {},
                        },
                        AssignedObject::VLANType(r) => match parse_id(r.id.as_str()) {
                            Some(v) => {
                                insert_sorted(&mut vlans, v);
                                self.vxlan_of_vlan.insert(v, id);
                            },
                            None => {},
                        },
                        AssignedObject::VMInterfaceType => {},
                    }
                    i += 1;
                }
                proof {
                    assert(l.terminations@.take(l.terminations.len() as int) =~= l.terminations@);
                }
                let data = VxlanData {
                    name: l.name.clone(),
                    vni: #[verifier::truncate]
                    (identifier as u32),
                    interface_terminations: interface_ids(&interfaces),
                    vlan_terminations: vlan_ids(&vlans),
                };
                proof {
                    lemma_table_insert(self.topology.vxlans@, id, data);
                }
                self.topology.vxlans.insert(id, data);
            },
            _ => {},
        }
    }

    /// Takes the layer 2 VPNs into the snapshot.
    pub fn add_l2vpns(&mut self, ls: &Vec<L2vpnRecord>)
        ensures
            final(self)@ == with_l2vpns(old(self)@, ls@),
    {
        let mut i: usize = 0;
        proof {
            assert(ls@.take(0) =~= Seq::<L2vpnRecord>::empty());
        }
        while i < ls.len()
            invariant
                i <= ls.len(),
                self@ == with_l2vpns(old(self)@, ls@.take(i as int)),
            decreases ls.len() - i,
        {
            proof {
                assert(ls@.take(i as int + 1).drop_last() =~= ls@.take(i as int));
                assert(ls@.take(i as int + 1).last() == ls@[i as int]);
            }
            self.add_l2vpn(&ls[i]);
            i += 1;
        }
        proof {
            assert(ls@.take(ls.len() as int) =~= ls@);
        }
    }

    /// Takes a VLAN of the group `group` into the snapshot.
    fn add_vlan(&mut self, ids: &mut Vec<u32>, group: u32, v: &VlanRecord)
        ensures
            (VlanScan { b: final(self)@, ids: final(ids)@ }) == with_vlan(
                VlanScan { b: old(self)@, ids: old(ids)@ },
                group,
                *v,
            ),
    {
        match parse_id(v.id.as_str()) {
            Some(id) => {
                insert_sorted(ids, id);
                let ghost if_before = self.interfaces_of_vlan@;
                let ghost wlan_before = self.wlans_of_vlan@;
                let terminations = match self.interfaces_of_vlan.remove(&id) {
                    Some(list) => interface_ids(&list),
                    None => Vec::new(),
                };
                let wlans = match self.wlans_of_vlan.remove(&id) {
                    Some(list) => wlan_ids(&list),
                    None => Vec::new(),
                };
                proof {
                    assert(table_view(if_before.remove(id)) =~= table_view(if_before).remove(id));
                    assert(table_view(wlan_before.remove(id)) =~= table_view(wlan_before).remove(id));
                    assert(terminations@ =~= as_interfaces(list_at(table_view(if_before), id)));
                    assert(wlans@ =~= as_wlans(list_at(table_view(wlan_before), id)));
                }
                let data = VlanData {
                    name: v.name.clone(),
                    vlan_id: #[verifier::truncate]
                    (v.vid as u16),
                    group: VlanGroupId(group),
                    terminations,
                    vxlan: match self.vxlan_of_vlan.get(&id) {
                        Some(x) => Some(VxlanId(*x)),
                        None => None,
                    },
                    wlans,
                };
                proof {
                    lemma_table_insert(self.topology.vlans@, id, data);
                }
                self.topology.vlans.insert(id, data);
            },
            None => {},
        }
    }

    /// Takes a group of VLANs into the snapshot.
    pub fn add_vlan_group(&mut self, g: &VlanGroupRecord)
        ensures
            final(self)@ == with_vlan_group(old(self)@, *g),
    {
        match parse_id(g.id.as_str()) {
            Some(gid) => {
                let mut ids: Vec<u32> = Vec::new();
                let ghost start = VlanScan { b: self@, ids: Seq::empty() };
                let mut i: usize = 0;
                proof {
                    assert(g.vlans@.take(0) =~= Seq::<VlanRecord>::empty());
                }
                while i < g.vlans.len()
                    invariant
                        i <= g.vlans.len(),
                        (VlanScan { b: self@, ids: ids@ }) == with_vlans(
                            start,
                            gid,
                            g.vlans@.take(i as int),
                        ),
                    decreases g.vlans.len() - i,
                {
                    proof {
                        assert(g.vlans@.take(i as int + 1).drop_last() =~= g.vlans@.take(i as int));
                        assert(g.vlans@.take(i as int + 1).last() == g.vlans@[i as int]);
                    }
                    self.add_vlan(&mut ids, gid, &g.vlans[i]);
                    i += 1;
                }
                proof {
                    assert(g.vlans@.take(g.vlans.len() as int) =~= g.vlans@);
                }
                let data = VlanGroupData { vlans: vlan_ids(&ids) };
                proof {
                    lemma_table_insert(self.topology.vlan_groups@, gid, data);
                }
                self.topology.vlan_groups.insert(gid, data);
            },
            None => {},
        }
    }

    /// Takes the groups of VLANs into the snapshot.
    pub fn add_vlan_groups(&mut self, gs: &Vec<VlanGroupRecord>)
        ensures
            final(self)@ == with_vlan_groups(old(self)@, gs@),
    {
        let mut i: usize = 0;
        proof {
            assert(gs@.take(0) =~= Seq::<VlanGroupRecord>::empty());
        }
        while i < gs.len()
            invariant
                i <= gs.len(),
                self@ == with_vlan_groups(old(self)@, gs@.take(i as int)),
            decreases gs.len() - i,
        {
            proof {
                assert(gs@.take(i as int + 1).drop_last() =~= gs@.take(i as int));
                assert(gs@.take(i as int + 1).last() == gs@[i as int]);
            }
            self.add_vlan_group(&gs[i]);
            i += 1;
        }
        proof {
            assert(gs@.take(gs.len() as int) =~= gs@);
        }
    }

    /// Takes a cable into the snapshot.
    pub fn add_cable(&mut self, c: &CableRecord)
        ensures
            final(self)@ == with_cable(old(self)@, *c),
    {
        match parse_id(c.id.as_str()) {
            Some(id) => {
                let port_a = ports_of(&c.a_terminations);
                let port_b = ports_of(&c.b_terminations);
                self.topology.attach_all(&port_a, id);
                self.topology.attach_all(&port_b, id);
                let data = Cable { port_a, port_b };
                proof {
                    lemma_table_insert(self.topology.cables@, id, data);
                }
                self.topology.cables.insert(id, data);
            },
            None => {},
        }
    }

    /// Takes the cables into the snapshot.
    pub fn add_cables(&mut self, cs: &Vec<CableRecord>)
        ensures
            final(self)@ == with_cables(old(self)@, cs@),
    {
        let mut i: usize = 0;
        proof {
            assert(cs@.take(0) =~= Seq::<CableRecord>::empty());
        }
        while i < cs.len()
            invariant
                i <= cs.len(),
                self@ == with_cables(old(self)@, cs@.take(i as int)),
            decreases cs.len() - i,
        {
            proof {
                assert(cs@.take(i as int + 1).drop_last() =~= cs@.take(i as int));
                assert(cs@.take(i as int + 1).last() == cs@[i as int]);
            }
            self.add_cable(&cs[i]);
            i += 1;
        }
        proof {
            assert(cs@.take(cs.len() as int) =~= cs@);
        }
    }
}

} // verus!
