//! Building a snapshot from the records of the inventory.
//!
//! The records are taken in the order in which the inventory service lists
//! them: the groups of wireless networks, the devices with their ports, the
//! VXLANs, the VLANs, the cables, the prefixes, the ranges and the
//! addresses. A record that refers to another one finds it only where that
//! one was taken before; a record with the id of an earlier one takes its
//! place.

use crate::inventory::IdRef;
use crate::inventory::WirelessLanGroupRecord;
use crate::inventory::WirelessLanRecord;
use crate::ip::IpNet;
use crate::parse::parse_id;
use crate::parse::parse_u32;
use crate::snapshot::lemma_table_insert;
use crate::snapshot::table_view;
use crate::snapshot::TopologyView;
use crate::snapshot::WlanAuthView;
use crate::snapshot::WlanDataView;
use crate::snapshot::WlanGroupDataView;
use crate::text::is_text;
use crate::topology::DeviceId;
use crate::topology::InterfaceId;
use crate::topology::IpPrefixId;
use crate::topology::Topology;
use crate::topology::VlanId;
use crate::topology::WlanAuth;
use crate::topology::WlanData;
use crate::topology::WlanGroupData;
use crate::topology::WlanGroupId;
use crate::topology::WlanId;
use crate::topology::WlanOpenSettings;
use crate::topology::WlanWpaSettings;
use std::collections::HashMap;
use vstd::prelude::*;
use vstd::std_specs::hash::*;
use vstd::string::*;

verus! {

broadcast use vstd::std_specs::hash::group_hash_axioms;

/// The ascending list with `x` in it, once.
pub open spec fn sorted_with(s: Seq<u32>, x: u32) -> Seq<u32>
    decreases s.len(),
{
    if s.len() == 0 {
        seq![x]
    } else if s[0] == x {
        s
    } else if x < s[0] {
        seq![x] + s
    } else {
        seq![s[0]] + sorted_with(s.skip(1), x)
    }
}

proof fn lemma_sorted_with_at(s: Seq<u32>, x: u32, at: int)
    requires
        0 <= at <= s.len(),
        forall|j: int| 0 <= j < at ==> (#[trigger] s[j]) < x,
        at < s.len() ==> x <= s[at],
    ensures
        at < s.len() && s[at] == x ==> sorted_with(s, x) == s,
        !(at < s.len() && s[at] == x) ==> sorted_with(s, x) == s.insert(at, x),
    decreases at,
{
    if at == 0 {
        if !(s.len() > 0 && s[0] == x) {
            assert(seq![x] + s =~= s.insert(0, x));
        }
    } else {
        let t = s.skip(1);
        assert(s[0] < x);
        assert forall|j: int| 0 <= j < at - 1 implies (#[trigger] t[j]) < x by {
            assert(t[j] == s[j + 1]);
        }
        lemma_sorted_with_at(t, x, at - 1);
        if at < s.len() && s[at] == x {
            assert(seq![s[0]] + t =~= s);
        } else {
            assert(seq![s[0]] + t.insert(at - 1, x) =~= s.insert(at, x));
        }
    }
}

/// Puts `x` at its place in the ascending list, where it is not in it.
pub(crate) fn insert_sorted(list: &mut Vec<u32>, x: u32)
    ensures
        final(list)@ == sorted_with(old(list)@, x),
{
    let mut at: usize = 0;
    while at < list.len() && list[at] < x
        invariant
            at <= list.len(),
            list@ == old(list)@,
            forall|j: int| 0 <= j < at ==> (#[trigger] list@[j]) < x,
        decreases list.len() - at,
    {
        at += 1;
    }
    proof {
        lemma_sorted_with_at(list@, x, at as int);
    }
    if !(at < list.len() && list[at] == x) {
        list.insert(at, x);
    }
}

/// The list under a key; empty where there is none.
pub open spec fn list_at(m: Map<u32, Seq<u32>>, k: u32) -> Seq<u32> {
    if m.contains_key(k) {
        m[k]
    } else {
        Seq::empty()
    }
}

/// The lists with `v` put at its place in the ascending list under `k`.
pub open spec fn sorted_added(m: Map<u32, Seq<u32>>, k: u32, v: u32) -> Map<u32, Seq<u32>> {
    m.insert(k, sorted_with(list_at(m, k), v))
}

pub(crate) fn add_sorted(map: &mut HashMap<u32, Vec<u32>>, k: u32, v: u32)
    ensures
        table_view(final(map)@) == sorted_added(table_view(old(map)@), k, v),
{
    let mut list = match map.remove(&k) {
        Some(l) => l,
        None => Vec::new(),
    };
    insert_sorted(&mut list, v);
    map.insert(k, list);
    proof {
        assert(table_view(map@) =~= sorted_added(table_view(old(map)@), k, v));
    }
}

/// The id that a reference names.
pub open spec fn ref_id(r: Option<IdRef>) -> Option<u32> {
    match r {
        Some(x) => parse_u32(x.id@),
        None => None,
    }
}

pub(crate) fn id_of_ref(r: &Option<IdRef>) -> (id: Option<u32>)
    ensures
        id == ref_id(*r),
{
    match r {
        Some(x) => parse_id(x.id.as_str()),
        None => None,
    }
}

/// The ids as ids of wireless networks.
pub open spec fn as_wlans(ids: Seq<u32>) -> Seq<WlanId> {
    Seq::new(ids.len(), |i: int| WlanId(ids[i]))
}

/// The ids as ids of interfaces.
pub open spec fn as_interfaces(ids: Seq<u32>) -> Seq<InterfaceId> {
    Seq::new(ids.len(), |i: int| InterfaceId(ids[i]))
}

/// The ids as ids of VLANs.
pub open spec fn as_vlans(ids: Seq<u32>) -> Seq<VlanId> {
    Seq::new(ids.len(), |i: int| VlanId(ids[i]))
}

pub(crate) fn wlan_ids(ids: &Vec<u32>) -> (r: Vec<WlanId>)
    ensures
        r@ == as_wlans(ids@),
{
    let mut out: Vec<WlanId> = Vec::new();
    let mut i: usize = 0;
    while i < ids.len()
        invariant
            i <= ids.len(),
            out@ == as_wlans(ids@).take(i as int),
        decreases ids.len() - i,
    {
        out.push(WlanId(ids[i]));
        proof {
            assert(as_wlans(ids@).take(i as int).push(WlanId(ids@[i as int])) =~= as_wlans(
                ids@,
            ).take(i as int + 1));
        }
        i += 1;
    }
    proof {
        assert(as_wlans(ids@).take(ids.len() as int) =~= as_wlans(ids@));
    }
    out
}

pub(crate) fn interface_ids(ids: &Vec<u32>) -> (r: Vec<InterfaceId>)
    ensures
        r@ == as_interfaces(ids@),
{
    let mut out: Vec<InterfaceId> = Vec::new();
    let mut i: usize = 0;
    while i < ids.len()
        invariant
            i <= ids.len(),
            out@ == as_interfaces(ids@).take(i as int),
        decreases ids.len() - i,
    {
        out.push(InterfaceId(ids[i]));
        proof {
            assert(as_interfaces(ids@).take(i as int).push(InterfaceId(ids@[i as int]))
                =~= as_interfaces(ids@).take(i as int + 1));
        }
        i += 1;
    }
    proof {
        assert(as_interfaces(ids@).take(ids.len() as int) =~= as_interfaces(ids@));
    }
    out
}

pub(crate) fn vlan_ids(ids: &Vec<u32>) -> (r: Vec<VlanId>)
    ensures
        r@ == as_vlans(ids@),
{
    let mut out: Vec<VlanId> = Vec::new();
    let mut i: usize = 0;
    while i < ids.len()
        invariant
            i <= ids.len(),
            out@ == as_vlans(ids@).take(i as int),
        decreases ids.len() - i,
    {
        out.push(VlanId(ids[i]));
        proof {
            assert(as_vlans(ids@).take(i as int).push(VlanId(ids@[i as int])) =~= as_vlans(
                ids@,
            ).take(i as int + 1));
        }
        i += 1;
    }
    proof {
        assert(as_vlans(ids@).take(ids.len() as int) =~= as_vlans(ids@));
    }
    out
}

/// A snapshot in the making, with what is kept on the side to find the
/// records that later records refer to.
pub struct Building {
    pub topology: Topology,
    /// The group of wireless networks that each device is the controller of.
    pub controllers: HashMap<u32, u32>,
    /// The wireless networks of each VLAN, ascending.
    pub wlans_of_vlan: HashMap<u32, Vec<u32>>,
    /// The interfaces that are untagged for each VLAN, ascending.
    pub interfaces_of_vlan: HashMap<u32, Vec<u32>>,
    /// The interface of each address.
    pub interface_of_address: HashMap<u32, u32>,
    /// The VXLAN that backs each VLAN.
    pub vxlan_of_vlan: HashMap<u32, u32>,
    /// The prefixes, each network with its id, in the order of the records.
    pub prefix_idx: Vec<(IpNet, IpPrefixId)>,
}

/// A snapshot in the making as the specifications see it.
pub struct BuildingView {
    pub topology: TopologyView,
    pub controllers: Map<u32, u32>,
    pub wlans_of_vlan: Map<u32, Seq<u32>>,
    pub interfaces_of_vlan: Map<u32, Seq<u32>>,
    pub interface_of_address: Map<u32, u32>,
    pub vxlan_of_vlan: Map<u32, u32>,
    pub prefix_idx: Seq<(IpNet, IpPrefixId)>,
}

impl View for Building {
    type V = BuildingView;

    open spec fn view(&self) -> BuildingView {
        BuildingView {
            topology: self.topology@,
            controllers: self.controllers@,
            wlans_of_vlan: table_view(self.wlans_of_vlan@),
            interfaces_of_vlan: table_view(self.interfaces_of_vlan@),
            interface_of_address: self.interface_of_address@,
            vxlan_of_vlan: self.vxlan_of_vlan@,
            prefix_idx: self.prefix_idx@,
        }
    }
}

/// A snapshot without anything in it.
pub open spec fn nothing_built() -> BuildingView {
    BuildingView {
        topology: TopologyView {
            devices: Map::empty(),
            interfaces: Map::empty(),
            front_ports: Map::empty(),
            rear_ports: Map::empty(),
            cables: Map::empty(),
            vxlans: Map::empty(),
            wlan_groups: Map::empty(),
            wlans: Map::empty(),
            vlan_groups: Map::empty(),
            vlans: Map::empty(),
            ip_addresses: Map::empty(),
            ip_prefixes: Map::empty(),
            ip_ranges: Map::empty(),
        },
        controllers: Map::empty(),
        wlans_of_vlan: Map::empty(),
        interfaces_of_vlan: Map::empty(),
        interface_of_address: Map::empty(),
        vxlan_of_vlan: Map::empty(),
        prefix_idx: Seq::empty(),
    }
}

/// How a wireless network is secured: by a key for `wpa-personal`, not at
/// all but with encryption for `open`; a network that says neither is left
/// out.
pub open spec fn auth_of(w: WirelessLanRecord) -> Option<WlanAuthView> {
    match w.auth_type {
        Some(t) => if t@ == "wpa-personal"@ {
            Some(WlanAuthView::Wpa { key: w.auth_psk@ })
        } else if t@ == "open"@ {
            Some(WlanAuthView::Open { use_owe: true })
        } else {
            None
        },
        None => None,
    }
}

/// The id of a wireless network that is taken into the snapshot.
pub open spec fn wlan_id_of(w: WirelessLanRecord) -> Option<u32> {
    match (parse_u32(w.id@), auth_of(w)) {
        (Some(id), Some(_)) => Some(id),
        _ => None,
    }
}

/// The snapshot with a wireless network of the group `group`.
pub open spec fn with_wlan(b: BuildingView, group: u32, w: WirelessLanRecord) -> BuildingView {
    match wlan_id_of(w) {
        Some(id) => {
            let vlan = ref_id(w.vlan);
            BuildingView {
                topology: TopologyView {
                    wlans: b.topology.wlans.insert(
                        id,
                        WlanDataView {
                            ssid: w.ssid@,
                            vlan: match vlan {
                                Some(v) => Some(VlanId(v)),
                                None => None,
                            },
                            wlan_auth: auth_of(w)->0,
                            wlan_group: WlanGroupId(group),
                        },
                    ),
                    ..b.topology
                },
                wlans_of_vlan: match vlan {
                    Some(v) => sorted_added(b.wlans_of_vlan, v, id),
                    None => b.wlans_of_vlan,
                },
                ..b
            }
        },
        None => b,
    }
}

/// The snapshot with the wireless networks of the group `group`.
pub open spec fn with_wlans(b: BuildingView, group: u32, ws: Seq<WirelessLanRecord>) -> BuildingView
    decreases ws.len(),
{
    if ws.len() == 0 {
        b
    } else {
        with_wlan(with_wlans(b, group, ws.drop_last()), group, ws.last())
    }
}

/// The ids of the wireless networks that are taken into the snapshot,
/// ascending.
pub open spec fn taken_wlans(ws: Seq<WirelessLanRecord>) -> Seq<u32>
    decreases ws.len(),
{
    if ws.len() == 0 {
        Seq::empty()
    } else {
        match wlan_id_of(ws.last()) {
            Some(id) => sorted_with(taken_wlans(ws.drop_last()), id),
            None => taken_wlans(ws.drop_last()),
        }
    }
}

/// The snapshot with a group of wireless networks. A group without a
/// controller is left out.
pub open spec fn with_wlan_group(b: BuildingView, g: WirelessLanGroupRecord) -> BuildingView {
    match (parse_u32(g.id@), g.custom_fields.controller) {
        (Some(gid), Some(controller)) => {
            let filled = with_wlans(
                BuildingView { controllers: b.controllers.insert(controller, gid), ..b },
                gid,
                g.wireless_lans@,
            );
            BuildingView {
                topology: TopologyView {
                    wlan_groups: filled.topology.wlan_groups.insert(
                        gid,
                        WlanGroupDataView {
                            mgmt_vlan: match g.custom_fields.wlan_mgmt {
                                Some(v) => Some(VlanId(v)),
                                None => None,
                            },
                            controller: DeviceId(controller),
                            aps: Seq::empty(),
                            wlans: as_wlans(taken_wlans(g.wireless_lans@)),
                        },
                    ),
                    ..filled.topology
                },
                ..filled
            }
        },
        _ => b,
    }
}

/// The snapshot with the groups of wireless networks.
pub open spec fn with_wlan_groups(b: BuildingView, gs: Seq<WirelessLanGroupRecord>) -> BuildingView
    decreases gs.len(),
{
    if gs.len() == 0 {
        b
    } else {
        with_wlan_group(with_wlan_groups(b, gs.drop_last()), gs.last())
    }
}

impl Building {
    /// A snapshot without anything in it.
    pub fn new() -> (r: Building)
        ensures
            r@ == nothing_built(),
    {
        let r = Building {
            topology: Topology {
                devices: HashMap::new(),
                interfaces: HashMap::new(),
                front_ports: HashMap::new(),
                rear_ports: HashMap::new(),
                cables: HashMap::new(),
                vxlans: HashMap::new(),
                wlan_groups: HashMap::new(),
                wlans: HashMap::new(),
                vlan_groups: HashMap::new(),
                vlans: HashMap::new(),
                ip_addresses: HashMap::new(),
                ip_prefixes: HashMap::new(),
                ip_ranges: HashMap::new(),
            },
            controllers: HashMap::new(),
            wlans_of_vlan: HashMap::new(),
            interfaces_of_vlan: HashMap::new(),
            interface_of_address: HashMap::new(),
            vxlan_of_vlan: HashMap::new(),
            prefix_idx: Vec::new(),
        };
        proof {
            let e = nothing_built();
            assert(r@.topology.devices =~= e.topology.devices);
            assert(r@.topology.interfaces =~= e.topology.interfaces);
            assert(r@.topology.front_ports =~= e.topology.front_ports);
            assert(r@.topology.rear_ports =~= e.topology.rear_ports);
            assert(r@.topology.cables =~= e.topology.cables);
            assert(r@.topology.vxlans =~= e.topology.vxlans);
            assert(r@.topology.wlan_groups =~= e.topology.wlan_groups);
            assert(r@.topology.wlans =~= e.topology.wlans);
            assert(r@.topology.vlan_groups =~= e.topology.vlan_groups);
            assert(r@.topology.vlans =~= e.topology.vlans);
            assert(r@.topology.ip_prefixes =~= e.topology.ip_prefixes);
            assert(r@.wlans_of_vlan =~= e.wlans_of_vlan);
            assert(r@.interfaces_of_vlan =~= e.interfaces_of_vlan);
        }
        r
    }

    /// Takes a wireless network of the group `group` into the snapshot.
    fn add_wlan(&mut self, group: u32, w: &WirelessLanRecord) -> (id: Option<u32>)
        ensures
            final(self)@ == with_wlan(old(self)@, group, *w),
            id == wlan_id_of(*w),
    {
        let vlan = id_of_ref(&w.vlan);
        let auth = match &w.auth_type {
            Some(t) => if is_text(t, "wpa-personal") {
                Some(WlanAuth::Wpa(WlanWpaSettings { key: w.auth_psk.clone() }))
            } else if is_text(t, "open") {
                Some(WlanAuth::Open(WlanOpenSettings { use_owe: true }))
            } else {
                None
            },
            None => None,
        };
        match (parse_id(w.id.as_str()), auth) {
            (Some(id), Some(wlan_auth)) => {
                let data = WlanData {
                    ssid: w.ssid.clone(),
                    vlan: match vlan {
                        Some(v) => Some(VlanId(v)),
                        None => None,
                    },
                    wlan_auth,
                    wlan_group: WlanGroupId(group),
                };
                proof {
                    lemma_table_insert(self.topology.wlans@, id, data);
                }
                self.topology.wlans.insert(id, data);
                match vlan {
                    Some(v) => {
                        add_sorted(&mut self.wlans_of_vlan, v, id);
                    },
                    None => {},
                }
                Some(id)
            },
            _ => None,
        }
    }

    /// Takes a group of wireless networks into the snapshot.
    pub fn add_wlan_group(&mut self, g: &WirelessLanGroupRecord)
        ensures
            final(self)@ == with_wlan_group(old(self)@, *g),
    {
        match (parse_id(g.id.as_str()), g.custom_fields.controller) {
            (Some(gid), Some(controller)) => {
                self.controllers.insert(controller, gid);
                let ghost start = self@;
                let mut ids: Vec<u32> = Vec::new();
                let mut i: usize = 0;
                proof {
                    assert(g.wireless_lans@.take(0) =~= Seq::<WirelessLanRecord>::empty());
                }
                while i < g.wireless_lans.len()
                    invariant
                        i <= g.wireless_lans.len(),
                        self@ == with_wlans(start, gid, g.wireless_lans@.take(i as int)),
                        ids@ == taken_wlans(g.wireless_lans@.take(i as int)),
                    decreases g.wireless_lans.len() - i,
                {
                    proof {
                        assert(g.wireless_lans@.take(i as int + 1).drop_last()
                            =~= g.wireless_lans@.take(i as int));
                        assert(g.wireless_lans@.take(i as int + 1).last()
                            == g.wireless_lans@[i as int]);
                    }
                    match self.add_wlan(gid, &g.wireless_lans[i]) {
                        Some(id) => {
                            insert_sorted(&mut ids, id);
                        },
                        None => {},
                    }
                    i += 1;
                }
                proof {
                    assert(g.wireless_lans@.take(g.wireless_lans.len() as int)
                        =~= g.wireless_lans@);
                }
                let data = WlanGroupData {
                    mgmt_vlan: match g.custom_fields.wlan_mgmt {
                        Some(v) => Some(VlanId(v)),
                        None => None,
                    },
                    controller: DeviceId(controller),
                    aps: Vec::new(),
                    wlans: wlan_ids(&ids),
                };
                proof {
                    lemma_table_insert(self.topology.wlan_groups@, gid, data);
                }
                self.topology.wlan_groups.insert(gid, data);
            },
            _ => {},
        }
    }

    /// Takes the groups of wireless networks into the snapshot.
    pub fn add_wlan_groups(&mut self, gs: &Vec<WirelessLanGroupRecord>)
        ensures
            final(self)@ == with_wlan_groups(old(self)@, gs@),
    {
        let mut i: usize = 0;
        proof {
            assert(gs@.take(0) =~= Seq::<WirelessLanGroupRecord>::empty());
        }
        while i < gs.len()
            invariant
                i <= gs.len(),
                self@ == with_wlan_groups(old(self)@, gs@.take(i as int)),
            decreases gs.len() - i,
        {
            proof {
                assert(gs@.take(i as int + 1).drop_last() =~= gs@.take(i as int));
                assert(gs@.take(i as int + 1).last() == gs@[i as int]);
            }
            self.add_wlan_group(&gs[i]);
            i += 1;
        }
        proof {
            assert(gs@.take(gs.len() as int) =~= gs@);
        }
    }
}

} // verus!
