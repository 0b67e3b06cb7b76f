//! The transport of wireless networks to an access point.
//!
//! An access point of a WLAN group gets a bridge of its own, and on it a
//! VXLAN for each VXLAN that backs a VLAN of the group: the VLAN that the
//! group is managed in and the VLANs of its wireless networks. Each VXLAN
//! gets the other devices that take part in it as its remote ends.

use crate::access::DeviceAccess;
use crate::access::VlanAccess;
use crate::access::VxlanAccess;
use crate::access::WlanAccess;
use crate::access::WlanGroupAccess;
use crate::bridging::bridge_named;
use crate::bridging::bridge_port_on;
use crate::ip::IpAddr;
use crate::model::Bridge;
use crate::model::BridgePort;
use crate::model::BridgeView;
use crate::model::BridgeVlan;
use crate::model::BridgeVlanView;
use crate::model::ProtocolMode;
use crate::model::VlanIds;
use crate::model::Vxlan;
use crate::model::VxlanView;
use crate::model::VxlanVtep;
use crate::model::VxlanVtepView;
use crate::naming::cleaned;
use crate::naming::cleanup_name;
use crate::naming::kebab_case;
use crate::naming::to_kebab;
use crate::table::amended;
use crate::table::ensure;
use crate::table::ensured;
use crate::table::entry_views;
use crate::table::lemma_position;
use crate::table::put;
use crate::table::replace;
use crate::table::replaced;
use crate::target::BaseDeviceDataTarget;
use crate::target::TargetView;
use crate::text::views;
use crate::topology::DeviceId;
use crate::topology::InterfaceId;
use crate::topology::Topology;
use crate::topology::VlanId;
use crate::topology::VxlanId;
use crate::topology::WlanGroupId;
use crate::topology::WlanId;
use vstd::prelude::*;
use vstd::string::*;

verus! {

/// The name of the bridge of an access point.
pub open spec fn caps_bridge_name() -> Seq<char> {
    "bridge-caps"@
}

/// The primary IPv4 address of a device, where the inventory has one that
/// is an IPv4 address.
pub open spec fn primary_v4_of(t: &Topology, device: DeviceId) -> Option<IpAddr> {
    match t.spec_device(device) {
        Some(d) => match d.primary_ip_v4 {
            Some(id) => match t.spec_ip_address(id) {
                Some(a) => match a.ip.spec_addr() {
                    IpAddr::V4(x) => Some(IpAddr::V4(x)),
                    _ => None,
                },
                None => None,
            },
            None => None,
        },
        None => None,
    }
}

/// The address that the inventory has as the primary IPv4 address of a
/// device, of whichever family it is.
pub open spec fn router_address_of(t: &Topology, device: DeviceId) -> Option<IpAddr> {
    match t.spec_device(device) {
        Some(d) => match d.primary_ip_v4 {
            Some(id) => match t.spec_ip_address(id) {
                Some(a) => Some(a.ip.spec_addr()),
                None => None,
            },
            None => None,
        },
        None => None,
    }
}

/// The devices of the interfaces that the snapshot holds.
pub open spec fn interface_devices(t: &Topology, ids: Seq<InterfaceId>) -> Seq<DeviceId>
    decreases ids.len(),
{
    if ids.len() == 0 {
        Seq::empty()
    } else {
        let before = interface_devices(t, ids.drop_last());
        match t.spec_interface(ids.last()) {
            Some(d) => before.push(d.device),
            None => before,
        }
    }
}

/// The access points of a WLAN group and then its controller.
pub open spec fn group_devices(t: &Topology, group: WlanGroupId) -> Seq<DeviceId> {
    match t.spec_wlan_group(group) {
        Some(g) => g.aps@.push(g.controller),
        None => Seq::empty(),
    }
}

/// The devices of the groups of the wireless networks.
pub open spec fn wlan_devices(t: &Topology, ids: Seq<WlanId>) -> Seq<DeviceId>
    decreases ids.len(),
{
    if ids.len() == 0 {
        Seq::empty()
    } else {
        let before = wlan_devices(t, ids.drop_last());
        match t.spec_wlan(ids.last()) {
            Some(w) => before + group_devices(t, w.wlan_group),
            None => before,
        }
    }
}

/// The devices of the groups of the wireless networks of the VLANs.
pub open spec fn vlan_devices(t: &Topology, ids: Seq<VlanId>) -> Seq<DeviceId>
    decreases ids.len(),
{
    if ids.len() == 0 {
        Seq::empty()
    } else {
        let before = vlan_devices(t, ids.drop_last());
        match t.spec_vlan(ids.last()) {
            Some(v) => before + wlan_devices(t, v.wlans@),
            None => before,
        }
    }
}

/// The list with `a` at its end, where it was not in it.
pub open spec fn with_address(list: Seq<IpAddr>, a: IpAddr) -> Seq<IpAddr> {
    if list.contains(a) {
        list
    } else {
        list.push(a)
    }
}

/// The primary IPv4 addresses of the devices, each once, in the order in
/// which they were first seen.
pub open spec fn device_addresses(t: &Topology, devices: Seq<DeviceId>) -> Seq<IpAddr>
    decreases devices.len(),
{
    if devices.len() == 0 {
        Seq::empty()
    } else {
        let before = device_addresses(t, devices.drop_last());
        match primary_v4_of(t, devices.last()) {
            Some(a) => with_address(before, a),
            None => before,
        }
    }
}

/// The devices that take part in a VXLAN: those of the interfaces that it
/// ends on, and those of the wireless groups of the VLANs that it backs.
pub open spec fn vtep_devices(t: &Topology, vxlan: VxlanId) -> Seq<DeviceId> {
    match t.spec_vxlan(vxlan) {
        Some(d) => interface_devices(t, d.interface_terminations@) + vlan_devices(
            t,
            d.vlan_terminations@,
        ),
        None => Seq::empty(),
    }
}

/// The ends of a VXLAN: the primary IPv4 addresses of the devices that
/// take part in it.
pub open spec fn spec_vteps(t: &Topology, vxlan: VxlanId) -> Seq<IpAddr> {
    device_addresses(t, vtep_devices(t, vxlan))
}

/// Adds the ids at the end of the list.
fn append_devices(out: &mut Vec<DeviceId>, more: &Vec<DeviceId>)
    ensures
        final(out)@ == old(out)@ + more@,
{
    let mut i: usize = 0;
    proof {
        assert(old(out)@ + more@.take(0) =~= old(out)@);
    }
    while i < more.len()
        invariant
            i <= more.len(),
            out@ == old(out)@ + more@.take(i as int),
        decreases more.len() - i,
    {
        out.push(more[i]);
        proof {
            assert(old(out)@ + more@.take(i as int + 1) =~= (old(out)@ + more@.take(i as int)).push(
                more@[i as int],
            ));
        }
        i += 1;
    }
    proof {
        assert(more@.take(more.len() as int) =~= more@);
    }
}

fn devices_of_group(group: &WlanGroupAccess<'_>) -> (r: Vec<DeviceId>)
    ensures
        r@ == group_devices(group.topology, group.id),
{
    let mut out: Vec<DeviceId> = Vec::new();
    let aps = group.aps();
    let mut i: usize = 0;
    while i < aps.len()
        invariant
            i <= aps.len(),
            aps@.len() == group.spec_aps().len(),
            forall|k: int| 0 <= k < aps@.len() ==> (#[trigger] aps@[k]).id == group.spec_aps()[k],
            out@ == group.spec_aps().take(i as int),
        decreases aps.len() - i,
    {
        out.push(aps[i].id);
        proof {
            assert(group.spec_aps().take(i as int).push(aps@[i as int].id) =~= group.spec_aps().take(
                i as int + 1,
            ));
        }
        i += 1;
    }
    proof {
        assert(group.spec_aps().take(aps@.len() as int) =~= group.spec_aps());
    }
    match group.controller() {
        Some(c) => {
            out.push(c.id);
        },
        None => {},
    }
    out
}

fn devices_of_wlans(t: &Topology, wlans: &Vec<WlanAccess<'_>>) -> (r: Vec<DeviceId>)
    requires
        forall|k: int| 0 <= k < wlans@.len() ==> (#[trigger] wlans@[k]).topology == t,
    ensures
        r@ == wlan_devices(t, Seq::new(wlans@.len(), |k: int| wlans@[k].id)),
{
    let ghost ids = Seq::new(wlans@.len(), |k: int| wlans@[k].id);
    let mut out: Vec<DeviceId> = Vec::new();
    let mut i: usize = 0;
    proof {
        assert(ids.take(0) =~= Seq::<WlanId>::empty());
    }
    while i < wlans.len()
        invariant
            i <= wlans.len(),
            ids == Seq::new(wlans@.len(), |k: int| wlans@[k].id),
            forall|k: int| 0 <= k < wlans@.len() ==> (#[trigger] wlans@[k]).topology == t,
            out@ == wlan_devices(t, ids.take(i as int)),
        decreases wlans.len() - i,
    {
        proof {
            assert(ids.take(i as int + 1).drop_last() =~= ids.take(i as int));
            assert(ids.take(i as int + 1).last() == wlans@[i as int].id);
            assert(wlans@[i as int].topology == t);
        }
        match wlans[i].wlan_group() {
            Some(group) => {
                let more = devices_of_group(&group);
                append_devices(&mut out, &more);
            },
            None => {},
        }
        i += 1;
    }
    proof {
        assert(ids.take(wlans@.len() as int) =~= ids);
    }
    out
}

/// Adds `a` at the end of the list, where it is not in it.
fn push_address(list: &mut Vec<IpAddr>, a: IpAddr)
    ensures
        final(list)@ == with_address(old(list)@, a),
{
    let mut i: usize = 0;
    while i < list.len()
        invariant
            i <= list.len(),
            list@ == old(list)@,
            forall|k: int| 0 <= k < i ==> list@[k] != a,
        decreases list.len() - i,
    {
        if list[i] == a {
            return ;
        }
        i += 1;
    }
    list.push(a);
}

impl<'a> VxlanAccess<'a> {
    /// The ends of the VXLAN: the primary IPv4 addresses of the devices
    /// that take part in it, each once.
    pub fn vteps(&self) -> (r: Vec<IpAddr>)
        ensures
            r@ == spec_vteps(self.topology, self.id),
    {
        let t = self.topology;
        let mut devices: Vec<DeviceId> = Vec::new();
        let interfaces = self.interface_terminations();
        let ghost if_ids = self.spec_interface_terminations();
        let mut i: usize = 0;
        proof {
            assert(if_ids.take(0) =~= Seq::<InterfaceId>::empty());
        }
        while i < interfaces.len()
            invariant
                i <= interfaces.len(),
                interfaces@.len() == if_ids.len(),
                forall|k: int|
                    0 <= k < interfaces@.len() ==> (#[trigger] interfaces@[k]).topology == t
                        && interfaces@[k].id == if_ids[k],
                devices@ == interface_devices(t, if_ids.take(i as int)),
            decreases interfaces.len() - i,
        {
            proof {
                assert(if_ids.take(i as int + 1).drop_last() =~= if_ids.take(i as int));
                assert(if_ids.take(i as int + 1).last() == interfaces@[i as int].id);
            }
            match interfaces[i].device() {
                Some(d) => {
                    devices.push(d.id);
                },
                None => {},
            }
            i += 1;
        }
        proof {
            assert(if_ids.take(interfaces@.len() as int) =~= if_ids);
        }
        let ghost first = devices@;
        let vlans = self.vlan_terminations();
        let ghost vlan_ids = self.spec_vlan_terminations();
        let mut i: usize = 0;
        proof {
            assert(vlan_ids.take(0) =~= Seq::<VlanId>::empty());
            assert(first + Seq::<DeviceId>::empty() =~= first);
        }
        while i < vlans.len()
            invariant
                i <= vlans.len(),
                vlans@.len() == vlan_ids.len(),
                forall|k: int|
                    0 <= k < vlans@.len() ==> (#[trigger] vlans@[k]).topology == t && vlans@[k].id
                        == vlan_ids[k],
                devices@ == first + vlan_devices(t, vlan_ids.take(i as int)),
            decreases vlans.len() - i,
        {
            proof {
                assert(vlan_ids.take(i as int + 1).drop_last() =~= vlan_ids.take(i as int));
                assert(vlan_ids.take(i as int + 1).last() == vlans@[i as int].id);
            }
            let ghost before = vlan_devices(t, vlan_ids.take(i as int));
            let wlans = vlans[i].wlan();
            proof {
                assert(Seq::new(wlans@.len(), |k: int| wlans@[k].id) =~= vlans@[i as int].spec_wlans());
            }
            let more = devices_of_wlans(t, &wlans);
            append_devices(&mut devices, &more);
            proof {
                match t.spec_vlan(vlans@[i as int].id) {
                    Some(v) => {
                        assert((first + before) + more@ =~= first + (before + more@));
                    },
                    None => {
                        assert(more@ =~= Seq::<DeviceId>::empty());
                        assert((first + before) + more@ =~= first + before);
                    },
                }
            }
            i += 1;
        }
        proof {
            assert(vlan_ids.take(vlans@.len() as int) =~= vlan_ids);
        }
        addresses_of(t, &devices)
    }
}

/// The primary IPv4 addresses of the devices, each once.
fn addresses_of(t: &Topology, devices: &Vec<DeviceId>) -> (r: Vec<IpAddr>)
    ensures
        r@ == device_addresses(t, devices@),
{
    let mut out: Vec<IpAddr> = Vec::new();
    let mut i: usize = 0;
    proof {
        assert(devices@.take(0) =~= Seq::<DeviceId>::empty());
    }
    while i < devices.len()
        invariant
            i <= devices.len(),
            out@ == device_addresses(t, devices@.take(i as int)),
        decreases devices.len() - i,
    {
        proof {
            assert(devices@.take(i as int + 1).drop_last() =~= devices@.take(i as int));
            assert(devices@.take(i as int + 1).last() == devices@[i as int]);
        }
        let access = DeviceAccess { topology: t, id: devices[i] };
        match access.primary_ip_v4() {
            Some(ip) => match ip.addr() {
                Some(IpAddr::V4(x)) => {
                    push_address(&mut out, IpAddr::V4(x));
                },
                _ => {},
            },
            None => {},
        }
        i += 1;
    }
    proof {
        assert(devices@.take(devices.len() as int) =~= devices@);
    }
    out
}

/// The list with `v` at its end, where it was not in it.
pub open spec fn with_vlan(list: Seq<VlanId>, v: VlanId) -> Seq<VlanId> {
    if list.contains(v) {
        list
    } else {
        list.push(v)
    }
}

/// The list with `v` at its end, where it was not in it.
pub open spec fn with_vxlan_id(list: Seq<VxlanId>, v: VxlanId) -> Seq<VxlanId> {
    if list.contains(v) {
        list
    } else {
        list.push(v)
    }
}

/// The VLANs of the wireless networks, each once, after those in `acc`.
pub open spec fn wlan_vlans(t: &Topology, acc: Seq<VlanId>, wlans: Seq<WlanId>) -> Seq<VlanId>
    decreases wlans.len(),
{
    if wlans.len() == 0 {
        acc
    } else {
        let before = wlan_vlans(t, acc, wlans.drop_last());
        match t.spec_wlan(wlans.last()) {
            Some(w) => match w.vlan {
                Some(v) => with_vlan(before, v),
                None => before,
            },
            None => before,
        }
    }
}

/// The VLANs of a WLAN group: the VLAN that it is managed in, then the
/// VLANs of its wireless networks, each once.
pub open spec fn group_vlans(t: &Topology, group: WlanGroupId) -> Seq<VlanId> {
    match t.spec_wlan_group(group) {
        Some(g) => wlan_vlans(
            t,
            match g.mgmt_vlan {
                Some(v) => seq![v],
                None => Seq::empty(),
            },
            g.wlans@,
        ),
        None => Seq::empty(),
    }
}

/// The VXLANs that back the VLANs, each once.
pub open spec fn vlan_vxlans(t: &Topology, vlans: Seq<VlanId>) -> Seq<VxlanId>
    decreases vlans.len(),
{
    if vlans.len() == 0 {
        Seq::empty()
    } else {
        let before = vlan_vxlans(t, vlans.drop_last());
        match t.spec_vlan(vlans.last()) {
            Some(v) => match v.vxlan {
                Some(x) => with_vxlan_id(before, x),
                None => before,
            },
            None => before,
        }
    }
}

/// The remote ends among `ends`: all but `my_ip`.
pub open spec fn remote_ends(ends: Seq<IpAddr>, my_ip: IpAddr) -> Seq<IpAddr>
    decreases ends.len(),
{
    if ends.len() == 0 {
        Seq::empty()
    } else if ends.last() == my_ip {
        remote_ends(ends.drop_last(), my_ip)
    } else {
        remote_ends(ends.drop_last(), my_ip).push(ends.last())
    }
}

/// The remote ends of the VXLAN interface `name`, with the ends `ends`
/// added, each in the place of what was there for it.
pub open spec fn with_vteps(vteps: Seq<VxlanVtepView>, name: Seq<char>, ends: Seq<IpAddr>) -> Seq<
    VxlanVtepView,
>
    decreases ends.len(),
{
    if ends.len() == 0 {
        vteps
    } else {
        replaced::<VxlanVtep>(
            with_vteps(vteps, name, ends.drop_last()),
            VxlanVtepView { interface: name, remote_ip: ends.last() },
        )
    }
}

/// The configuration with the VXLAN interface `name` for the network
/// `vni` on the bridge of the access point, carrying every tag, with the
/// remote ends `remotes`.
pub open spec fn with_named_vxlan(t: TargetView, name: Seq<char>, vni: u32, remotes: Seq<IpAddr>) -> TargetView {
    TargetView {
        bridge_port: ensured::<BridgePort>(t.bridge_port, bridge_port_on(caps_bridge_name(), name)),
        bridge_vlan: ensured::<BridgeVlan>(
            t.bridge_vlan,
            BridgeVlanView {
                bridge: caps_bridge_name(),
                tagged: seq![name],
                untagged: Seq::empty(),
                vlan_ids: VlanIds::Range { start: 1, end: 4094 },
            },
        ),
        vxlan: replaced::<Vxlan>(t.vxlan, VxlanView { name, vni }),
        vxlan_vteps: with_vteps(t.vxlan_vteps, name, remotes),
        ..t
    }
}

/// The name of the interface of a VXLAN: `vxlan-` and the name of the
/// VXLAN, cleaned, in kebab case.
pub open spec fn vxlan_interface_name(name: Seq<char>) -> Seq<char> {
    kebab_case("vxlan-"@ + cleaned(name))
}

/// The configuration with the VXLAN `vxlan`, where the snapshot holds it.
pub open spec fn with_vxlan(t: TargetView, topology: &Topology, vxlan: VxlanId, my_ip: IpAddr) -> TargetView {
    match topology.spec_vxlan(vxlan) {
        Some(d) => with_named_vxlan(
            t,
            vxlan_interface_name(d.name@),
            d.vni,
            remote_ends(spec_vteps(topology, vxlan), my_ip),
        ),
        None => t,
    }
}

/// The configuration with each of the VXLANs.
pub open spec fn with_vxlans(t: TargetView, topology: &Topology, vxlans: Seq<VxlanId>, my_ip: IpAddr) -> TargetView
    decreases vxlans.len(),
{
    if vxlans.len() == 0 {
        t
    } else {
        with_vxlan(with_vxlans(t, topology, vxlans.drop_last(), my_ip), topology, vxlans.last(), my_ip)
    }
}

/// The configuration with the transport of the wireless networks, where
/// the device is an access point of a WLAN group.
pub open spec fn with_wlan_ap(t: TargetView, topology: &Topology, device: DeviceId) -> TargetView {
    match topology.spec_device(device) {
        Some(d) => match d.wlan_ap_of {
            Some(group) => {
                let bridged = TargetView {
                    bridge: amended::<Bridge>(
                        t.bridge,
                        bridge_named(caps_bridge_name()),
                        |b: BridgeView|
                            BridgeView {
                                vlan_filtering: Some(true),
                                protocol_mode: Some(ProtocolMode::Mstp),
                                ..b
                            },
                    ),
                    ..t
                };
                match router_address_of(topology, device) {
                    Some(my_ip) => with_vxlans(
                        bridged,
                        topology,
                        vlan_vxlans(topology, group_vlans(topology, group)),
                        my_ip,
                    ),
                    None => bridged,
                }
            },
            None => t,
        },
        None => t,
    }
}

fn push_vlan(list: &mut Vec<VlanId>, v: VlanId)
    ensures
        final(list)@ == with_vlan(old(list)@, v),
{
    let mut i: usize = 0;
    while i < list.len()
        invariant
            i <= list.len(),
            list@ == old(list)@,
            forall|k: int| 0 <= k < i ==> list@[k] != v,
        decreases list.len() - i,
    {
        if list[i] == v {
            return ;
        }
        i += 1;
    }
    list.push(v);
}

fn push_vxlan(list: &mut Vec<VxlanId>, v: VxlanId)
    ensures
        final(list)@ == with_vxlan_id(old(list)@, v),
{
    let mut i: usize = 0;
    while i < list.len()
        invariant
            i <= list.len(),
            list@ == old(list)@,
            forall|k: int| 0 <= k < i ==> list@[k] != v,
        decreases list.len() - i,
    {
        if list[i] == v {
            return ;
        }
        i += 1;
    }
    list.push(v);
}

/// The VXLANs that back the VLANs.
fn vxlans_of(t: &Topology, vlans: &Vec<VlanId>) -> (r: Vec<VxlanId>)
    ensures
        r@ == vlan_vxlans(t, vlans@),
{
    let mut vxlans: Vec<VxlanId> = Vec::new();
    let mut i: usize = 0;
    proof {
        assert(vlans@.take(0) =~= Seq::<VlanId>::empty());
    }
    while i < vlans.len()
        invariant
            i <= vlans.len(),
            vxlans@ == vlan_vxlans(t, vlans@.take(i as int)),
        decreases vlans.len() - i,
    {
        proof {
            assert(vlans@.take(i as int + 1).drop_last() =~= vlans@.take(i as int));
            assert(vlans@.take(i as int + 1).last() == vlans@[i as int]);
        }
        let access = VlanAccess { topology: t, id: vlans[i] };
        match access.vxlan() {
            Some(x) => {
                push_vxlan(&mut vxlans, x.id);
            },
            None => {},
        }
        i += 1;
    }
    proof {
        assert(vlans@.take(vlans.len() as int) =~= vlans@);
    }
    vxlans
}

impl<'a> DeviceAccess<'a> {
    /// The VXLANs that back the VLANs which the device is a member of,
    /// each once.
    pub open spec fn spec_vxlan(&self) -> Seq<VxlanId> {
        match self.spec_data() {
            Some(d) => vlan_vxlans(self.topology, d.vlans@),
            None => Seq::empty(),
        }
    }

    /// Handles on the VXLANs that back the VLANs which the device is a
    /// member of, each once.
    pub fn vxlan(&self) -> (r: Vec<VxlanAccess<'a>>)
        ensures
            r@.len() == self.spec_vxlan().len(),
            forall|i: int|
                0 <= i < r@.len() ==> (#[trigger] r@[i]).topology == self.topology && r@[i].id
                    == self.spec_vxlan()[i],
    {
        let members = self.vlans();
        let mut vlans: Vec<VlanId> = Vec::new();
        let mut i: usize = 0;
        while i < members.len()
            invariant
                i <= members.len(),
                vlans@.len() == i,
                forall|k: int| 0 <= k < i ==> vlans@[k] == (#[trigger] members@[k]).id,
            decreases members.len() - i,
        {
            vlans.push(members[i].id);
            i += 1;
        }
        proof {
            match self.spec_data() {
                Some(d) => {
                    assert forall|k: int| 0 <= k < vlans@.len() implies vlans@[k] == d.vlans@[k] by {
                        assert(members@[k].id == d.vlans@[k]);
                    }
                    assert(vlans@ =~= d.vlans@);
                },
                None => {
                    assert(vlans@ =~= Seq::<VlanId>::empty());
                },
            }
        }
        let ids = vxlans_of(self.topology, &vlans);
        let mut out: Vec<VxlanAccess<'a>> = Vec::new();
        let mut i: usize = 0;
        while i < ids.len()
            invariant
                i <= ids.len(),
                out@.len() == i,
                forall|k: int|
                    0 <= k < i ==> (#[trigger] out@[k]).topology == self.topology && out@[k].id
                        == ids@[k],
            decreases ids.len() - i,
        {
            out.push(VxlanAccess { topology: self.topology, id: ids[i] });
            i += 1;
        }
        out
    }
}

impl BaseDeviceDataTarget {
    /// Sets up the VXLAN interface `name` for the network `vni` on the
    /// bridge of the access point, with the remote ends `remotes`.
    pub fn setup_named_vxlan(&mut self, name: &String, vni: u32, remotes: &Vec<IpAddr>)
        ensures
            final(self)@ == with_named_vxlan(old(self)@, name@, vni, remotes@),
    {
        ensure(
            &mut self.bridge_port,
            BridgePort {
                bridge: String::from_str("bridge-caps"),
                interface: name.clone(),
                ingress_filtering: None,
                frame_types: None,
                pvid: None,
            },
        );
        let mut tagged: Vec<String> = Vec::new();
        tagged.push(name.clone());
        let untagged: Vec<String> = Vec::new();
        proof {
            assert(views(tagged@) =~= seq![name@]);
            assert(views(untagged@) =~= Seq::<Seq<char>>::empty());
        }
        ensure(
            &mut self.bridge_vlan,
            BridgeVlan {
                bridge: String::from_str("bridge-caps"),
                tagged,
                untagged,
                vlan_ids: VlanIds::Range { start: 1, end: 4094 },
            },
        );
        replace(&mut self.vxlan, Vxlan { name: name.clone(), vni });
        let ghost start = entry_views(self.vxlan_vteps@);
        let mut i: usize = 0;
        proof {
            assert(remotes@.take(0) =~= Seq::<IpAddr>::empty());
        }
        while i < remotes.len()
            invariant
                i <= remotes.len(),
                entry_views(self.vxlan_vteps@) == with_vteps(start, name@, remotes@.take(i as int)),
                self.identity == old(self).identity,
                self.ethernet == old(self).ethernet,
                self.bridge == old(self).bridge,
                entry_views(self.bridge_port@) == with_named_vxlan(
                    old(self)@,
                    name@,
                    vni,
                    remotes@,
                ).bridge_port,
                entry_views(self.bridge_vlan@) == with_named_vxlan(
                    old(self)@,
                    name@,
                    vni,
                    remotes@,
                ).bridge_vlan,
                self.ipv_4_address == old(self).ipv_4_address,
                self.ipv_6_address == old(self).ipv_6_address,
                self.vlan == old(self).vlan,
                entry_views(self.vxlan@) == with_named_vxlan(old(self)@, name@, vni, remotes@).vxlan,
                self.ospf_instance == old(self).ospf_instance,
                self.ospf_area == old(self).ospf_area,
                self.ospf_interface == old(self).ospf_interface,
                self.dhcp_v_4_client == old(self).dhcp_v_4_client,
                self.dhcp_v_4_server == old(self).dhcp_v_4_server,
                self.dhcp_v_4_server_network == old(self).dhcp_v_4_server_network,
                self.ipv_4_pool == old(self).ipv_4_pool,
            decreases remotes.len() - i,
        {
            proof {
                assert(remotes@.take(i as int + 1).drop_last() =~= remotes@.take(i as int));
                assert(remotes@.take(i as int + 1).last() == remotes@[i as int]);
            }
            replace(
                &mut self.vxlan_vteps,
                VxlanVtep { interface: name.clone(), remote_ip: remotes[i] },
            );
            i += 1;
        }
        proof {
            assert(remotes@.take(remotes.len() as int) =~= remotes@);
        }
    }

    /// Sets up the VXLAN, where the snapshot holds it.
    pub fn setup_vxlan(&mut self, vxlan: VxlanAccess<'_>, my_ip: &IpAddr)
        ensures
            final(self)@ == with_vxlan(old(self)@, vxlan.topology, vxlan.id, *my_ip),
    {
        match (vxlan.name(), vxlan.vni()) {
            (Some(name), Some(vni)) => {
                let mut full = String::from_str("vxlan-");
                full.append(cleanup_name(name).as_str());
                let if_name = to_kebab(full.as_str());
                let ends = vxlan.vteps();
                let mut remotes: Vec<IpAddr> = Vec::new();
                let mut i: usize = 0;
                proof {
                    assert(ends@.take(0) =~= Seq::<IpAddr>::empty());
                }
                while i < ends.len()
                    invariant
                        i <= ends.len(),
                        remotes@ == remote_ends(ends@.take(i as int), *my_ip),
                    decreases ends.len() - i,
                {
                    proof {
                        assert(ends@.take(i as int + 1).drop_last() =~= ends@.take(i as int));
                        assert(ends@.take(i as int + 1).last() == ends@[i as int]);
                    }
                    if ends[i] != *my_ip {
                        remotes.push(ends[i]);
                    }
                    i += 1;
                }
                proof {
                    assert(ends@.take(ends.len() as int) =~= ends@);
                }
                self.setup_named_vxlan(&if_name, vni, &remotes);
            },
            _ => {},
        }
    }

    /// Sets up the transport of the wireless networks, where the device
    /// is an access point of a WLAN group.
    pub fn setup_wlan_ap(&mut self, device: &DeviceAccess<'_>)
        ensures
            final(self)@ == with_wlan_ap(old(self)@, device.topology, device.id),
    {
        let t = device.topology;
        match device.wlan_ap_of() {
            Some(wlan_group) => {
                let at = ensure(
                    &mut self.bridge,
                    Bridge {
                        name: String::from_str("bridge-caps"),
                        vlan_filtering: None,
                        ingress_filtering: None,
                        protocol_mode: None,
                    },
                );
                let kept = self.bridge[at].ingress_filtering;
                proof {
                    let e = ensured::<Bridge>(
                        entry_views(old(self).bridge@),
                        bridge_named(caps_bridge_name()),
                    );
                    lemma_position::<Bridge>(e, caps_bridge_name());
                    assert(e[at as int] == self.bridge@[at as int]@);
                }
                put(
                    &mut self.bridge,
                    at,
                    Bridge {
                        name: String::from_str("bridge-caps"),
                        vlan_filtering: Some(true),
                        ingress_filtering: kept,
                        protocol_mode: Some(ProtocolMode::Mstp),
                    },
                );
                let my_ip = match device.primary_ip_v4() {
                    Some(ip) => ip.addr(),
                    None => None,
                };
                match my_ip {
                    Some(my_ip) => {
                        let mut vlans: Vec<VlanId> = Vec::new();
                        match wlan_group.mgmt_vlan() {
                            Some(v) => {
                                vlans.push(v.id);
                            },
                            None => {},
                        }
                        let ghost first = vlans@;
                        let wlans = wlan_group.wlan();
                        let ghost wlan_ids = wlan_group.spec_wlans();
                        let mut i: usize = 0;
                        proof {
                            assert(wlan_ids.take(0) =~= Seq::<WlanId>::empty());
                        }
                        while i < wlans.len()
                            invariant
                                i <= wlans.len(),
                                wlans@.len() == wlan_ids.len(),
                                forall|k: int|
                                    0 <= k < wlans@.len() ==> (#[trigger] wlans@[k]).topology == t
                                        && wlans@[k].id == wlan_ids[k],
                                vlans@ == wlan_vlans(t, first, wlan_ids.take(i as int)),
                            decreases wlans.len() - i,
                        {
                            proof {
                                assert(wlan_ids.take(i as int + 1).drop_last() =~= wlan_ids.take(
                                    i as int,
                                ));
                                assert(wlan_ids.take(i as int + 1).last() == wlans@[i as int].id);
                            }
                            match wlans[i].vlan() {
                                Some(v) => {
                                    push_vlan(&mut vlans, v.id);
                                },
                                None => {},
                            }
                            i += 1;
                        }
                        proof {
                            assert(wlan_ids.take(wlans@.len() as int) =~= wlan_ids);
                        }
                        let vxlans = vxlans_of(t, &vlans);
                        let ghost bridged = self@;
                        let mut i: usize = 0;
                        proof {
                            assert(vxlans@.take(0) =~= Seq::<VxlanId>::empty());
                        }
                        while i < vxlans.len()
                            invariant
                                i <= vxlans.len(),
                                self@ == with_vxlans(bridged, t, vxlans@.take(i as int), my_ip),
                            decreases vxlans.len() - i,
                        {
                            proof {
                                assert(vxlans@.take(i as int + 1).drop_last() =~= vxlans@.take(
                                    i as int,
                                ));
                                assert(vxlans@.take(i as int + 1).last() == vxlans@[i as int]);
                            }
                            self.setup_vxlan(VxlanAccess { topology: t, id: vxlans[i] }, &my_ip);
                            i += 1;
                        }
                        proof {
                            assert(vxlans@.take(vxlans.len() as int) =~= vxlans@);
                        }
                    },
                    None => {},
                }
            },
            None => {},
        }
    }
}

} // verus!
