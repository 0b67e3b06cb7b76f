//! What holds of every target configuration that is set up.

use crate::access::InterfaceAccess;
use crate::addressing::with_addresses;
use crate::addressing::with_ips;
use crate::bridging::big_bridge_mapped;
use crate::bridging::bridge_named;
use crate::bridging::bridge_port_on;
use crate::bridging::is_routed;
use crate::bridging::port_name;
use crate::bridging::routed_planes;
use crate::bridging::single_switch_ports;
use crate::bridging::switch_name;
use crate::bridging::switched_planes;
use crate::bridging::untagged_only;
use crate::bridging::with_l2;
use crate::ip::IpAddr;
use crate::l2::L2PlaneView;
use crate::l2::L2PortView;
use crate::l2::L2Setup;
use crate::l2::all_entries;
use crate::l2::entries_of;
use crate::model::Bridge;
use crate::model::BridgePort;
use crate::model::BridgePortView;
use crate::model::BridgeView;
use crate::model::MappedPlaneView;
use crate::model::ProtocolMode;
use crate::model::VlanFrameTypes;
use crate::naming::EndpointNameGenerator;
use crate::plane_laws::entered;
use crate::plane_laws::lemma_planes_made_of;
use crate::synth::device_name;
use crate::synth::device_planes;
use crate::synth::generated;
use crate::synth::lemma_no_ospf_without_interfaces;
use crate::synth::loopback_of;
use crate::synth::with_poe;
use crate::table::Keyed;
use crate::table::lemma_position_is;
use crate::target::TargetView;
use crate::target::mapped_name;
use crate::target::with_loopback;
use crate::target::with_mapped_plane;
use crate::topology::DeviceId;
use crate::topology::InterfaceId;
use crate::topology::IpAddressId;
use crate::topology::Topology;
use crate::topology::VxlanId;
use crate::wireless::with_vxlans;
use crate::wireless::with_wlan_ap;
use vstd::prelude::*;

verus! {

/// Whether two configurations have the same OSPF instances, areas and
/// interface templates.
pub open spec fn same_ospf(a: TargetView, b: TargetView) -> bool {
    &&& a.ospf_instance == b.ospf_instance
    &&& a.ospf_area == b.ospf_area
    &&& a.ospf_interface == b.ospf_interface
}

/// The interface that stands for the planes of an interface: its bridge,
/// or the interface itself where it has none.
pub open spec fn root_of(t: &Topology, id: InterfaceId) -> InterfaceId {
    match t.spec_interface(id) {
        Some(d) => match d.bridge {
            Some(b) => b,
            None => id,
        },
        None => id,
    }
}

/// Whether no interface of the device asks for OSPF, nor the bridge of one
/// of them.
pub open spec fn without_ospf(t: &Topology, device: DeviceId) -> bool {
    forall|i: int|
        0 <= i < t.spec_interfaces_of(device).len() ==> !(InterfaceAccess {
            topology: t,
            id: root_of(t, #[trigger] t.spec_interfaces_of(device)[i]),
        }).spec_use_ospf()
}

proof fn lemma_entries_roots(
    t: &Topology,
    interfaces: Seq<InterfaceId>,
    names: spec_fn(InterfaceId) -> Option<Seq<char>>,
)
    requires
        all_entries(t, interfaces, names) is Some,
    ensures
        forall|k: int|
            0 <= k < all_entries(t, interfaces, names)->0.len() ==> exists|i: int|
                0 <= i < interfaces.len() && (#[trigger] all_entries(
                    t,
                    interfaces,
                    names,
                )->0[k]).bridge == root_of(t, #[trigger] interfaces[i]),
    decreases interfaces.len(),
{
    if interfaces.len() > 0 {
        let id = interfaces.last();
        let before_ids = interfaces.drop_last();
        let before = all_entries(t, before_ids, names)->0;
        let all = all_entries(t, interfaces, names)->0;
        lemma_entries_roots(t, before_ids, names);
        assert forall|k: int| 0 <= k < all.len() implies exists|i: int|
            0 <= i < interfaces.len() && (#[trigger] all[k]).bridge == root_of(
                t,
                #[trigger] interfaces[i],
            ) by {
            if k < before.len() {
                assert(all[k] == before[k]);
                let i = choose|i: int|
                    0 <= i < before_ids.len() && before[k].bridge == root_of(
                        t,
                        #[trigger] before_ids[i],
                    );
                assert(interfaces[i] == before_ids[i]);
            } else {
                let name = names(id)->0;
                let own = entries_of(t, id, name);
                assert(all[k] == own[k - before.len()]);
                assert(interfaces[interfaces.len() - 1] == id);
                assert(own[k - before.len()].bridge == root_of(t, id));
            }
        }
    }
}

proof fn lemma_routed_roots(planes: Seq<L2PlaneView>, n: int)
    requires
        0 <= n <= planes.len(),
    ensures
        forall|k: int|
            0 <= k < routed_planes(planes, n).len() ==> exists|i: int|
                0 <= i < planes.len() && (#[trigger] planes[i]).root_port == (
                #[trigger] routed_planes(planes, n)[k]).0,
        forall|k: int|
            0 <= k < switched_planes(planes, n).len() ==> exists|i: int|
                0 <= i < planes.len() && (#[trigger] planes[i]) == (#[trigger] switched_planes(
                    planes,
                    n,
                )[k]),
    decreases n,
{
    if n > 0 {
        lemma_routed_roots(planes, n - 1);
        let r0 = routed_planes(planes, n - 1);
        let r = routed_planes(planes, n);
        let s0 = switched_planes(planes, n - 1);
        let s = switched_planes(planes, n);
        assert forall|k: int| 0 <= k < r.len() implies exists|i: int|
            0 <= i < planes.len() && (#[trigger] planes[i]).root_port == (#[trigger] r[k]).0 by {
            if k < r0.len() {
                assert(r[k] == r0[k]);
            } else {
                assert(planes[n - 1].root_port == r[k].0);
            }
        }
        assert forall|k: int| 0 <= k < s.len() implies exists|i: int|
            0 <= i < planes.len() && (#[trigger] planes[i]) == (#[trigger] s[k]) by {
            if k < s0.len() {
                assert(s[k] == s0[k]);
            } else {
                assert(planes[n - 1] == s[k]);
            }
        }
    }
}

/// The wiring of the planes leaves OSPF alone, and every plane that it maps
/// to an interface of the configuration is one of the planes.
proof fn lemma_l2_roots(t: TargetView, planes: Seq<L2PlaneView>)
    requires
        with_l2(t, planes) is Ok,
    ensures
        same_ospf(with_l2(t, planes)->Ok_0.0, t),
        forall|k: int|
            0 <= k < with_l2(t, planes)->Ok_0.1.len() ==> exists|i: int|
                0 <= i < planes.len() && (#[trigger] planes[i]).root_port == (#[trigger] with_l2(
                    t,
                    planes,
                )->Ok_0.1[k]).0,
{
    let n = planes.len() as int;
    lemma_routed_roots(planes, n);
    let routed = routed_planes(planes, n);
    let switched = switched_planes(planes, n);
    let mapped = with_l2(t, planes)->Ok_0.1;
    assert forall|k: int| 0 <= k < mapped.len() implies exists|i: int|
        0 <= i < planes.len() && (#[trigger] planes[i]).root_port == (#[trigger] mapped[k]).0 by {
        if k < routed.len() {
            assert(mapped[k] == routed[k]);
        } else {
            let j = k - routed.len();
            assert(0 <= j < switched.len());
            let i = choose|i: int| 0 <= i < planes.len() && (#[trigger] planes[i]) == switched[j];
            if switched.len() == 1 && untagged_only(switched) {
                assert(mapped[k].0 == switched[0].root_port);
            } else {
                assert(big_bridge_mapped(switched)[j].0 == switched[j].root_port);
                assert(mapped[k] == big_bridge_mapped(switched)[j]);
            }
            assert(planes[i].root_port == mapped[k].0);
        }
    }
}

proof fn lemma_ips_keep_ospf(
    t: TargetView,
    topology: &Topology,
    ids: Seq<IpAddressId>,
    n: int,
    if_name: Seq<char>,
    dhcp_server: bool,
)
    requires
        with_ips(t, topology, ids, n, if_name, dhcp_server) is Ok,
    ensures
        same_ospf(with_ips(t, topology, ids, n, if_name, dhcp_server)->Ok_0, t),
    decreases n,
{
    if n > 0 {
        lemma_ips_keep_ospf(t, topology, ids, n - 1, if_name, dhcp_server);
    }
}

proof fn lemma_addresses_keep_ospf(
    t: TargetView,
    topology: &Topology,
    mapped: Seq<(InterfaceId, MappedPlaneView)>,
)
    requires
        with_addresses(t, topology, mapped) is Ok,
    ensures
        same_ospf(with_addresses(t, topology, mapped)->Ok_0, t),
    decreases mapped.len(),
{
    if mapped.len() > 0 {
        lemma_addresses_keep_ospf(t, topology, mapped.drop_last());
        let before = with_addresses(t, topology, mapped.drop_last())->Ok_0;
        let (interface, plane) = mapped.last();
        match topology.spec_interface(interface) {
            Some(d) => {
                if d.ips@.len() > 0 {
                    lemma_ips_keep_ospf(
                        with_mapped_plane(before, plane),
                        topology,
                        d.ips@,
                        d.ips@.len() as int,
                        mapped_name(plane),
                        d.enable_dhcp_server,
                    );
                }
            },
            None => {},
        }
    }
}

proof fn lemma_vxlans_keep_ospf(t: TargetView, topology: &Topology, vxlans: Seq<VxlanId>, my_ip: IpAddr)
    ensures
        same_ospf(with_vxlans(t, topology, vxlans, my_ip), t),
    decreases vxlans.len(),
{
    if vxlans.len() > 0 {
        lemma_vxlans_keep_ospf(t, topology, vxlans.drop_last(), my_ip);
    }
}

proof fn lemma_wlan_ap_keeps_ospf(t: TargetView, topology: &Topology, device: DeviceId)
    ensures
        same_ospf(with_wlan_ap(t, topology, device), t),
{
    match topology.spec_device(device) {
        Some(d) => match d.wlan_ap_of {
            Some(group) => {
                let bridged = TargetView {
                    bridge: crate::table::amended::<crate::model::Bridge>(
                        t.bridge,
                        crate::bridging::bridge_named(crate::wireless::caps_bridge_name()),
                        |b: crate::model::BridgeView|
                            crate::model::BridgeView {
                                vlan_filtering: Some(true),
                                protocol_mode: Some(crate::model::ProtocolMode::Mstp),
                                ..b
                            },
                    ),
                    ..t
                };
                match crate::wireless::router_address_of(topology, device) {
                    Some(my_ip) => {
                        lemma_vxlans_keep_ospf(
                            bridged,
                            topology,
                            crate::wireless::vlan_vxlans(
                                topology,
                                crate::wireless::group_vlans(topology, group),
                            ),
                            my_ip,
                        );
                    },
                    None => {},
                }
            },
            None => {},
        },
        None => {},
    }
}

/// A device of which no interface asks for OSPF, nor the bridge of one of
/// them, gets no OSPF: the configuration that is set up for it has the OSPF
/// instances, areas and interface templates that it was set up on, and so
/// none where it was set up on a configuration without any.
pub proof fn lemma_generated_without_ospf(t: TargetView, topology: &Topology, device: DeviceId)
    requires
        without_ospf(topology, device),
        generated(t, topology, device) is Ok,
    ensures
        same_ospf(generated(t, topology, device)->Ok_0, t),
{
    let names = L2Setup::names_of(topology, EndpointNameGenerator);
    let interfaces = topology.spec_interfaces_of(device);
    let named = TargetView { identity: device_name(topology, device), ..t };
    let looped = match loopback_of(topology, device) {
        Some(a) => with_loopback(named, a.spec_host()),
        None => named,
    };
    let planes = device_planes(topology, device)->Ok_0;
    lemma_planes_made_of(topology, device, names);
    let entries = all_entries(topology, interfaces, names)->0;
    lemma_entries_roots(topology, interfaces, names);
    lemma_l2_roots(looped, planes);
    let (wired, mapped) = with_l2(looped, planes)->Ok_0;
    let ethernet = with_poe(wired.ethernet, topology, interfaces, interfaces.len() as int)->Ok_0;
    let powered = TargetView { ethernet, ..wired };
    lemma_addresses_keep_ospf(powered, topology, mapped);
    let addressed = with_addresses(powered, topology, mapped)->Ok_0;
    assert forall|k: int| 0 <= k < mapped.len() implies !(InterfaceAccess {
        topology,
        id: (#[trigger] mapped[k]).0,
    }).spec_use_ospf() by {
        let i = choose|i: int|
            0 <= i < planes.len() && (#[trigger] planes[i]).root_port == mapped[k].0;
        assert(planes[i].ports.len() > 0);
        assert(entered(entries, planes[i].root_port, planes[i].vlan, planes[i].ports[0]));
        let e = choose|e: int|
            0 <= e < entries.len() && (#[trigger] entries[e]).bridge == planes[i].root_port
                && entries[e].vlan == planes[i].vlan && entries[e].port == planes[i].ports[0];
        let j = choose|j: int|
            0 <= j < interfaces.len() && entries[e].bridge == root_of(
                topology,
                #[trigger] interfaces[j],
            );
        assert(mapped[k].0 == root_of(topology, interfaces[j]));
    }
    lemma_no_ospf_without_interfaces(addressed, topology, device, mapped);
    lemma_wlan_ap_keeps_ospf(addressed, topology, device);
}

/// The entry that a port of the name `name` has on a switch that does not
/// look at tags.
pub open spec fn switch_port(name: Seq<char>) -> BridgePortView {
    BridgePortView {
        bridge: switch_name(),
        interface: name,
        ingress_filtering: None,
        frame_types: Some(VlanFrameTypes::AdmitOnlyUntaggedAndPriorityTagged),
        pvid: None,
    }
}

/// The bridge that does not look at tags.
pub open spec fn plain_switch() -> BridgeView {
    BridgeView {
        name: switch_name(),
        vlan_filtering: Some(false),
        ingress_filtering: Some(false),
        protocol_mode: Some(ProtocolMode::Rstp),
    }
}

/// Whether the ports are untagged ports of different names.
pub open spec fn untagged_apart(ports: Seq<L2PortView>) -> bool {
    &&& forall|k: int| 0 <= k < ports.len() ==> (#[trigger] ports[k]) is UntaggedEthernet
    &&& forall|i: int, j: int|
        0 <= i < j < ports.len() ==> port_name(#[trigger] ports[i]) != port_name(
            #[trigger] ports[j],
        )
}

/// The entries of the ports on the switch, one for each port.
pub open spec fn switch_ports(ports: Seq<L2PortView>) -> Seq<BridgePortView> {
    Seq::new(ports.len(), |k: int| switch_port(port_name(ports[k])->0))
}

proof fn lemma_single_switch_ports(ports: Seq<L2PortView>)
    requires
        untagged_apart(ports),
    ensures
        single_switch_ports(Seq::empty(), ports) == switch_ports(ports),
    decreases ports.len(),
{
    if ports.len() == 0 {
        assert(switch_ports(ports) =~= Seq::<BridgePortView>::empty());
    } else {
        let before_ports = ports.drop_last();
        let last = ports.last();
        assert(ports[ports.len() - 1] == last);
        assert forall|i: int, j: int| 0 <= i < j < before_ports.len() implies port_name(
            #[trigger] before_ports[i],
        ) != port_name(#[trigger] before_ports[j]) by {
            assert(before_ports[i] == ports[i] && before_ports[j] == ports[j]);
        }
        assert forall|k: int| 0 <= k < before_ports.len() implies (
        #[trigger] before_ports[k]) is UntaggedEthernet by {
            assert(before_ports[k] == ports[k]);
        }
        lemma_single_switch_ports(before_ports);
        let before = switch_ports(before_ports);
        let name = port_name(last)->0;
        let fresh = bridge_port_on(switch_name(), name);
        let key = (switch_name(), name);
        assert forall|j: int| 0 <= j < before.len() implies BridgePort::key(#[trigger] before[j])
            != key by {
            assert(before_ports[j] == ports[j]);
            assert(port_name(ports[j]) != port_name(ports[ports.len() - 1]));
        }
        lemma_position_is::<BridgePort>(before, key, before.len() as int);
        let e = before.push(fresh);
        assert forall|j: int| 0 <= j < before.len() implies BridgePort::key(#[trigger] e[j])
            != key by {
            assert(e[j] == before[j]);
        }
        lemma_position_is::<BridgePort>(e, key, before.len() as int);
        assert(single_switch_ports(Seq::empty(), ports) =~= switch_ports(ports));
    }
}

/// A device whose ports make one plane of two or more untagged ports of
/// different names, set up on a configuration without bridges, gets one
/// bridge that does not look at tags, a bridge port for each of the ports,
/// and no entry in the VLAN table of the bridge beyond those that were
/// there; the plane is mapped to the bridge.
pub proof fn lemma_one_plain_switch(t: TargetView, plane: L2PlaneView)
    requires
        plane.ports.len() >= 2,
        untagged_apart(plane.ports),
        t.bridge.len() == 0,
        t.bridge_port.len() == 0,
        with_l2(t, seq![plane]) is Ok,
    ensures
        with_l2(t, seq![plane])->Ok_0.0.bridge == seq![plain_switch()],
        with_l2(t, seq![plane])->Ok_0.0.bridge_port == switch_ports(plane.ports),
        with_l2(t, seq![plane])->Ok_0.0.bridge_vlan == t.bridge_vlan,
        with_l2(t, seq![plane])->Ok_0.1 == seq![
            (plane.root_port, MappedPlaneView::Untagged(switch_name())),
        ],
{
    let planes = seq![plane];
    assert(planes[0] == plane);
    assert(!is_routed(planes, plane));
    assert(routed_planes(planes, 0) =~= Seq::empty());
    assert(switched_planes(planes, 0) =~= Seq::empty());
    assert(routed_planes(planes, 1) =~= Seq::empty());
    assert(switched_planes(planes, 1) =~= seq![plane]);
    let switched = switched_planes(planes, 1);
    assert(untagged_only(switched)) by {
        assert forall|i: int, j: int|
            0 <= i < switched.len() && 0 <= j < switched[i].ports.len() implies (
        #[trigger] switched[i].ports[j]) is UntaggedEthernet by {
            assert(switched[i] == plane);
        }
    }
    lemma_single_switch_ports(plane.ports);
    assert(t.bridge_port =~= Seq::empty());
    let none = Seq::<BridgeView>::empty();
    assert(t.bridge =~= none);
    lemma_position_is::<Bridge>(none, switch_name(), 0);
    let e = none.push(bridge_named(switch_name()));
    lemma_position_is::<Bridge>(e, switch_name(), 0);
    let r = with_l2(t, planes)->Ok_0;
    assert(r.0.bridge =~= seq![plain_switch()]);
    assert(r.1 =~= seq![(plane.root_port, MappedPlaneView::Untagged(switch_name()))]);
}

} // verus!
