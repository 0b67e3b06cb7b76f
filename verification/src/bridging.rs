//! Bridges for the planes of a device.
//!
//! A plane with a single untagged port that is in no other plane is a
//! routed port: the port itself stands for the plane. All other planes are
//! switched. A single switched plane without a tagged port gets a bridge
//! that does not look at tags; otherwise all switched planes share one
//! bridge that filters by VLAN.

use crate::access::InterfaceAccess;
use crate::error::SetupError;
use crate::error::SetupErrorView;
use crate::l2::port_views;
use crate::l2::plane_views;
use crate::l2::L2Plane;
use crate::l2::L2PlaneView;
use crate::l2::L2Port;
use crate::l2::L2PortView;
use crate::l2::L2Setup;
use crate::model::Bridge;
use crate::model::BridgePort;
use crate::model::BridgePortView;
use crate::model::BridgeView;
use crate::model::BridgeVlan;
use crate::model::BridgeVlanView;
use crate::model::EthernetPortView;
use crate::model::MappedPlane;
use crate::model::MappedPlaneView;
use crate::model::ProtocolMode;
use crate::model::VlanFrameTypes;
use crate::model::VlanIds;
use crate::table::amended;
use crate::table::ensure;
use crate::table::ensured;
use crate::table::entry_views;
use crate::table::put;
use crate::table::Keyed;
use crate::target::renamed;
use crate::target::BaseDeviceDataTarget;
use crate::target::TargetView;
use crate::text::copy_names;
use crate::text::contains_text;
use crate::text::same_text;
use crate::text::views;
use crate::topology::InterfaceId;
use crate::topology::Topology;
use vstd::prelude::*;
use vstd::string::*;

verus! {

/// How the VLANs of the switched planes are laid out on the device.
#[derive(Debug, Copy, Clone, PartialEq, Eq, Structural, Hash, PartialOrd, Ord)]
pub enum SwitchVlanConcept {
    /// One bridge for all VLANs.
    OneBridge,
}

/// The name of the bridge of the switched planes.
pub open spec fn switch_name() -> Seq<char> {
    "switch"@
}

/// The name of a port of a plane, for an ethernet port.
pub open spec fn port_name(p: L2PortView) -> Option<Seq<char>> {
    match p {
        L2PortView::TaggedEthernet { name, .. } => Some(name),
        L2PortView::UntaggedEthernet { name, .. } => Some(name),
        _ => None,
    }
}

/// Whether every port of the planes is an ethernet port.
pub open spec fn ethernet_only(planes: Seq<L2PlaneView>) -> bool {
    forall|i: int, j: int|
        0 <= i < planes.len() && 0 <= j < planes[i].ports.len() ==> port_name(
            #[trigger] planes[i].ports[j],
        ) is Some
}

/// Whether every port of the planes is an untagged ethernet port.
pub open spec fn untagged_only(planes: Seq<L2PlaneView>) -> bool {
    forall|i: int, j: int|
        0 <= i < planes.len() && 0 <= j < planes[i].ports.len() ==> (
        #[trigger] planes[i].ports[j]) is UntaggedEthernet
}

/// The ethernet ports after each of `ports` was named on its hardware port.
pub open spec fn renamed_ports(ethernet: Seq<EthernetPortView>, ports: Seq<L2PortView>) -> Result<
    Seq<EthernetPortView>,
    SetupErrorView,
>
    decreases ports.len(),
{
    if ports.len() == 0 {
        Ok(ethernet)
    } else {
        match renamed_ports(ethernet, ports.drop_last()) {
            Ok(e) => match ports.last() {
                L2PortView::TaggedEthernet { name, port } => renamed(e, port, name),
                L2PortView::UntaggedEthernet { name, port } => renamed(e, port, name),
                _ => Ok(e),
            },
            Err(x) => Err(x),
        }
    }
}

/// The ethernet ports after each port of each plane was named on its
/// hardware port.
pub open spec fn renamed_planes(ethernet: Seq<EthernetPortView>, planes: Seq<L2PlaneView>) -> Result<
    Seq<EthernetPortView>,
    SetupErrorView,
>
    decreases planes.len(),
{
    if planes.len() == 0 {
        Ok(ethernet)
    } else {
        match renamed_planes(ethernet, planes.drop_last()) {
            Ok(e) => renamed_ports(e, planes.last().ports),
            Err(x) => Err(x),
        }
    }
}

/// The number of the ports that have the name `name`.
pub open spec fn name_count_in(ports: Seq<L2PortView>, name: Seq<char>) -> nat
    decreases ports.len(),
{
    if ports.len() == 0 {
        0
    } else {
        name_count_in(ports.drop_last(), name) + (if port_name(ports.last()) == Some(name) {
            1nat
        } else {
            0nat
        })
    }
}

/// The number of the ports of all planes that have the name `name`.
pub open spec fn name_count(planes: Seq<L2PlaneView>, name: Seq<char>) -> nat
    decreases planes.len(),
{
    if planes.len() == 0 {
        0
    } else {
        name_count(planes.drop_last(), name) + name_count_in(planes.last().ports, name)
    }
}

/// Whether a plane is a routed port: whether it has one port only, which
/// is untagged and in no other plane.
pub open spec fn is_routed(planes: Seq<L2PlaneView>, plane: L2PlaneView) -> bool {
    &&& plane.ports.len() == 1
    &&& plane.ports[0] matches L2PortView::UntaggedEthernet { name, .. }
    &&& name_count(planes, name) == 1
}

/// What stands for the routed planes among the first `n` planes.
pub open spec fn routed_planes(planes: Seq<L2PlaneView>, n: int) -> Seq<
    (InterfaceId, MappedPlaneView),
>
    decreases n,
{
    if n <= 0 {
        Seq::empty()
    } else {
        let before = routed_planes(planes, n - 1);
        let plane = planes[n - 1];
        if is_routed(planes, plane) {
            before.push((plane.root_port, MappedPlaneView::Untagged(port_name(plane.ports[0])->0)))
        } else {
            before
        }
    }
}

/// The switched planes among the first `n` planes.
pub open spec fn switched_planes(planes: Seq<L2PlaneView>, n: int) -> Seq<L2PlaneView>
    decreases n,
{
    if n <= 0 {
        Seq::empty()
    } else {
        let before = switched_planes(planes, n - 1);
        let plane = planes[n - 1];
        if is_routed(planes, plane) {
            before
        } else {
            before.push(plane)
        }
    }
}

/// A bridge of the given name with nothing set.
pub open spec fn bridge_named(name: Seq<char>) -> BridgeView {
    BridgeView { name, vlan_filtering: None, ingress_filtering: None, protocol_mode: None }
}

/// A bridge port with nothing set.
pub open spec fn bridge_port_on(bridge: Seq<char>, interface: Seq<char>) -> BridgePortView {
    BridgePortView { bridge, interface, ingress_filtering: None, frame_types: None, pvid: None }
}

/// The bridge ports with each of `ports` on the bridge of the single
/// switched plane, admitting untagged frames only.
pub open spec fn single_switch_ports(bridge_port: Seq<BridgePortView>, ports: Seq<L2PortView>) -> Seq<
    BridgePortView,
>
    decreases ports.len(),
{
    if ports.len() == 0 {
        bridge_port
    } else {
        let before = single_switch_ports(bridge_port, ports.drop_last());
        match port_name(ports.last()) {
            Some(name) => amended::<BridgePort>(
                before,
                bridge_port_on(switch_name(), name),
                |p: BridgePortView|
                    BridgePortView {
                        frame_types: Some(VlanFrameTypes::AdmitOnlyUntaggedAndPriorityTagged),
                        ..p
                    },
            ),
            None => before,
        }
    }
}

/// The configuration with a bridge for a single switched plane without
/// tagged ports: a bridge that does not filter by VLAN, with each port of
/// the plane on it.
pub open spec fn with_single_switch(t: TargetView, plane: L2PlaneView) -> TargetView {
    TargetView {
        bridge: amended::<Bridge>(
            t.bridge,
            bridge_named(switch_name()),
            |b: BridgeView|
                BridgeView {
                    vlan_filtering: Some(false),
                    ingress_filtering: Some(false),
                    protocol_mode: Some(ProtocolMode::Rstp),
                    ..b
                },
        ),
        bridge_port: single_switch_ports(t.bridge_port, plane.ports),
        ..t
    }
}

/// What is known of a port of the shared bridge: the tag of the plane in
/// which it is untagged, and whether it is tagged in a plane.
pub struct PortTags {
    pub name: String,
    pub untagged: Option<u16>,
    pub tagged: bool,
}

pub struct PortTagsView {
    pub name: Seq<char>,
    pub untagged: Option<u16>,
    pub tagged: bool,
}

impl View for PortTags {
    type V = PortTagsView;

    open spec fn view(&self) -> PortTagsView {
        PortTagsView { name: self.name@, untagged: self.untagged, tagged: self.tagged }
    }
}

impl Keyed for PortTags {
    type Key = Seq<char>;

    open spec fn key(v: PortTagsView) -> Seq<char> {
        v.name
    }

    fn same_key(&self, other: &Self) -> (r: bool) {
        same_text(&self.name, &other.name)
    }
}

/// The ports that carry a tag on the shared bridge, untagged and tagged;
/// a port is added to a list where the list does not hold it yet.
pub struct VlanPorts {
    pub vid: u16,
    pub untagged: Vec<String>,
    pub tagged: Vec<String>,
}

pub struct VlanPortsView {
    pub vid: u16,
    pub untagged: Seq<Seq<char>>,
    pub tagged: Seq<Seq<char>>,
}

impl View for VlanPorts {
    type V = VlanPortsView;

    open spec fn view(&self) -> VlanPortsView {
        VlanPortsView { vid: self.vid, untagged: views(self.untagged@), tagged: views(self.tagged@) }
    }
}

impl Keyed for VlanPorts {
    type Key = u16;

    open spec fn key(v: VlanPortsView) -> u16 {
        v.vid
    }

    fn same_key(&self, other: &Self) -> (r: bool) {
        self.vid == other.vid
    }
}

/// The list with `name` at its end, where it was not in it.
pub open spec fn with_name(list: Seq<Seq<char>>, name: Seq<char>) -> Seq<Seq<char>> {
    if list.contains(name) {
        list
    } else {
        list.push(name)
    }
}

/// What is known of the ports after the ports `ports` of a plane that runs
/// under the tag `vid`.
pub open spec fn port_tags_after(acc: Seq<PortTagsView>, ports: Seq<L2PortView>, vid: u16) -> Seq<
    PortTagsView,
>
    decreases ports.len(),
{
    if ports.len() == 0 {
        acc
    } else {
        let before = port_tags_after(acc, ports.drop_last(), vid);
        match ports.last() {
            L2PortView::TaggedEthernet { name, .. } => amended::<PortTags>(
                before,
                PortTagsView { name, untagged: None, tagged: false },
                |p: PortTagsView| PortTagsView { tagged: true, ..p },
            ),
            L2PortView::UntaggedEthernet { name, .. } => amended::<PortTags>(
                before,
                PortTagsView { name, untagged: None, tagged: false },
                |p: PortTagsView| PortTagsView { untagged: Some(vid), ..p },
            ),
            _ => before,
        }
    }
}

/// What is known of the ports of the planes, in the order in which the
/// ports were first seen.
pub open spec fn port_tags_of(planes: Seq<L2PlaneView>) -> Seq<PortTagsView>
    decreases planes.len(),
{
    if planes.len() == 0 {
        Seq::empty()
    } else {
        port_tags_after(
            port_tags_of(planes.drop_last()),
            planes.last().ports,
            planes.last().vlan_id,
        )
    }
}

/// The ports of each tag after the ports `ports` of a plane that runs under
/// the tag `vid`.
pub open spec fn vlan_ports_after(acc: Seq<VlanPortsView>, ports: Seq<L2PortView>, vid: u16) -> Seq<
    VlanPortsView,
>
    decreases ports.len(),
{
    if ports.len() == 0 {
        acc
    } else {
        let before = vlan_ports_after(acc, ports.drop_last(), vid);
        match ports.last() {
            L2PortView::TaggedEthernet { name, .. } => amended::<VlanPorts>(
                before,
                VlanPortsView { vid, untagged: Seq::empty(), tagged: Seq::empty() },
                |p: VlanPortsView| VlanPortsView { tagged: with_name(p.tagged, name), ..p },
            ),
            L2PortView::UntaggedEthernet { name, .. } => amended::<VlanPorts>(
                before,
                VlanPortsView { vid, untagged: Seq::empty(), tagged: Seq::empty() },
                |p: VlanPortsView| VlanPortsView { untagged: with_name(p.untagged, name), ..p },
            ),
            _ => before,
        }
    }
}

/// The ports of each tag of the planes, in the order in which the tags
/// were first seen.
pub open spec fn vlan_ports_of(planes: Seq<L2PlaneView>) -> Seq<VlanPortsView>
    decreases planes.len(),
{
    if planes.len() == 0 {
        Seq::empty()
    } else {
        vlan_ports_after(
            vlan_ports_of(planes.drop_last()),
            planes.last().ports,
            planes.last().vlan_id,
        )
    }
}

/// The frames that a port of the shared bridge admits: tagged frames only
/// where it is untagged in no plane, untagged frames only where it is tagged
/// in none, else all.
pub open spec fn frame_types_of(p: PortTagsView) -> VlanFrameTypes {
    match p.untagged {
        Some(_) => if p.tagged {
            VlanFrameTypes::AdmitAll
        } else {
            VlanFrameTypes::AdmitOnlyUntaggedAndPriorityTagged
        },
        None => VlanFrameTypes::AdmitOnlyVlanTagged,
    }
}

/// The bridge ports with each of the ports on the shared bridge.
pub open spec fn big_bridge_ports(bridge_port: Seq<BridgePortView>, tags: Seq<PortTagsView>) -> Seq<
    BridgePortView,
>
    decreases tags.len(),
{
    if tags.len() == 0 {
        bridge_port
    } else {
        let p = tags.last();
        amended::<BridgePort>(
            big_bridge_ports(bridge_port, tags.drop_last()),
            bridge_port_on(switch_name(), p.name),
            |b: BridgePortView|
                BridgePortView {
                    ingress_filtering: Some(true),
                    frame_types: Some(frame_types_of(p)),
                    pvid: match p.untagged {
                        Some(vid) => Some(vid),
                        None => b.pvid,
                    },
                    ..b
                },
        )
    }
}

/// The VLAN table with an entry for each of the tags on the shared bridge,
/// where it had none for the same ports.
pub open spec fn big_bridge_vlans(bridge_vlan: Seq<BridgeVlanView>, vlans: Seq<VlanPortsView>) -> Seq<
    BridgeVlanView,
>
    decreases vlans.len(),
{
    if vlans.len() == 0 {
        bridge_vlan
    } else {
        let v = vlans.last();
        ensured::<BridgeVlan>(
            big_bridge_vlans(bridge_vlan, vlans.drop_last()),
            BridgeVlanView {
                bridge: switch_name(),
                tagged: v.tagged,
                untagged: v.untagged,
                vlan_ids: VlanIds::Single(v.vid),
            },
        )
    }
}

/// The configuration with the bridge that the switched planes `planes`
/// share: a bridge that filters by VLAN, with each port of the planes on it
/// and an entry in its VLAN table for each of their tags.
pub open spec fn with_big_bridge(t: TargetView, planes: Seq<L2PlaneView>) -> TargetView {
    TargetView {
        bridge: amended::<Bridge>(
            t.bridge,
            bridge_named(switch_name()),
            |b: BridgeView|
                BridgeView {
                    vlan_filtering: Some(true),
                    protocol_mode: Some(ProtocolMode::Mstp),
                    ..b
                },
        ),
        bridge_port: big_bridge_ports(t.bridge_port, port_tags_of(planes)),
        bridge_vlan: big_bridge_vlans(t.bridge_vlan, vlan_ports_of(planes)),
        ..t
    }
}

/// What stands for the planes on the shared bridge: for each the VLAN of
/// its tag on the bridge.
pub open spec fn big_bridge_mapped(planes: Seq<L2PlaneView>) -> Seq<(InterfaceId, MappedPlaneView)> {
    Seq::new(
        planes.len(),
        |i: int|
            (
                planes[i].root_port,
                MappedPlaneView::Tagged { if_name: switch_name(), vid: planes[i].vlan_id },
            ),
    )
}

/// The configuration with the planes wired up, and what stands for each
/// plane: first the routed planes, then the switched ones.
pub open spec fn with_l2(t: TargetView, planes: Seq<L2PlaneView>) -> Result<
    (TargetView, Seq<(InterfaceId, MappedPlaneView)>),
    SetupErrorView,
> {
    match renamed_planes(t.ethernet, planes) {
        Ok(ethernet) => {
            let named = TargetView { ethernet, ..t };
            let routed = routed_planes(planes, planes.len() as int);
            let switched = switched_planes(planes, planes.len() as int);
            if switched.len() == 0 {
                Ok((named, routed))
            } else if switched.len() == 1 && untagged_only(switched) {
                Ok(
                    (
                        with_single_switch(named, switched[0]),
                        routed.push(
                            (switched[0].root_port, MappedPlaneView::Untagged(switch_name())),
                        ),
                    ),
                )
            } else {
                Ok((with_big_bridge(named, switched), routed + big_bridge_mapped(switched)))
            }
        },
        Err(e) => Err(e),
    }
}

/// What stands for a plane, with the interface of the plane.
pub struct Mapped<'a> {
    pub interface: InterfaceAccess<'a>,
    pub plane: MappedPlane,
}

/// What stands for each plane, told by ids.
pub open spec fn mapped_views(mapped: Seq<Mapped<'_>>) -> Seq<(InterfaceId, MappedPlaneView)> {
    Seq::new(mapped.len(), |i: int| (mapped[i].interface.id, mapped[i].plane@))
}

/// Whether every interface is on `topology`.
pub open spec fn mapped_on(mapped: Seq<Mapped<'_>>, topology: &Topology) -> bool {
    forall|i: int| 0 <= i < mapped.len() ==> (#[trigger] mapped[i]).interface.topology == topology
}

proof fn lemma_renamed_ports_err(
    ethernet: Seq<EthernetPortView>,
    ports: Seq<L2PortView>,
    n: int,
)
    requires
        0 <= n <= ports.len(),
        renamed_ports(ethernet, ports.take(n)) is Err,
    ensures
        renamed_ports(ethernet, ports) == renamed_ports(ethernet, ports.take(n)),
    decreases ports.len() - n,
{
    if n < ports.len() {
        assert(ports.take(n + 1).drop_last() =~= ports.take(n));
        lemma_renamed_ports_err(ethernet, ports, n + 1);
    } else {
        assert(ports.take(n) =~= ports);
    }
}

proof fn lemma_renamed_planes_err(
    ethernet: Seq<EthernetPortView>,
    planes: Seq<L2PlaneView>,
    n: int,
)
    requires
        0 <= n <= planes.len(),
        renamed_planes(ethernet, planes.take(n)) is Err,
    ensures
        renamed_planes(ethernet, planes) == renamed_planes(ethernet, planes.take(n)),
    decreases planes.len() - n,
{
    if n < planes.len() {
        assert(planes.take(n + 1).drop_last() =~= planes.take(n));
        lemma_renamed_planes_err(ethernet, planes, n + 1);
    } else {
        assert(planes.take(n) =~= planes);
    }
}

/// The name of an ethernet port of a plane.
fn name_of(port: &L2Port) -> (r: Option<&String>)
    ensures
        r is Some <==> port_name(port@) is Some,
        r matches Some(n) ==> n@ == port_name(port@)->0,
{
    match port {
        L2Port::TaggedEthernet { name, .. } => Some(name),
        L2Port::UntaggedEthernet { name, .. } => Some(name),
        _ => None,
    }
}

/// The number of the ports of all planes that have the name `name`, up to
/// two.
fn count_upto_two(planes: &Vec<L2Plane<'_>>, name: &String) -> (r: u8)
    ensures
        r as nat == if name_count(plane_views(planes@), name@) < 2 {
            name_count(plane_views(planes@), name@)
        } else {
            2
        },
{
    let ghost all = plane_views(planes@);
    let mut count: u8 = 0;
    let mut i: usize = 0;
    proof {
        assert(all.take(0) =~= Seq::<L2PlaneView>::empty());
    }
    while i < planes.len()
        invariant
            i <= planes.len(),
            all == plane_views(planes@),
            count as nat == if name_count(all.take(i as int), name@) < 2 {
                name_count(all.take(i as int), name@)
            } else {
                2
            },
        decreases planes.len() - i,
    {
        let ports = &planes[i].ports;
        let ghost seen = name_count(all.take(i as int), name@);
        let ghost here = port_views(ports@);
        proof {
            assert(all.take(i as int + 1).drop_last() =~= all.take(i as int));
            assert(all.take(i as int + 1).last().ports == here);
            assert(here.take(0) =~= Seq::<L2PortView>::empty());
        }
        let mut j: usize = 0;
        while j < ports.len()
            invariant
                j <= ports.len(),
                here == port_views(ports@),
                count as nat == if seen + name_count_in(here.take(j as int), name@) < 2 {
                    seen + name_count_in(here.take(j as int), name@)
                } else {
                    2
                },
            decreases ports.len() - j,
        {
            proof {
                assert(here.take(j as int + 1).drop_last() =~= here.take(j as int));
                assert(here.take(j as int + 1).last() == ports@[j as int]@);
            }
            match name_of(&ports[j]) {
                Some(n) => {
                    if same_text(n, name) && count < 2 {
                        count = count + 1;
                    }
                },
                None => {},
            }
            j += 1;
        }
        proof {
            assert(here.take(ports@.len() as int) =~= here);
        }
        i += 1;
    }
    proof {
        assert(all.take(planes@.len() as int) =~= all);
    }
    count
}

/// Adds `name` at the end of the list, where it is not in it.
fn push_unique(list: &mut Vec<String>, name: &String)
    ensures
        views(final(list)@) == with_name(views(old(list)@), name@),
{
    if !contains_text(list, name) {
        let ghost before = views(list@);
        list.push(name.clone());
        proof {
            assert(views(list@) =~= before.push(name@));
        }
    }
}

impl BaseDeviceDataTarget {
    /// Sets up a bridge for a single switched plane without tagged ports.
    pub fn setup_single_switch_without_vlan(&mut self, single_plane: &L2Plane<'_>)
        requires
            forall|j: int|
                0 <= j < single_plane@.ports.len() ==> (
                #[trigger] single_plane@.ports[j]) is UntaggedEthernet,
        ensures
            final(self)@ == with_single_switch(old(self)@, single_plane@),
    {
        let at = ensure(
            &mut self.bridge,
            Bridge {
                name: String::from_str("switch"),
                vlan_filtering: None,
                ingress_filtering: None,
                protocol_mode: None,
            },
        );
        put(
            &mut self.bridge,
            at,
            Bridge {
                name: String::from_str("switch"),
                vlan_filtering: Some(false),
                ingress_filtering: Some(false),
                protocol_mode: Some(ProtocolMode::Rstp),
            },
        );
        proof {
            crate::table::lemma_position::<Bridge>(
                ensured::<Bridge>(entry_views(old(self).bridge@), bridge_named(switch_name())),
                switch_name(),
            );
        }
        let ghost ports = port_views(single_plane.ports@);
        let ghost start = entry_views(self.bridge_port@);
        let mut j: usize = 0;
        proof {
            assert(ports.take(0) =~= Seq::<L2PortView>::empty());
        }
        while j < single_plane.ports.len()
            invariant
                j <= single_plane.ports.len(),
                ports == port_views(single_plane.ports@),
                entry_views(self.bridge_port@) == single_switch_ports(start, ports.take(j as int)),
                self.identity == old(self).identity,
                self.ethernet == old(self).ethernet,
                entry_views(self.bridge@) == with_single_switch(old(self)@, single_plane@).bridge,
                self.bridge_vlan == old(self).bridge_vlan,
                self.ipv_4_address == old(self).ipv_4_address,
                self.ipv_6_address == old(self).ipv_6_address,
                self.vlan == old(self).vlan,
                self.vxlan == old(self).vxlan,
                self.vxlan_vteps == old(self).vxlan_vteps,
                self.ospf_instance == old(self).ospf_instance,
                self.ospf_area == old(self).ospf_area,
                self.ospf_interface == old(self).ospf_interface,
                self.dhcp_v_4_client == old(self).dhcp_v_4_client,
                self.dhcp_v_4_server == old(self).dhcp_v_4_server,
                self.dhcp_v_4_server_network == old(self).dhcp_v_4_server_network,
                self.ipv_4_pool == old(self).ipv_4_pool,
            decreases single_plane.ports.len() - j,
        {
            proof {
                assert(ports.take(j as int + 1).drop_last() =~= ports.take(j as int));
                assert(ports.take(j as int + 1).last() == single_plane.ports@[j as int]@);
            }
            match name_of(&single_plane.ports[j]) {
                Some(name) => {
                    let ghost before = entry_views(self.bridge_port@);
                    let at = ensure(
                        &mut self.bridge_port,
                        BridgePort {
                            bridge: String::from_str("switch"),
                            interface: name.clone(),
                            ingress_filtering: None,
                            frame_types: None,
                            pvid: None,
                        },
                    );
                    let entry = BridgePort {
                        bridge: String::from_str("switch"),
                        interface: name.clone(),
                        ingress_filtering: self.bridge_port[at].ingress_filtering,
                        frame_types: Some(VlanFrameTypes::AdmitOnlyUntaggedAndPriorityTagged),
                        pvid: self.bridge_port[at].pvid,
                    };
                    proof {
                        let e = ensured::<BridgePort>(before, bridge_port_on(switch_name(), name@));
                        crate::table::lemma_position::<BridgePort>(e, (switch_name(), name@));
                        assert(e[at as int] == self.bridge_port@[at as int]@);
                    }
                    put(&mut self.bridge_port, at, entry);
                },
                None => {},
            }
            j += 1;
        }
        proof {
            assert(ports.take(single_plane.ports@.len() as int) =~= ports);
        }
    }

    /// Sets up the bridge that the switched planes share.
    pub fn setup_big_bridge(&mut self, switch_planes: &Vec<&L2Plane<'_>>)
        ensures
            final(self)@ == with_big_bridge(old(self)@, plane_ref_views(switch_planes@)),
    {
        let at = ensure(
            &mut self.bridge,
            Bridge {
                name: String::from_str("switch"),
                vlan_filtering: None,
                ingress_filtering: None,
                protocol_mode: None,
            },
        );
        let kept = self.bridge[at].ingress_filtering;
        proof {
            let e = ensured::<Bridge>(entry_views(old(self).bridge@), bridge_named(switch_name()));
            crate::table::lemma_position::<Bridge>(e, switch_name());
            assert(e[at as int] == self.bridge@[at as int]@);
        }
        put(
            &mut self.bridge,
            at,
            Bridge {
                name: String::from_str("switch"),
                vlan_filtering: Some(true),
                ingress_filtering: kept,
                protocol_mode: Some(ProtocolMode::Mstp),
            },
        );
        let ghost planes = plane_ref_views(switch_planes@);
        let mut tags: Vec<PortTags> = Vec::new();
        let mut vlans: Vec<VlanPorts> = Vec::new();
        let mut i: usize = 0;
        proof {
            assert(planes.take(0) =~= Seq::<L2PlaneView>::empty());
            assert(entry_views(tags@) =~= Seq::<PortTagsView>::empty());
            assert(entry_views(vlans@) =~= Seq::<VlanPortsView>::empty());
        }
        while i < switch_planes.len()
            invariant
                i <= switch_planes.len(),
                planes == plane_ref_views(switch_planes@),
                entry_views(tags@) == port_tags_of(planes.take(i as int)),
                entry_views(vlans@) == vlan_ports_of(planes.take(i as int)),
            decreases switch_planes.len() - i,
        {
            let plane = switch_planes[i];
            let vid = plane.vlan_id;
            let ghost ports = port_views(plane.ports@);
            let ghost tags_start = entry_views(tags@);
            let ghost vlans_start = entry_views(vlans@);
            proof {
                assert(planes.take(i as int + 1).drop_last() =~= planes.take(i as int));
                assert(planes.take(i as int + 1).last() == plane@);
                assert(ports.take(0) =~= Seq::<L2PortView>::empty());
            }
            let mut j: usize = 0;
            while j < plane.ports.len()
                invariant
                    j <= plane.ports.len(),
                    ports == port_views(plane.ports@),
                    vid == plane.vlan_id,
                    entry_views(tags@) == port_tags_after(tags_start, ports.take(j as int), vid),
                    entry_views(vlans@) == vlan_ports_after(vlans_start, ports.take(j as int), vid),
                decreases plane.ports.len() - j,
            {
                proof {
                    assert(ports.take(j as int + 1).drop_last() =~= ports.take(j as int));
                    assert(ports.take(j as int + 1).last() == plane.ports@[j as int]@);
                }
                match &plane.ports[j] {
                    L2Port::TaggedEthernet { name, .. } => {
                        note_port(&mut tags, name, None);
                        note_vlan(&mut vlans, vid, name, true);
                    },
                    L2Port::UntaggedEthernet { name, .. } => {
                        note_port(&mut tags, name, Some(vid));
                        note_vlan(&mut vlans, vid, name, false);
                    },
                    _ => {},
                }
                j += 1;
            }
            proof {
                assert(ports.take(plane.ports@.len() as int) =~= ports);
            }
            i += 1;
        }
        proof {
            assert(planes.take(switch_planes@.len() as int) =~= planes);
        }
        let ghost ports_start = entry_views(self.bridge_port@);
        let ghost all_tags = entry_views(tags@);
        let mut k: usize = 0;
        proof {
            assert(all_tags.take(0) =~= Seq::<PortTagsView>::empty());
        }
        while k < tags.len()
            invariant
                k <= tags.len(),
                all_tags == entry_views(tags@),
                entry_views(self.bridge_port@) == big_bridge_ports(
                    ports_start,
                    all_tags.take(k as int),
                ),
                self.identity == old(self).identity,
                self.ethernet == old(self).ethernet,
                entry_views(self.bridge@) == with_big_bridge(old(self)@, planes).bridge,
                self.bridge_vlan == old(self).bridge_vlan,
                self.ipv_4_address == old(self).ipv_4_address,
                self.ipv_6_address == old(self).ipv_6_address,
                self.vlan == old(self).vlan,
                self.vxlan == old(self).vxlan,
                self.vxlan_vteps == old(self).vxlan_vteps,
                self.ospf_instance == old(self).ospf_instance,
                self.ospf_area == old(self).ospf_area,
                self.ospf_interface == old(self).ospf_interface,
                self.dhcp_v_4_client == old(self).dhcp_v_4_client,
                self.dhcp_v_4_server == old(self).dhcp_v_4_server,
                self.dhcp_v_4_server_network == old(self).dhcp_v_4_server_network,
                self.ipv_4_pool == old(self).ipv_4_pool,
            decreases tags.len() - k,
        {
            let p = &tags[k];
            let ghost before = entry_views(self.bridge_port@);
            proof {
                assert(all_tags.take(k as int + 1).drop_last() =~= all_tags.take(k as int));
                assert(all_tags.take(k as int + 1).last() == p@);
            }
            let at = ensure(
                &mut self.bridge_port,
                BridgePort {
                    bridge: String::from_str("switch"),
                    interface: p.name.clone(),
                    ingress_filtering: None,
                    frame_types: None,
                    pvid: None,
                },
            );
            let frame_types = match p.untagged {
                Some(_) => if p.tagged {
                    VlanFrameTypes::AdmitAll
                } else {
                    VlanFrameTypes::AdmitOnlyUntaggedAndPriorityTagged
                },
                None => VlanFrameTypes::AdmitOnlyVlanTagged,
            };
            let pvid = match p.untagged {
                Some(vid) => Some(vid),
                None => self.bridge_port[at].pvid,
            };
            proof {
                let e = ensured::<BridgePort>(before, bridge_port_on(switch_name(), p@.name));
                crate::table::lemma_position::<BridgePort>(e, (switch_name(), p@.name));
                assert(e[at as int] == self.bridge_port@[at as int]@);
            }
            put(
                &mut self.bridge_port,
                at,
                BridgePort {
                    bridge: String::from_str("switch"),
                    interface: p.name.clone(),
                    ingress_filtering: Some(true),
                    frame_types: Some(frame_types),
                    pvid,
                },
            );
            k += 1;
        }
        proof {
            assert(all_tags.take(tags@.len() as int) =~= all_tags);
        }
        let ghost vlans_start = entry_views(self.bridge_vlan@);
        let ghost all_vlans = entry_views(vlans@);
        let mut k: usize = 0;
        proof {
            assert(all_vlans.take(0) =~= Seq::<VlanPortsView>::empty());
        }
        while k < vlans.len()
            invariant
                k <= vlans.len(),
                all_vlans == entry_views(vlans@),
                entry_views(self.bridge_vlan@) == big_bridge_vlans(
                    vlans_start,
                    all_vlans.take(k as int),
                ),
                self.identity == old(self).identity,
                self.ethernet == old(self).ethernet,
                entry_views(self.bridge@) == with_big_bridge(old(self)@, planes).bridge,
                entry_views(self.bridge_port@) == with_big_bridge(old(self)@, planes).bridge_port,
                self.ipv_4_address == old(self).ipv_4_address,
                self.ipv_6_address == old(self).ipv_6_address,
                self.vlan == old(self).vlan,
                self.vxlan == old(self).vxlan,
                self.vxlan_vteps == old(self).vxlan_vteps,
                self.ospf_instance == old(self).ospf_instance,
                self.ospf_area == old(self).ospf_area,
                self.ospf_interface == old(self).ospf_interface,
                self.dhcp_v_4_client == old(self).dhcp_v_4_client,
                self.dhcp_v_4_server == old(self).dhcp_v_4_server,
                self.dhcp_v_4_server_network == old(self).dhcp_v_4_server_network,
                self.ipv_4_pool == old(self).ipv_4_pool,
            decreases vlans.len() - k,
        {
            let v = &vlans[k];
            proof {
                assert(all_vlans.take(k as int + 1).drop_last() =~= all_vlans.take(k as int));
                assert(all_vlans.take(k as int + 1).last() == v@);
            }
            ensure(
                &mut self.bridge_vlan,
                BridgeVlan {
                    bridge: String::from_str("switch"),
                    tagged: copy_names(&v.tagged),
                    untagged: copy_names(&v.untagged),
                    vlan_ids: VlanIds::Single(v.vid),
                },
            );
            k += 1;
        }
        proof {
            assert(all_vlans.take(vlans@.len() as int) =~= all_vlans);
        }
    }

    /// Wires up the planes of the device, and says what stands for each.
    pub fn setup_l2<'a>(self, setup: &L2Setup<'a>, concept: SwitchVlanConcept) -> (r: Result<
        (Self, Vec<Mapped<'a>>),
        SetupError,
    >)
        requires
            ethernet_only(plane_views(setup.planes@)),
        ensures
            match with_l2(self@, plane_views(setup.planes@)) {
                Ok((target, mapped)) => r matches Ok((t, m)) && t@ == target && mapped_views(m@)
                    == mapped && (forall|topology: &Topology|
                    (forall|i: int|
                        0 <= i < setup.planes@.len() ==> (#[trigger] setup.planes@[i]).on(topology))
                        ==> mapped_on(m@, topology)),
                Err(e) => r matches Err(f) && f@ == e,
            },
    {
        let ghost planes = plane_views(setup.planes@);
        let mut t = self;
        let mut i: usize = 0;
        proof {
            assert(planes.take(0) =~= Seq::<L2PlaneView>::empty());
        }
        while i < setup.planes.len()
            invariant
                i <= setup.planes.len(),
                planes == plane_views(setup.planes@),
                ethernet_only(planes),
                renamed_planes(self@.ethernet, planes.take(i as int)) == Ok::<
                    Seq<EthernetPortView>,
                    SetupErrorView,
                >(t@.ethernet),
                t@ == (TargetView { ethernet: t@.ethernet, ..self@ }),
            decreases setup.planes.len() - i,
        {
            let plane = &setup.planes[i];
            let ghost ports = port_views(plane.ports@);
            let ghost start = t@.ethernet;
            proof {
                assert(planes.take(i as int + 1).drop_last() =~= planes.take(i as int));
                assert(planes.take(i as int + 1).last() == plane@);
                assert(ports.take(0) =~= Seq::<L2PortView>::empty());
            }
            let mut j: usize = 0;
            while j < plane.ports.len()
                invariant
                    j <= plane.ports.len(),
                    i < setup.planes.len(),
                    planes == plane_views(setup.planes@),
                    plane == &setup.planes@[i as int],
                    ports == port_views(plane.ports@),
                    renamed_planes(self@.ethernet, planes.take(i as int)) == Ok::<
                        Seq<EthernetPortView>,
                        SetupErrorView,
                    >(start),
                    renamed_ports(start, ports.take(j as int)) == Ok::<
                        Seq<EthernetPortView>,
                        SetupErrorView,
                    >(t@.ethernet),
                    t@ == (TargetView { ethernet: t@.ethernet, ..self@ }),
                decreases plane.ports.len() - j,
            {
                proof {
                    assert(ports.take(j as int + 1).drop_last() =~= ports.take(j as int));
                    assert(ports.take(j as int + 1).last() == plane.ports@[j as int]@);
                    assert(planes.take(i as int + 1).drop_last() =~= planes.take(i as int));
                    assert(planes.take(i as int + 1).last() == plane@);
                }
                let renamed = match &plane.ports[j] {
                    L2Port::TaggedEthernet { name, port } => t.rename_port(*port, name.as_str()),
                    L2Port::UntaggedEthernet { name, port } => t.rename_port(*port, name.as_str()),
                    _ => Ok(t),
                };
                match renamed {
                    Ok(next) => {
                        t = next;
                    },
                    Err(e) => {
                        proof {
                            lemma_renamed_ports_err(start, ports, j as int + 1);
                            lemma_renamed_planes_err(self@.ethernet, planes, i as int + 1);
                        }
                        return Err(e);
                    },
                }
                j += 1;
            }
            proof {
                assert(ports.take(plane.ports@.len() as int) =~= ports);
            }
            i += 1;
        }
        proof {
            assert(planes.take(setup.planes@.len() as int) =~= planes);
        }
        let mut mapped: Vec<Mapped<'a>> = Vec::new();
        let mut switch_planes: Vec<&L2Plane<'a>> = Vec::new();
        let mut all_untagged = true;
        let mut i: usize = 0;
        proof {
            assert(mapped_views(mapped@) =~= routed_planes(planes, 0));
            assert(plane_ref_views(switch_planes@) =~= switched_planes(planes, 0));
        }
        while i < setup.planes.len()
            invariant
                i <= setup.planes.len(),
                planes == plane_views(setup.planes@),
                mapped_views(mapped@) == routed_planes(planes, i as int),
                plane_ref_views(switch_planes@) == switched_planes(planes, i as int),
                all_untagged == untagged_only(plane_ref_views(switch_planes@)),
                forall|k: int|
                    0 <= k < mapped@.len() ==> exists|w: int|
                        0 <= w < setup.planes@.len() && (#[trigger] mapped@[k]).interface
                            == setup.planes@[w].root_port,
                forall|k: int|
                    0 <= k < switch_planes@.len() ==> exists|w: int|
                        0 <= w < setup.planes@.len() && (#[trigger] switch_planes@[k]).root_port
                            == setup.planes@[w].root_port,
            decreases setup.planes.len() - i,
        {
            let plane = &setup.planes[i];
            let ghost ports = port_views(plane.ports@);
            proof {
                assert(planes[i as int] == plane@);
            }
            let routed = if plane.ports.len() == 1 {
                match &plane.ports[0] {
                    L2Port::UntaggedEthernet { name, .. } => {
                        if count_upto_two(&setup.planes, name) == 1 {
                            Some(name.clone())
                        } else {
                            None
                        }
                    },
                    _ => None,
                }
            } else {
                None
            };
            match routed {
                Some(name) => {
                    let ghost before = mapped_views(mapped@);
                    let ghost seen = mapped@;
                    let entry = Mapped {
                        interface: plane.root_port,
                        plane: MappedPlane::Untagged(name),
                    };
                    mapped.push(entry);
                    proof {
                        assert(mapped_views(mapped@) =~= before.push(
                            (plane@.root_port, MappedPlaneView::Untagged(port_name(ports[0])->0)),
                        ));
                        assert forall|k: int| 0 <= k < mapped@.len() implies exists|w: int|
                            0 <= w < setup.planes@.len() && (#[trigger] mapped@[k]).interface
                                == setup.planes@[w].root_port by {
                            if k < seen.len() {
                                assert(mapped@[k] == seen[k]);
                            } else {
                                assert(mapped@[k].interface == setup.planes@[i as int].root_port);
                            }
                        }
                    }
                },
                None => {
                    let ghost before = plane_ref_views(switch_planes@);
                    let ghost seen = switch_planes@;
                    let mut j: usize = 0;
                    let mut mine = true;
                    while j < plane.ports.len()
                        invariant
                            j <= plane.ports.len(),
                            ports == port_views(plane.ports@),
                            mine == (forall|k: int|
                                0 <= k < j ==> (#[trigger] ports[k]) is UntaggedEthernet),
                        decreases plane.ports.len() - j,
                    {
                        proof {
                            assert(ports[j as int] == plane.ports@[j as int]@);
                        }
                        match &plane.ports[j] {
                            L2Port::UntaggedEthernet { .. } => {},
                            _ => {
                                mine = false;
                            },
                        }
                        j += 1;
                    }
                    switch_planes.push(plane);
                    proof {
                        let now = plane_ref_views(switch_planes@);
                        assert(now =~= before.push(plane@));
                        assert(untagged_only(now) == (untagged_only(before) && mine)) by {
                            if untagged_only(before) && mine {
                                assert forall|a: int, b: int|
                                    0 <= a < now.len() && 0 <= b < now[a].ports.len() implies (
                                #[trigger] now[a].ports[b]) is UntaggedEthernet by {
                                    if a < before.len() {
                                        assert(now[a] == before[a]);
                                    }
                                }
                            }
                            if untagged_only(now) {
                                assert forall|a: int, b: int|
                                    0 <= a < before.len() && 0 <= b < before[a].ports.len() implies (
                                #[trigger] before[a].ports[b]) is UntaggedEthernet by {
                                    assert(now[a] == before[a]);
                                }
                                assert forall|k: int| 0 <= k < ports.len() implies (
                                #[trigger] ports[k]) is UntaggedEthernet by {
                                    assert(now[before.len() as int].ports[k] == ports[k]);
                                }
                            }
                        }
                        assert forall|k: int| 0 <= k < switch_planes@.len() implies exists|w: int|
                            0 <= w < setup.planes@.len() && (
                            #[trigger] switch_planes@[k]).root_port
                                == setup.planes@[w].root_port by {
                            if k < seen.len() {
                                assert(switch_planes@[k] == seen[k]);
                            } else {
                                assert(switch_planes@[k].root_port
                                    == setup.planes@[i as int].root_port);
                            }
                        }
                    }
                    all_untagged = all_untagged && mine;
                },
            }
            i += 1;
        }
        let ghost switched = plane_ref_views(switch_planes@);
        if switch_planes.len() > 0 {
            if switch_planes.len() == 1 && all_untagged {
                let single = switch_planes[0];
                proof {
                    assert(switched[0] == single@);
                    assert forall|j: int| 0 <= j < single@.ports.len() implies (
                    #[trigger] single@.ports[j]) is UntaggedEthernet by {
                        assert(switched[0].ports[j] == single@.ports[j]);
                    }
                }
                t.setup_single_switch_without_vlan(single);
                let ghost before = mapped_views(mapped@);
                mapped.push(
                    Mapped {
                        interface: single.root_port,
                        plane: MappedPlane::Untagged(String::from_str("switch")),
                    },
                );
                proof {
                    assert(mapped_views(mapped@) =~= before.push(
                        (single@.root_port, MappedPlaneView::Untagged(switch_name())),
                    ));
                }
            } else {
                match concept {
                    SwitchVlanConcept::OneBridge => {
                        t.setup_big_bridge(&switch_planes);
                    },
                }
                let ghost routed = mapped_views(mapped@);
                let mut k: usize = 0;
                while k < switch_planes.len()
                    invariant
                        k <= switch_planes.len(),
                        switched == plane_ref_views(switch_planes@),
                        mapped_views(mapped@) == routed + big_bridge_mapped(switched).take(k as int),
                        forall|n: int|
                            0 <= n < mapped@.len() ==> exists|w: int|
                                0 <= w < setup.planes@.len() && (#[trigger] mapped@[n]).interface
                                    == setup.planes@[w].root_port,
                        forall|n: int|
                            0 <= n < switch_planes@.len() ==> exists|w: int|
                                0 <= w < setup.planes@.len() && (
                                #[trigger] switch_planes@[n]).root_port
                                    == setup.planes@[w].root_port,
                    decreases switch_planes.len() - k,
                {
                    let plane = switch_planes[k];
                    let ghost seen = mapped@;
                    mapped.push(
                        Mapped {
                            interface: plane.root_port,
                            plane: MappedPlane::Tagged {
                                if_name: String::from_str("switch"),
                                vid: plane.vlan_id,
                            },
                        },
                    );
                    proof {
                        assert(switched[k as int] == plane@);
                        let entry = (
                            plane@.root_port,
                            MappedPlaneView::Tagged { if_name: switch_name(), vid: plane@.vlan_id },
                        );
                        assert(mapped_views(mapped@) =~= mapped_views(seen).push(entry));
                        assert(big_bridge_mapped(switched)[k as int] == entry);
                        assert(big_bridge_mapped(switched).take(k as int + 1) =~= big_bridge_mapped(
                            switched,
                        ).take(k as int).push(entry));
                        assert(mapped_views(mapped@) =~= routed + big_bridge_mapped(switched).take(
                            k as int + 1,
                        ));
                        assert forall|n: int| 0 <= n < mapped@.len() implies exists|w: int|
                            0 <= w < setup.planes@.len() && (#[trigger] mapped@[n]).interface
                                == setup.planes@[w].root_port by {
                            if n < seen.len() {
                                assert(mapped@[n] == seen[n]);
                            } else {
                                let w = choose|w: int|
                                    0 <= w < setup.planes@.len() && switch_planes@[k as int].root_port
                                        == setup.planes@[w].root_port;
                                assert(mapped@[n].interface == setup.planes@[w].root_port);
                            }
                        }
                    }
                    k += 1;
                }
                proof {
                    assert(big_bridge_mapped(switched).take(switch_planes@.len() as int)
                        =~= big_bridge_mapped(switched));
                }
            }
        }
        proof {
            assert forall|topology: &Topology|
                (forall|i: int|
                    0 <= i < setup.planes@.len() ==> (#[trigger] setup.planes@[i]).on(topology))
                    implies mapped_on(mapped@, topology) by {
                assert forall|n: int| 0 <= n < mapped@.len() implies (
                #[trigger] mapped@[n]).interface.topology == topology by {
                    let w = choose|w: int|
                        0 <= w < setup.planes@.len() && mapped@[n].interface
                            == setup.planes@[w].root_port;
                    assert(setup.planes@[w].on(topology));
                }
            }
        }
        Ok((t, mapped))
    }
}

/// Notes that the port `name` is untagged under the tag `untagged`, or
/// that it is tagged where there is no such tag.
fn note_port(tags: &mut Vec<PortTags>, name: &String, untagged: Option<u16>)
    ensures
        entry_views(final(tags)@) == amended::<PortTags>(
            entry_views(old(tags)@),
            PortTagsView { name: name@, untagged: None, tagged: false },
            |p: PortTagsView|
                match untagged {
                    Some(vid) => PortTagsView { untagged: Some(vid), ..p },
                    None => PortTagsView { tagged: true, ..p },
                },
        ),
{
    let ghost before = entry_views(tags@);
    let at = ensure(tags, PortTags { name: name.clone(), untagged: None, tagged: false });
    proof {
        let e = ensured::<PortTags>(before, PortTagsView { name: name@, untagged: None, tagged: false });
        crate::table::lemma_position::<PortTags>(e, name@);
        assert(e[at as int] == tags@[at as int]@);
    }
    let entry = match untagged {
        Some(vid) => PortTags { name: name.clone(), untagged: Some(vid), tagged: tags[at].tagged },
        None => PortTags { name: name.clone(), untagged: tags[at].untagged, tagged: true },
    };
    put(tags, at, entry);
}

/// Notes that the port `name` carries the tag `vid`, tagged or untagged.
fn note_vlan(vlans: &mut Vec<VlanPorts>, vid: u16, name: &String, tagged: bool)
    ensures
        entry_views(final(vlans)@) == amended::<VlanPorts>(
            entry_views(old(vlans)@),
            VlanPortsView { vid, untagged: Seq::empty(), tagged: Seq::empty() },
            |p: VlanPortsView|
                if tagged {
                    VlanPortsView { tagged: with_name(p.tagged, name@), ..p }
                } else {
                    VlanPortsView { untagged: with_name(p.untagged, name@), ..p }
                },
        ),
{
    let ghost before = entry_views(vlans@);
    let fresh = VlanPorts { vid, untagged: Vec::new(), tagged: Vec::new() };
    proof {
        assert(views(fresh.untagged@) =~= Seq::<Seq<char>>::empty());
        assert(views(fresh.tagged@) =~= Seq::<Seq<char>>::empty());
    }
    let at = ensure(vlans, fresh);
    proof {
        let e = ensured::<VlanPorts>(
            before,
            VlanPortsView { vid, untagged: Seq::empty(), tagged: Seq::empty() },
        );
        crate::table::lemma_position::<VlanPorts>(e, vid);
        assert(e[at as int] == vlans@[at as int]@);
    }
    let mut untagged_names = copy_names(&vlans[at].untagged);
    let mut tagged_names = copy_names(&vlans[at].tagged);
    if tagged {
        push_unique(&mut tagged_names, name);
    } else {
        push_unique(&mut untagged_names, name);
    }
    put(vlans, at, VlanPorts { vid, untagged: untagged_names, tagged: tagged_names });
}

/// The planes, told by ids.
pub open spec fn plane_ref_views(planes: Seq<&L2Plane<'_>>) -> Seq<L2PlaneView> {
    Seq::new(planes.len(), |i: int| planes[i]@)
}

} // verus!
