//! The forwarding planes of a device.
//!
//! A plane is the set of ports of one bridge that carry one VLAN. An
//! interface that is tagged for some VLANs and untagged for another has a
//! port in the plane of each of them; an interface without a VLAN has a
//! port in the plane that its bridge has for no VLAN. The planes come in
//! the order of their bridges and, under a bridge, of their VLANs. A plane
//! whose VLAN has no tag in the inventory is given one that no other plane
//! of the device has, from 60000 on.

use crate::access::DeviceAccess;
use crate::access::InterfaceAccess;
use crate::access::VlanAccess;
use crate::error::SetupError;
use crate::topology::InterfaceId;
use crate::topology::PhysicalPortId;
use crate::topology::Topology;
use crate::topology::VlanId;
use std::collections::HashSet;
use vstd::prelude::*;
use vstd::std_specs::hash::*;
use vstd::string::*;

verus! {

broadcast use vstd::std_specs::hash::group_hash_axioms;

/// The first tag that is given to a VLAN without a tag.
pub const FIRST_SYNTHETIC_TAG: u16 = 60000;

/// A port of a plane.
#[derive(Debug, Clone, PartialEq, Eq)]
pub enum L2Port {
    TaggedEthernet { name: String, port: PhysicalPortId },
    UntaggedEthernet { name: String, port: PhysicalPortId },
    VxLan { name: String },
    Caps,
}

/// A port of a plane, with its name as its characters.
pub enum L2PortView {
    TaggedEthernet { name: Seq<char>, port: PhysicalPortId },
    UntaggedEthernet { name: Seq<char>, port: PhysicalPortId },
    VxLan { name: Seq<char> },
    Caps,
}

impl View for L2Port {
    type V = L2PortView;

    open spec fn view(&self) -> L2PortView {
        match self {
            L2Port::TaggedEthernet { name, port } => L2PortView::TaggedEthernet {
                name: name@,
                port: *port,
            },
            L2Port::UntaggedEthernet { name, port } => L2PortView::UntaggedEthernet {
                name: name@,
                port: *port,
            },
            L2Port::VxLan { name } => L2PortView::VxLan { name: name@ },
            L2Port::Caps => L2PortView::Caps,
        }
    }
}

/// The ports, with their names as their characters.
pub open spec fn port_views(ports: Seq<L2Port>) -> Seq<L2PortView> {
    Seq::new(ports.len(), |i: int| ports[i]@)
}

/// The ports of one bridge that carry one VLAN.
#[derive(Debug, Clone)]
pub struct L2Plane<'a> {
    pub ports: Vec<L2Port>,
    /// The VLAN of the plane; `None` for the plane of the ports without one.
    pub vlan: Option<VlanAccess<'a>>,
    /// The tag under which the plane runs on the device.
    pub vlan_id: u16,
    /// The bridge of the plane, or the interface itself where it has none.
    pub root_port: InterfaceAccess<'a>,
}

/// A plane, told by ids.
pub struct L2PlaneView {
    pub ports: Seq<L2PortView>,
    pub vlan: Option<VlanId>,
    pub vlan_id: u16,
    pub root_port: InterfaceId,
}

impl<'a> View for L2Plane<'a> {
    type V = L2PlaneView;

    open spec fn view(&self) -> L2PlaneView {
        L2PlaneView {
            ports: port_views(self.ports@),
            vlan: match self.vlan {
                Some(v) => Some(v.id),
                None => None,
            },
            vlan_id: self.vlan_id,
            root_port: self.root_port.id,
        }
    }
}

impl<'a> L2Plane<'a> {
    /// Whether every handle of the plane is on `topology`.
    pub open spec fn on(&self, topology: &Topology) -> bool {
        &&& self.root_port.topology == topology
        &&& self.vlan matches Some(v) ==> v.topology == topology
    }

    /// Whether the plane comes before `other` in the order of planes: by
    /// VLAN, a plane without one first, then by bridge, then by tag.
    pub open spec fn spec_precedes(&self, other: &L2Plane<'a>) -> bool {
        plane_precedes(self@, other@)
    }

    /// Whether the plane comes before `other` in the order of planes.
    pub fn precedes(&self, other: &L2Plane<'a>) -> (r: bool)
        ensures
            r == self.spec_precedes(other),
    {
        let a: u64 = match &self.vlan {
            Some(v) => v.id.0 as u64 + 1,
            None => 0,
        };
        let b: u64 = match &other.vlan {
            Some(v) => v.id.0 as u64 + 1,
            None => 0,
        };
        if a != b {
            a < b
        } else if self.root_port.id.0 != other.root_port.id.0 {
            self.root_port.id.0 < other.root_port.id.0
        } else {
            self.vlan_id < other.vlan_id
        }
    }
}

/// The place of a VLAN in the order of VLANs: none first.
pub open spec fn vlan_rank(vlan: Option<VlanId>) -> int {
    match vlan {
        Some(v) => v.0 as int + 1,
        None => 0,
    }
}

/// The order of planes: by VLAN, then by bridge, then by tag.
pub open spec fn plane_precedes(a: L2PlaneView, b: L2PlaneView) -> bool {
    if vlan_rank(a.vlan) != vlan_rank(b.vlan) {
        vlan_rank(a.vlan) < vlan_rank(b.vlan)
    } else if a.root_port.0 != b.root_port.0 {
        a.root_port.0 < b.root_port.0
    } else {
        a.vlan_id < b.vlan_id
    }
}

/// The planes, told by ids.
pub open spec fn plane_views(planes: Seq<L2Plane<'_>>) -> Seq<L2PlaneView> {
    Seq::new(planes.len(), |i: int| planes[i]@)
}

/// The planes of a device.
#[derive(Debug, Clone, Default)]
pub struct L2Setup<'a> {
    pub planes: Vec<L2Plane<'a>>,
}

/// One port that an interface has in one plane.
pub struct PlaneEntry {
    pub bridge: InterfaceId,
    pub vlan: Option<VlanId>,
    pub port: L2PortView,
}

/// The ports that came together for one bridge and one VLAN.
pub struct PlaneGroup {
    pub bridge: InterfaceId,
    pub vlan: Option<VlanId>,
    pub ports: Seq<L2PortView>,
}

/// The order of the planes of a device: by bridge, then by VLAN, a plane
/// without one first.
pub open spec fn key_before(b1: InterfaceId, v1: Option<VlanId>, b2: InterfaceId, v2: Option<VlanId>) -> bool {
    b1.0 < b2.0 || (b1.0 == b2.0 && vlan_rank(v1) < vlan_rank(v2))
}

/// The ports that the interface `id` has in the planes of its device, were
/// it given the name `name`: one tagged port for each VLAN it is tagged for,
/// then one untagged port for the VLAN it is untagged for; one untagged port
/// in the plane without a VLAN where it has neither. An interface that is on
/// no hardware port has none.
pub open spec fn entries_of(t: &Topology, id: InterfaceId, name: Seq<char>) -> Seq<PlaneEntry> {
    match t.spec_interface(id) {
        Some(d) => match d.external {
            Some(port) => {
                let bridge = match d.bridge {
                    Some(b) => b,
                    None => id,
                };
                let tagged = Seq::new(
                    d.tagged_vlans@.len(),
                    |i: int|
                        PlaneEntry {
                            bridge,
                            vlan: Some(d.tagged_vlans@[i]),
                            port: L2PortView::TaggedEthernet { name, port },
                        },
                );
                match d.vlan {
                    Some(u) => tagged.push(
                        PlaneEntry {
                            bridge,
                            vlan: Some(u),
                            port: L2PortView::UntaggedEthernet { name, port },
                        },
                    ),
                    None => if d.tagged_vlans@.len() > 0 {
                        tagged
                    } else {
                        seq![
                            PlaneEntry {
                                bridge,
                                vlan: None,
                                port: L2PortView::UntaggedEthernet { name, port },
                            },
                        ]
                    },
                }
            },
            None => Seq::empty(),
        },
        None => Seq::empty(),
    }
}

/// Whether the interface `id` needs a name: whether it is on a hardware port.
pub open spec fn needs_name(t: &Topology, id: InterfaceId) -> bool {
    t.spec_interface(id) matches Some(d) && d.external is Some
}

/// The ports that the interfaces have in the planes of their device, in the
/// order of the interfaces. `None` where an interface that needs a name has
/// none.
pub open spec fn all_entries(
    t: &Topology,
    interfaces: Seq<InterfaceId>,
    names: spec_fn(InterfaceId) -> Option<Seq<char>>,
) -> Option<Seq<PlaneEntry>>
    decreases interfaces.len(),
{
    if interfaces.len() == 0 {
        Some(Seq::empty())
    } else {
        let id = interfaces.last();
        match all_entries(t, interfaces.drop_last(), names) {
            Some(before) => if needs_name(t, id) {
                match names(id) {
                    Some(name) => Some(before + entries_of(t, id, name)),
                    None => None,
                }
            } else {
                Some(before)
            },
            None => None,
        }
    }
}

/// The groups after the entry `e` was added: to the group of its bridge and
/// VLAN, which is created at its place in the order where there was none.
pub open spec fn placed(groups: Seq<PlaneGroup>, e: PlaneEntry) -> Seq<PlaneGroup>
    decreases groups.len(),
{
    if groups.len() == 0 {
        seq![PlaneGroup { bridge: e.bridge, vlan: e.vlan, ports: seq![e.port] }]
    } else if groups[0].bridge == e.bridge && groups[0].vlan == e.vlan {
        seq![
            PlaneGroup { bridge: e.bridge, vlan: e.vlan, ports: groups[0].ports.push(e.port) },
        ] + groups.skip(1)
    } else if key_before(e.bridge, e.vlan, groups[0].bridge, groups[0].vlan) {
        seq![PlaneGroup { bridge: e.bridge, vlan: e.vlan, ports: seq![e.port] }] + groups
    } else {
        seq![groups[0]] + placed(groups.skip(1), e)
    }
}

/// The groups that the entries make, in the order of the planes.
pub open spec fn grouped(entries: Seq<PlaneEntry>) -> Seq<PlaneGroup>
    decreases entries.len(),
{
    if entries.len() == 0 {
        Seq::empty()
    } else {
        placed(grouped(entries.drop_last()), entries.last())
    }
}

/// The tag that the inventory has for a VLAN.
pub open spec fn inventory_tag(t: &Topology, vlan: Option<VlanId>) -> Option<u16> {
    match vlan {
        Some(v) => match t.spec_vlan(v) {
            Some(d) => Some(d.vlan_id),
            None => None,
        },
        None => None,
    }
}

/// The tags that the inventory has for the VLANs of the groups.
pub open spec fn inventory_tags(t: &Topology, groups: Seq<PlaneGroup>) -> Set<u16> {
    Set::new(
        |tag: u16|
            exists|i: int|
                0 <= i < groups.len() && inventory_tag(t, (#[trigger] groups[i]).vlan) == Some(tag),
    )
}

/// The lowest tag from `from` on that is not in `used`.
pub open spec fn next_free(used: Set<u16>, from: int) -> Option<u16>
    decreases 0x1_0000 - from,
{
    if from < 0 || from > u16::MAX {
        None
    } else if !used.contains(from as u16) {
        Some(from as u16)
    } else {
        next_free(used, from + 1)
    }
}

/// The planes of the groups, the tags `used` being taken: a group whose
/// VLAN has a tag in the inventory runs under that tag, every other group
/// under the lowest tag from 60000 on that is not taken, which is taken
/// from then on. `None` where no tag is left for a group.
pub open spec fn planes_of(t: &Topology, groups: Seq<PlaneGroup>, used: Set<u16>) -> Option<
    Seq<L2PlaneView>,
>
    decreases groups.len(),
{
    if groups.len() == 0 {
        Some(Seq::empty())
    } else {
        let g = groups[0];
        match inventory_tag(t, g.vlan) {
            Some(tag) => match planes_of(t, groups.skip(1), used) {
                Some(rest) => Some(
                    seq![
                        L2PlaneView { ports: g.ports, vlan: g.vlan, vlan_id: tag, root_port: g.bridge },
                    ] + rest,
                ),
                None => None,
            },
            None => match next_free(used, FIRST_SYNTHETIC_TAG as int) {
                Some(tag) => match planes_of(t, groups.skip(1), used.insert(tag)) {
                    Some(rest) => Some(
                        seq![
                            L2PlaneView {
                                ports: g.ports,
                                vlan: g.vlan,
                                vlan_id: tag,
                                root_port: g.bridge,
                            },
                        ] + rest,
                    ),
                    None => None,
                },
                None => None,
            },
        }
    }
}

/// The planes of the device `device`, were its interfaces given the names
/// `names`.
pub open spec fn spec_planes(
    t: &Topology,
    device: crate::topology::DeviceId,
    names: spec_fn(InterfaceId) -> Option<Seq<char>>,
) -> Result<Seq<L2PlaneView>, SetupError> {
    match all_entries(t, t.spec_interfaces_of(device), names) {
        Some(entries) => {
            let groups = grouped(entries);
            match planes_of(t, groups, inventory_tags(t, groups)) {
                Some(planes) => Ok(planes),
                None => Err(SetupError::TagSpaceExhausted),
            }
        },
        None => Err(SetupError::CyclicCabling),
    }
}

/// A way to name the ports of the planes.
pub trait NameGenerator: Sized {
    /// The name for the port of an interface; `None` where the cabling that
    /// the name is taken from runs in a circle.
    spec fn spec_name(&self, interface: InterfaceAccess<'_>) -> Option<Seq<char>>;

    fn generate_interface_name(&mut self, interface: &InterfaceAccess<'_>) -> (r: Result<
        String,
        SetupError,
    >)
        ensures
            *final(self) == *old(self),
            match old(self).spec_name(*interface) {
                Some(name) => r matches Ok(s) && s@ == name,
                None => r == Err::<String, SetupError>(SetupError::CyclicCabling),
            },
    ;
}

/// Names a port as the inventory names its interface.
#[derive(Debug, Copy, Clone)]
pub struct KeepNameGenerator;

impl NameGenerator for KeepNameGenerator {
    open spec fn spec_name(&self, interface: InterfaceAccess<'_>) -> Option<Seq<char>> {
        Some(interface.spec_name())
    }

    fn generate_interface_name(&mut self, interface: &InterfaceAccess<'_>) -> (r: Result<
        String,
        SetupError,
    >) {
        Ok(String::from_str(interface.name()))
    }
}

/// The ports that came together for one bridge and one VLAN.
struct Group {
    bridge: InterfaceId,
    vlan: Option<VlanId>,
    ports: Vec<L2Port>,
}

impl View for Group {
    type V = PlaneGroup;

    closed spec fn view(&self) -> PlaneGroup {
        PlaneGroup { bridge: self.bridge, vlan: self.vlan, ports: port_views(self.ports@) }
    }
}

spec fn group_views(groups: Seq<Group>) -> Seq<PlaneGroup> {
    Seq::new(groups.len(), |i: int| groups[i]@)
}

/// What `placed` does, told by the place at which the entry belongs.
proof fn lemma_placed_at(groups: Seq<PlaneGroup>, e: PlaneEntry, at: int)
    requires
        0 <= at <= groups.len(),
        forall|j: int|
            0 <= j < at ==> key_before(
                (#[trigger] groups[j]).bridge,
                groups[j].vlan,
                e.bridge,
                e.vlan,
            ),
        at < groups.len() ==> !key_before(groups[at].bridge, groups[at].vlan, e.bridge, e.vlan),
    ensures
        at < groups.len() && groups[at].bridge == e.bridge && groups[at].vlan == e.vlan ==> placed(
            groups,
            e,
        ) == groups.update(
            at,
            PlaneGroup { bridge: e.bridge, vlan: e.vlan, ports: groups[at].ports.push(e.port) },
        ),
        !(at < groups.len() && groups[at].bridge == e.bridge && groups[at].vlan == e.vlan)
            ==> placed(groups, e) == groups.insert(
            at,
            PlaneGroup { bridge: e.bridge, vlan: e.vlan, ports: seq![e.port] },
        ),
    decreases at,
{
    let fresh = PlaneGroup { bridge: e.bridge, vlan: e.vlan, ports: seq![e.port] };
    if at == 0 {
        if groups.len() > 0 && groups[0].bridge == e.bridge && groups[0].vlan == e.vlan {
            let grown = PlaneGroup {
                bridge: e.bridge,
                vlan: e.vlan,
                ports: groups[0].ports.push(e.port),
            };
            assert(seq![grown] + groups.skip(1) =~= groups.update(0, grown));
        } else {
            assert(seq![fresh] + groups =~= groups.insert(0, fresh));
            if groups.len() > 0 {
                lemma_rank_total(groups[0].vlan, e.vlan);
            }
        }
    } else {
        let t = groups.skip(1);
        assert(key_before(groups[0].bridge, groups[0].vlan, e.bridge, e.vlan));
        assert forall|j: int| 0 <= j < at - 1 implies key_before(
            (#[trigger] t[j]).bridge,
            t[j].vlan,
            e.bridge,
            e.vlan,
        ) by {
            assert(t[j] == groups[j + 1]);
        }
        lemma_placed_at(t, e, at - 1);
        lemma_rank_total(groups[0].vlan, e.vlan);
        if at < groups.len() && groups[at].bridge == e.bridge && groups[at].vlan == e.vlan {
            let grown = PlaneGroup {
                bridge: e.bridge,
                vlan: e.vlan,
                ports: groups[at].ports.push(e.port),
            };
            assert(seq![groups[0]] + t.update(at - 1, grown) =~= groups.update(at, grown));
        } else {
            assert(seq![groups[0]] + t.insert(at - 1, fresh) =~= groups.insert(at, fresh));
        }
    }
}

/// VLANs of the same rank are the same.
proof fn lemma_rank_total(a: Option<VlanId>, b: Option<VlanId>)
    ensures
        vlan_rank(a) == vlan_rank(b) ==> a == b,
{
}

/// Whether the bridge and VLAN of a group come before `bridge` and `vlan`.
fn group_before(g: &Group, bridge: InterfaceId, vlan: Option<VlanId>) -> (r: bool)
    ensures
        r == key_before(g.bridge, g.vlan, bridge, vlan),
{
    let a: u64 = match g.vlan {
        Some(v) => v.0 as u64 + 1,
        None => 0,
    };
    let b: u64 = match vlan {
        Some(v) => v.0 as u64 + 1,
        None => 0,
    };
    g.bridge.0 < bridge.0 || (g.bridge.0 == bridge.0 && a < b)
}

fn same_vlan(a: Option<VlanId>, b: Option<VlanId>) -> (r: bool)
    ensures
        r == (a == b),
{
    match (a, b) {
        (Some(x), Some(y)) => x.0 == y.0,
        (None, None) => true,
        _ => false,
    }
}

/// Adds a port to the group of its bridge and VLAN.
fn place(groups: &mut Vec<Group>, bridge: InterfaceId, vlan: Option<VlanId>, port: L2Port)
    ensures
        group_views(final(groups)@) == placed(
            group_views(old(groups)@),
            PlaneEntry { bridge, vlan, port: port@ },
        ),
{
    let ghost before = group_views(groups@);
    let ghost e = PlaneEntry { bridge, vlan, port: port@ };
    let mut at: usize = 0;
    while at < groups.len() && group_before(&groups[at], bridge, vlan)
        invariant
            at <= groups.len(),
            groups@ == old(groups)@,
            before == group_views(groups@),
            forall|j: int|
                0 <= j < at ==> key_before(
                    (#[trigger] before[j]).bridge,
                    before[j].vlan,
                    bridge,
                    vlan,
                ),
        decreases groups.len() - at,
    {
        at += 1;
    }
    proof {
        lemma_placed_at(before, e, at as int);
    }
    if at < groups.len() && groups[at].bridge.0 == bridge.0 && same_vlan(groups[at].vlan, vlan) {
        let mut g = groups.remove(at);
        let ghost seen = port_views(g.ports@);
        g.ports.push(port);
        proof {
            assert(port_views(g.ports@) =~= seen.push(port@));
        }
        groups.insert(at, g);
        proof {
            assert(group_views(groups@) =~= before.update(
                at as int,
                PlaneGroup { bridge, vlan, ports: before[at as int].ports.push(port@) },
            ));
        }
    } else {
        let mut ports: Vec<L2Port> = Vec::new();
        ports.push(port);
        proof {
            assert(port_views(ports@) =~= seq![port@]);
        }
        groups.insert(at, Group { bridge, vlan, ports });
        proof {
            assert(group_views(groups@) =~= before.insert(
                at as int,
                PlaneGroup { bridge, vlan, ports: seq![port@] },
            ));
        }
    }
}

/// Where the entries of some of the interfaces cannot be had, those of all
/// of them cannot.
proof fn lemma_entries_none(
    t: &Topology,
    interfaces: Seq<InterfaceId>,
    names: spec_fn(InterfaceId) -> Option<Seq<char>>,
    n: int,
)
    requires
        0 <= n <= interfaces.len(),
        all_entries(t, interfaces.take(n), names) is None,
    ensures
        all_entries(t, interfaces, names) is None,
    decreases interfaces.len() - n,
{
    if n < interfaces.len() {
        assert(interfaces.take(n + 1).drop_last() =~= interfaces.take(n));
        lemma_entries_none(t, interfaces, names, n + 1);
    } else {
        assert(interfaces.take(n) =~= interfaces);
    }
}

/// The lowest tag from `from` on that is not in `used`.
fn find_free(used: &HashSet<u16>, from: u16) -> (r: Option<u16>)
    ensures
        r == next_free(used@, from as int),
{
    let mut candidate: u32 = from as u32;
    while candidate <= 0xffff && used.contains(&(candidate as u16))
        invariant
            from <= candidate <= 0x1_0000,
            next_free(used@, from as int) == next_free(used@, candidate as int),
        decreases 0x1_0000 - candidate,
    {
        candidate += 1;
    }
    if candidate <= 0xffff {
        Some(candidate as u16)
    } else {
        None
    }
}

impl<'a> L2Setup<'a> {
    /// The names that `generator` gives to the interfaces of `topology`.
    pub open spec fn names_of<G: NameGenerator>(topology: &'a Topology, generator: G) -> spec_fn(
        InterfaceId,
    ) -> Option<Seq<char>> {
        |id: InterfaceId| generator.spec_name(InterfaceAccess { topology, id })
    }

    /// The planes of `device`, its ports named by `name_generator`.
    pub fn new<G: NameGenerator>(device: &DeviceAccess<'a>, name_generator: &mut G) -> (r: Result<
        L2Setup<'a>,
        SetupError,
    >)
        ensures
            *final(name_generator) == *old(name_generator),
            match spec_planes(
                device.topology,
                device.id,
                Self::names_of(device.topology, *old(name_generator)),
            ) {
                Ok(planes) => r matches Ok(setup) && plane_views(setup.planes@) == planes && (
                forall|i: int|
                    0 <= i < setup.planes@.len() ==> (#[trigger] setup.planes@[i]).on(
                        device.topology,
                    )),
                Err(e) => r matches Err(f) && f@ == e@,
            },
    {
        let t = device.topology;
        let ghost names = Self::names_of(t, *name_generator);
        let ghost ids = t.spec_interfaces_of(device.id);
        let interfaces = device.interfaces();
        let mut groups: Vec<Group> = Vec::new();
        let ghost mut entries: Seq<PlaneEntry> = Seq::empty();
        proof {
            assert(ids.take(0) =~= Seq::<InterfaceId>::empty());
            assert(group_views(groups@) =~= Seq::<PlaneGroup>::empty());
        }
        let mut n: usize = 0;
        while n < interfaces.len()
            invariant
                n <= interfaces.len(),
                t == device.topology,
                names == Self::names_of(t, *name_generator),
                *name_generator == *old(name_generator),
                ids == t.spec_interfaces_of(device.id),
                interfaces@.len() == ids.len(),
                forall|i: int|
                    0 <= i < interfaces@.len() ==> (#[trigger] interfaces@[i]).topology == t
                        && interfaces@[i].id == ids[i],
                all_entries(t, ids.take(n as int), names) == Some(entries),
                group_views(groups@) == grouped(entries),
            decreases interfaces.len() - n,
        {
            let interface = interfaces[n];
            let ghost id = interface.id;
            proof {
                assert(ids.take(n as int + 1).drop_last() =~= ids.take(n as int));
                assert(ids.take(n as int + 1).last() == id);
                assert(interface == InterfaceAccess { topology: t, id });
            }
            let bridge = match interface.bridge() {
                Some(b) => b.id,
                None => interface.id,
            };
            match interface.external_port() {
                Some(port) => {
                    let name = match name_generator.generate_interface_name(&interface) {
                        Ok(name) => name,
                        Err(e) => {
                            proof {
                                lemma_entries_none(t, ids, names, n as int + 1);
                            }
                            return Err(e);
                        },
                    };
                    let ghost mine = entries_of(t, id, name@);
                    let ghost start = entries;
                    let tagged = interface.tagged_vlans();
                    let mut k: usize = 0;
                    proof {
                        assert(start + mine.take(0) =~= start);
                    }
                    while k < tagged.len()
                        invariant
                            k <= tagged.len(),
                            tagged@.len() == interface.spec_tagged_vlans().len(),
                            forall|i: int|
                                0 <= i < tagged@.len() ==> (#[trigger] tagged@[i]).id
                                    == interface.spec_tagged_vlans()[i],
                            interface == (InterfaceAccess { topology: t, id }),
                            interface.spec_external_port() == Some(port),
                            bridge == (match interface.spec_bridge() {
                                Some(b) => b,
                                None => id,
                            }),
                            mine == entries_of(t, id, name@),
                            tagged@.len() <= mine.len(),
                            entries == start + mine.take(k as int),
                            group_views(groups@) == grouped(entries),
                        decreases tagged.len() - k,
                    {
                        let vlan = tagged[k].id;
                        place(
                            &mut groups,
                            bridge,
                            Some(vlan),
                            L2Port::TaggedEthernet { name: name.clone(), port },
                        );
                        proof {
                            let e = mine[k as int];
                            let grown = entries.push(e);
                            assert(grown.drop_last() =~= entries);
                            assert(start + mine.take(k as int + 1) =~= grown);
                            entries = grown;
                        }
                        k += 1;
                    }
                    match interface.untagged_vlan() {
                        Some(vlan) => {
                            place(
                                &mut groups,
                                bridge,
                                Some(vlan.id),
                                L2Port::UntaggedEthernet { name, port },
                            );
                            proof {
                                let e = mine[k as int];
                                let grown = entries.push(e);
                                assert(grown.drop_last() =~= entries);
                                assert(start + mine =~= grown);
                                entries = grown;
                            }
                        },
                        None => {
                            if tagged.len() == 0 {
                                place(
                                    &mut groups,
                                    bridge,
                                    None,
                                    L2Port::UntaggedEthernet { name, port },
                                );
                                proof {
                                    let e = mine[0];
                                    let grown = entries.push(e);
                                    assert(grown.drop_last() =~= entries);
                                    assert(start + mine =~= grown);
                                    entries = grown;
                                }
                            } else {
                                proof {
                                    assert(mine.take(k as int) =~= mine);
                                }
                            }
                        },
                    }
                },
                None => {},
            }
            n += 1;
        }
        proof {
            assert(ids.take(interfaces@.len() as int) =~= ids);
        }
        // The tags that the inventory has for the VLANs of the planes.
        let mut used: HashSet<u16> = HashSet::new();
        let ghost all = group_views(groups@);
        let mut i: usize = 0;
        while i < groups.len()
            invariant
                i <= groups.len(),
                all == group_views(groups@),
                used@ == inventory_tags(t, all.take(i as int)),
            decreases groups.len() - i,
        {
            let ghost before = used@;
            match groups[i].vlan {
                Some(v) => {
                    let access = VlanAccess { topology: t, id: v };
                    match access.vlan_id() {
                        Some(tag) => {
                            used.insert(tag);
                        },
                        None => {},
                    }
                },
                None => {},
            }
            proof {
                let now = all.take(i as int + 1);
                let then = all.take(i as int);
                assert(now[i as int] == all[i as int]);
                assert forall|tag: u16| used@.contains(tag) <==> inventory_tags(t, now).contains(
                    tag,
                ) by {
                    if inventory_tags(t, now).contains(tag) {
                        let w = choose|w: int|
                            0 <= w < now.len() && inventory_tag(t, (#[trigger] now[w]).vlan)
                                == Some(tag);
                        if w < i {
                            assert(then[w] == now[w]);
                            assert(inventory_tags(t, then).contains(tag));
                        }
                    }
                    if before.contains(tag) {
                        let w = choose|w: int|
                            0 <= w < then.len() && inventory_tag(t, (#[trigger] then[w]).vlan)
                                == Some(tag);
                        assert(now[w] == then[w]);
                    }
                }
                assert(used@ =~= inventory_tags(t, now));
            }
            i += 1;
        }
        proof {
            assert(all.take(groups@.len() as int) =~= all);
        }
        // The groups in reverse, to take them one by one from the first on.
        let mut rest: Vec<Group> = Vec::new();
        while groups.len() > 0
            invariant
                group_views(groups@) + group_views(rest@).reverse() == all,
            decreases groups.len(),
        {
            let ghost before_groups = group_views(groups@);
            let ghost before_rest = group_views(rest@);
            let g = groups.pop().unwrap();
            rest.push(g);
            proof {
                assert(group_views(groups@) =~= before_groups.drop_last());
                assert(group_views(rest@) =~= before_rest.push(g@));
                assert(group_views(groups@) + group_views(rest@).reverse() =~= before_groups
                    + before_rest.reverse());
            }
        }
        proof {
            assert(group_views(rest@).reverse() =~= all);
        }
        let mut planes: Vec<L2Plane<'a>> = Vec::new();
        let ghost first_used = used@;
        let ghost mut done: Seq<L2PlaneView> = Seq::empty();
        proof {
            assert(plane_views(planes@) =~= done);
            assert(all.skip(0) =~= all);
        }
        let ghost mut taken: int = 0;
        let ghost wanted = spec_planes(
            device.topology,
            device.id,
            Self::names_of(device.topology, *old(name_generator)),
        );
        proof {
            assert(wanted == (match planes_of(t, all, first_used) {
                Some(p) => Ok::<Seq<L2PlaneView>, SetupError>(p),
                None => Err::<Seq<L2PlaneView>, SetupError>(SetupError::TagSpaceExhausted),
            }));
        }
        while rest.len() > 0
            invariant
                0 <= taken <= all.len(),
                *name_generator == *old(name_generator),
                wanted == spec_planes(
                    device.topology,
                    device.id,
                    Self::names_of(device.topology, *old(name_generator)),
                ),
                wanted == (match planes_of(t, all, first_used) {
                    Some(p) => Ok::<Seq<L2PlaneView>, SetupError>(p),
                    None => Err::<Seq<L2PlaneView>, SetupError>(SetupError::TagSpaceExhausted),
                }),
                group_views(rest@).reverse() == all.skip(taken),
                plane_views(planes@) == done,
                forall|k: int| 0 <= k < planes@.len() ==> (#[trigger] planes@[k]).on(t),
                planes_of(t, all, first_used) == (match planes_of(t, all.skip(taken), used@) {
                    Some(tail) => Some(done + tail),
                    None => None,
                }),
            decreases rest.len(),
        {
            let ghost before_rest = group_views(rest@);
            let ghost pending = all.skip(taken);
            let g = rest.pop().unwrap();
            proof {
                assert(group_views(rest@) =~= before_rest.drop_last());
                assert(pending[0] == before_rest.last());
                assert(g@ == pending[0]);
                assert(group_views(rest@).reverse() =~= pending.skip(1));
                assert(pending.skip(1) =~= all.skip(taken + 1));
            }
            let vlan = match g.vlan {
                Some(v) => Some(VlanAccess { topology: t, id: v }),
                None => None,
            };
            let known = match &vlan {
                Some(v) => v.vlan_id(),
                None => None,
            };
            let vlan_id = match known {
                Some(tag) => tag,
                None => match find_free(&used, FIRST_SYNTHETIC_TAG) {
                    Some(tag) => {
                        used.insert(tag);
                        tag
                    },
                    None => {
                        proof {
                            assert(inventory_tag(t, pending[0].vlan) is None);
                            assert(planes_of(t, pending, used@) is None);
                        }
                        return Err(SetupError::TagSpaceExhausted);
                    },
                },
            };
            let plane = L2Plane {
                ports: g.ports,
                vlan,
                vlan_id,
                root_port: InterfaceAccess { topology: t, id: g.bridge },
            };
            planes.push(plane);
            proof {
                let head = seq![plane@];
                assert(plane_views(planes@) =~= done + head);
                match planes_of(t, all.skip(taken + 1), used@) {
                    Some(tail) => {
                        assert(done + (head + tail) =~= (done + head) + tail);
                    },
                    None => {},
                }
                done = done + head;
                taken = taken + 1;
            }
        }
        proof {
            assert(all.skip(taken) =~= Seq::<PlaneGroup>::empty());
            assert(done + Seq::<L2PlaneView>::empty() =~= done);
        }
        Ok(L2Setup { planes })
    }
}

} // verus!
