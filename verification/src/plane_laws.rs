//! What holds of the planes of every device.

use crate::l2::all_entries;
use crate::l2::entries_of;
use crate::l2::grouped;
use crate::l2::inventory_tag;
use crate::l2::inventory_tags;
use crate::l2::key_before;
use crate::l2::needs_name;
use crate::l2::next_free;
use crate::l2::placed;
use crate::l2::plane_precedes;
use crate::l2::planes_of;
use crate::l2::spec_planes;
use crate::l2::L2PlaneView;
use crate::l2::PlaneEntry;
use crate::l2::PlaneGroup;
use crate::l2::FIRST_SYNTHETIC_TAG;
use crate::topology::DeviceId;
use crate::topology::InterfaceId;
use crate::topology::Topology;
use crate::l2::L2PortView;
use crate::topology::VlanId;
use vstd::prelude::*;

verus! {

/// The number of ports in all the groups.
pub open spec fn port_count(groups: Seq<PlaneGroup>) -> nat
    decreases groups.len(),
{
    if groups.len() == 0 {
        0
    } else {
        port_count(groups.drop_last()) + groups.last().ports.len()
    }
}

/// The number of ports in all the planes.
pub open spec fn plane_port_count(planes: Seq<L2PlaneView>) -> nat
    decreases planes.len(),
{
    if planes.len() == 0 {
        0
    } else {
        plane_port_count(planes.drop_last()) + planes.last().ports.len()
    }
}

/// Whether the groups hold the entry: whether the group of its bridge and
/// VLAN has its port.
pub open spec fn holds(groups: Seq<PlaneGroup>, e: PlaneEntry) -> bool {
    exists|i: int|
        0 <= i < groups.len() && (#[trigger] groups[i]).bridge == e.bridge && groups[i].vlan
            == e.vlan && groups[i].ports.contains(e.port)
}

/// Groups in the order of the planes, no two for one bridge and VLAN.
pub open spec fn in_order(groups: Seq<PlaneGroup>) -> bool {
    forall|i: int, j: int|
        0 <= i < j < groups.len() ==> key_before(
            (#[trigger] groups[i]).bridge,
            groups[i].vlan,
            (#[trigger] groups[j]).bridge,
            groups[j].vlan,
        )
}

proof fn lemma_count_skip(groups: Seq<PlaneGroup>)
    requires
        groups.len() > 0,
    ensures
        port_count(groups) == groups[0].ports.len() + port_count(groups.skip(1)),
    decreases groups.len(),
{
    if groups.len() == 1 {
        assert(groups.drop_last() =~= Seq::<PlaneGroup>::empty());
        assert(groups.skip(1) =~= Seq::<PlaneGroup>::empty());
        assert(port_count(groups.drop_last()) == 0);
    } else {
        lemma_count_skip(groups.drop_last());
        assert(groups.drop_last().skip(1) =~= groups.skip(1).drop_last());
        assert(groups.drop_last()[0] == groups[0]);
        assert(groups.skip(1).last() == groups.last());
    }
}

proof fn lemma_count_cons(g: PlaneGroup, groups: Seq<PlaneGroup>)
    ensures
        port_count(seq![g] + groups) == g.ports.len() + port_count(groups),
{
    let all = seq![g] + groups;
    lemma_count_skip(all);
    assert(all.skip(1) =~= groups);
}

/// Adding an entry adds one port, keeps the entries that were held and
/// holds the new one, and keeps the order.
proof fn lemma_placed(groups: Seq<PlaneGroup>, e: PlaneEntry)
    requires
        in_order(groups),
    ensures
        port_count(placed(groups, e)) == port_count(groups) + 1,
        holds(placed(groups, e), e),
        forall|o: PlaneEntry| holds(groups, o) ==> holds(placed(groups, e), o),
        in_order(placed(groups, e)),
        forall|i: int|
            0 <= i < placed(groups, e).len() ==> ((#[trigger] placed(groups, e)[i]).bridge
                == e.bridge && placed(groups, e)[i].vlan == e.vlan) || exists|j: int|
                0 <= j < groups.len() && (#[trigger] groups[j]).bridge == placed(
                    groups,
                    e,
                )[i].bridge && groups[j].vlan == placed(groups, e)[i].vlan,
    decreases groups.len(),
{
    let p = placed(groups, e);
    let fresh = PlaneGroup { bridge: e.bridge, vlan: e.vlan, ports: seq![e.port] };
    if groups.len() == 0 {
        assert(p[0] == fresh);
        assert(fresh.ports[0] == e.port);
        assert(p.drop_last() =~= Seq::<PlaneGroup>::empty());
        assert(port_count(p.drop_last()) == 0);
    } else if groups[0].bridge == e.bridge && groups[0].vlan == e.vlan {
        let grown = PlaneGroup {
            bridge: e.bridge,
            vlan: e.vlan,
            ports: groups[0].ports.push(e.port),
        };
        lemma_count_cons(grown, groups.skip(1));
        lemma_count_skip(groups);
        assert(p[0] == grown);
        assert(grown.ports[groups[0].ports.len() as int] == e.port);
        assert forall|o: PlaneEntry| holds(groups, o) implies holds(p, o) by {
            let i = choose|i: int|
                0 <= i < groups.len() && (#[trigger] groups[i]).bridge == o.bridge
                    && groups[i].vlan == o.vlan && groups[i].ports.contains(o.port);
            if i == 0 {
                let w = choose|w: int| 0 <= w < groups[0].ports.len() && groups[0].ports[w] == o.port;
                assert(grown.ports[w] == o.port);
                assert(p[0].ports.contains(o.port));
            } else {
                assert(p[i] == groups[i]);
            }
        }
        assert forall|i: int, j: int| 0 <= i < j < p.len() implies key_before(
            (#[trigger] p[i]).bridge,
            p[i].vlan,
            (#[trigger] p[j]).bridge,
            p[j].vlan,
        ) by {
            assert(p[j] == groups[j]);
            if i > 0 {
                assert(p[i] == groups[i]);
            } else {
                assert(key_before(groups[0].bridge, groups[0].vlan, groups[j].bridge, groups[j].vlan));
            }
        }
        assert forall|i: int| 0 <= i < p.len() implies ((#[trigger] p[i]).bridge == e.bridge
            && p[i].vlan == e.vlan) || exists|j: int|
            0 <= j < groups.len() && (#[trigger] groups[j]).bridge == p[i].bridge && groups[j].vlan
                == p[i].vlan by {
            if i > 0 {
                assert(p[i] == groups[i]);
            }
        }
    } else if key_before(e.bridge, e.vlan, groups[0].bridge, groups[0].vlan) {
        lemma_count_cons(fresh, groups);
        assert(p[0] == fresh);
        assert(fresh.ports[0] == e.port);
        assert forall|o: PlaneEntry| holds(groups, o) implies holds(p, o) by {
            let i = choose|i: int|
                0 <= i < groups.len() && (#[trigger] groups[i]).bridge == o.bridge
                    && groups[i].vlan == o.vlan && groups[i].ports.contains(o.port);
            assert(p[i + 1] == groups[i]);
        }
        assert forall|i: int, j: int| 0 <= i < j < p.len() implies key_before(
            (#[trigger] p[i]).bridge,
            p[i].vlan,
            (#[trigger] p[j]).bridge,
            p[j].vlan,
        ) by {
            assert(p[j] == groups[j - 1]);
            if i > 0 {
                assert(p[i] == groups[i - 1]);
            } else {
                if j > 1 {
                    assert(key_before(
                        groups[0].bridge,
                        groups[0].vlan,
                        groups[j - 1].bridge,
                        groups[j - 1].vlan,
                    ));
                }
            }
        }
        assert forall|i: int| 0 <= i < p.len() implies ((#[trigger] p[i]).bridge == e.bridge
            && p[i].vlan == e.vlan) || exists|j: int|
            0 <= j < groups.len() && (#[trigger] groups[j]).bridge == p[i].bridge && groups[j].vlan
                == p[i].vlan by {
            if i > 0 {
                assert(p[i] == groups[i - 1]);
            }
        }
    } else {
        let t = groups.skip(1);
        assert(in_order(t)) by {
            assert forall|i: int, j: int| 0 <= i < j < t.len() implies key_before(
                (#[trigger] t[i]).bridge,
                t[i].vlan,
                (#[trigger] t[j]).bridge,
                t[j].vlan,
            ) by {
                assert(t[i] == groups[i + 1]);
                assert(t[j] == groups[j + 1]);
            }
        }
        lemma_placed(t, e);
        let pt = placed(t, e);
        assert(p == seq![groups[0]] + pt);
        lemma_count_cons(groups[0], pt);
        lemma_count_skip(groups);
        assert(holds(p, e)) by {
            let i = choose|i: int|
                0 <= i < pt.len() && (#[trigger] pt[i]).bridge == e.bridge && pt[i].vlan == e.vlan
                    && pt[i].ports.contains(e.port);
            assert(p[i + 1] == pt[i]);
        }
        assert forall|o: PlaneEntry| holds(groups, o) implies holds(p, o) by {
            let i = choose|i: int|
                0 <= i < groups.len() && (#[trigger] groups[i]).bridge == o.bridge
                    && groups[i].vlan == o.vlan && groups[i].ports.contains(o.port);
            if i == 0 {
                assert(p[0] == groups[0]);
            } else {
                assert(t[i - 1] == groups[i]);
                assert(holds(t, o));
                let w = choose|w: int|
                    0 <= w < pt.len() && (#[trigger] pt[w]).bridge == o.bridge && pt[w].vlan
                        == o.vlan && pt[w].ports.contains(o.port);
                assert(p[w + 1] == pt[w]);
            }
        }
        assert forall|i: int| 0 <= i < p.len() implies ((#[trigger] p[i]).bridge == e.bridge
            && p[i].vlan == e.vlan) || exists|j: int|
            0 <= j < groups.len() && (#[trigger] groups[j]).bridge == p[i].bridge && groups[j].vlan
                == p[i].vlan by {
            if i == 0 {
                assert(p[0] == groups[0]);
            } else {
                assert(p[i] == pt[i - 1]);
                if !(pt[i - 1].bridge == e.bridge && pt[i - 1].vlan == e.vlan) {
                    let j = choose|j: int|
                        0 <= j < t.len() && (#[trigger] t[j]).bridge == pt[i - 1].bridge
                            && t[j].vlan == pt[i - 1].vlan;
                    assert(groups[j + 1] == t[j]);
                }
            }
        }
        assert forall|i: int, j: int| 0 <= i < j < p.len() implies key_before(
            (#[trigger] p[i]).bridge,
            p[i].vlan,
            (#[trigger] p[j]).bridge,
            p[j].vlan,
        ) by {
            assert(p[j] == pt[j - 1]);
            if i > 0 {
                assert(p[i] == pt[i - 1]);
            } else {
                assert(p[0] == groups[0]);
                if !(pt[j - 1].bridge == e.bridge && pt[j - 1].vlan == e.vlan) {
                    let m = choose|m: int|
                        0 <= m < t.len() && (#[trigger] t[m]).bridge == pt[j - 1].bridge
                            && t[m].vlan == pt[j - 1].vlan;
                    assert(t[m] == groups[m + 1]);
                    assert(key_before(
                        groups[0].bridge,
                        groups[0].vlan,
                        groups[m + 1].bridge,
                        groups[m + 1].vlan,
                    ));
                }
            }
        }
    }
}

/// The groups of some entries hold each of them once: they have as many
/// ports as there are entries, each entry is held, and no two groups are for
/// one bridge and VLAN.
pub proof fn lemma_grouped(entries: Seq<PlaneEntry>)
    ensures
        port_count(grouped(entries)) == entries.len(),
        forall|i: int| 0 <= i < entries.len() ==> holds(grouped(entries), #[trigger] entries[i]),
        in_order(grouped(entries)),
    decreases entries.len(),
{
    if entries.len() > 0 {
        let before = entries.drop_last();
        lemma_grouped(before);
        lemma_placed(grouped(before), entries.last());
        assert forall|i: int| 0 <= i < entries.len() implies holds(
            grouped(entries),
            #[trigger] entries[i],
        ) by {
            if i < before.len() {
                assert(before[i] == entries[i]);
            }
        }
    }
}

/// What the planes of some groups are made of: a plane for each group, in
/// their order, with the ports, the bridge and the VLAN of its group; under
/// the tag of the inventory where the VLAN has one, else under a tag from
/// 60000 on that was free before, that the inventory has for none of the
/// VLANs taken into account, and that no other plane was given.
pub proof fn lemma_planes_of(t: &Topology, groups: Seq<PlaneGroup>, used: Set<u16>)
    requires
        planes_of(t, groups, used) is Some,
    ensures
        planes_of(t, groups, used)->0.len() == groups.len(),
        forall|i: int|
            0 <= i < groups.len() ==> {
                let p = #[trigger] planes_of(t, groups, used)->0[i];
                &&& p.ports == groups[i].ports
                &&& p.vlan == groups[i].vlan
                &&& p.root_port == groups[i].bridge
                &&& inventory_tag(t, groups[i].vlan) matches Some(tag) ==> p.vlan_id == tag
                &&& inventory_tag(t, groups[i].vlan) is None ==> p.vlan_id >= FIRST_SYNTHETIC_TAG
                    && !used.contains(p.vlan_id)
            },
        forall|i: int, j: int|
            0 <= i < j < groups.len() && inventory_tag(t, groups[i].vlan) is None && inventory_tag(
                t,
                groups[j].vlan,
            ) is None ==> (#[trigger] planes_of(t, groups, used)->0[i]).vlan_id != (
            #[trigger] planes_of(t, groups, used)->0[j]).vlan_id,
    decreases groups.len(),
{
    let planes = planes_of(t, groups, used)->0;
    if groups.len() > 0 {
        let g = groups[0];
        let rest = groups.skip(1);
        match inventory_tag(t, g.vlan) {
            Some(tag) => {
                lemma_planes_of(t, rest, used);
                let tail = planes_of(t, rest, used)->0;
                assert forall|i: int| 0 <= i < groups.len() implies {
                    let p = #[trigger] planes[i];
                    &&& p.ports == groups[i].ports
                    &&& p.vlan == groups[i].vlan
                    &&& p.root_port == groups[i].bridge
                    &&& inventory_tag(t, groups[i].vlan) matches Some(tag) ==> p.vlan_id == tag
                    &&& inventory_tag(t, groups[i].vlan) is None ==> p.vlan_id
                        >= FIRST_SYNTHETIC_TAG && !used.contains(p.vlan_id)
                } by {
                    if i > 0 {
                        assert(planes[i] == tail[i - 1]);
                        assert(rest[i - 1] == groups[i]);
                    }
                }
                assert forall|i: int, j: int|
                    0 <= i < j < groups.len() && inventory_tag(t, groups[i].vlan) is None
                        && inventory_tag(t, groups[j].vlan) is None implies (#[trigger] planes[i]).vlan_id
                    != (#[trigger] planes[j]).vlan_id by {
                    assert(planes[i] == tail[i - 1]);
                    assert(planes[j] == tail[j - 1]);
                    assert(rest[i - 1] == groups[i]);
                    assert(rest[j - 1] == groups[j]);
                }
            },
            None => {
                let tag = next_free(used, FIRST_SYNTHETIC_TAG as int)->0;
                lemma_next_free(used, FIRST_SYNTHETIC_TAG as int);
                lemma_planes_of(t, rest, used.insert(tag));
                let tail = planes_of(t, rest, used.insert(tag))->0;
                assert forall|i: int| 0 <= i < groups.len() implies {
                    let p = #[trigger] planes[i];
                    &&& p.ports == groups[i].ports
                    &&& p.vlan == groups[i].vlan
                    &&& p.root_port == groups[i].bridge
                    &&& inventory_tag(t, groups[i].vlan) matches Some(tag) ==> p.vlan_id == tag
                    &&& inventory_tag(t, groups[i].vlan) is None ==> p.vlan_id
                        >= FIRST_SYNTHETIC_TAG && !used.contains(p.vlan_id)
                } by {
                    if i > 0 {
                        assert(planes[i] == tail[i - 1]);
                        assert(rest[i - 1] == groups[i]);
                    }
                }
                assert forall|i: int, j: int|
                    0 <= i < j < groups.len() && inventory_tag(t, groups[i].vlan) is None
                        && inventory_tag(t, groups[j].vlan) is None implies (#[trigger] planes[i]).vlan_id
                    != (#[trigger] planes[j]).vlan_id by {
                    assert(planes[j] == tail[j - 1]);
                    assert(rest[j - 1] == groups[j]);
                    if i > 0 {
                        assert(planes[i] == tail[i - 1]);
                        assert(rest[i - 1] == groups[i]);
                    } else {
                        assert(!used.insert(tag).contains(tail[j - 1].vlan_id));
                    }
                }
            },
        }
    }
}

/// A tag that was found free is one from where the search began, and free.
proof fn lemma_next_free(used: Set<u16>, from: int)
    requires
        next_free(used, from) is Some,
    ensures
        next_free(used, from)->0 >= from,
        !used.contains(next_free(used, from)->0),
    decreases 0x1_0000 - from,
{
    if 0 <= from <= u16::MAX && used.contains(from as u16) {
        lemma_next_free(used, from + 1);
    }
}

/// The number of ports that an interface has in the planes: none where it
/// is on no hardware port; else one for each VLAN it is tagged for, and one
/// more where it is untagged for a VLAN or tagged for none.
pub proof fn lemma_entries_of_len(t: &Topology, id: InterfaceId, name: Seq<char>)
    ensures
        entries_of(t, id, name).len() == (match t.spec_interface(id) {
            Some(d) => if d.external is Some {
                d.tagged_vlans@.len() + (if d.vlan is Some || d.tagged_vlans@.len() == 0 {
                    1nat
                } else {
                    0nat
                })
            } else {
                0nat
            },
            None => 0nat,
        }),
{
}

proof fn lemma_plane_count(t: &Topology, groups: Seq<PlaneGroup>, planes: Seq<L2PlaneView>)
    requires
        planes.len() == groups.len(),
        forall|i: int| 0 <= i < groups.len() ==> (#[trigger] planes[i]).ports == groups[i].ports,
    ensures
        plane_port_count(planes) == port_count(groups),
    decreases groups.len(),
{
    if groups.len() > 0 {
        assert forall|i: int| 0 <= i < groups.drop_last().len() implies (
        #[trigger] planes.drop_last()[i]).ports == groups.drop_last()[i].ports by {
            assert(planes.drop_last()[i] == planes[i]);
        }
        lemma_plane_count(t, groups.drop_last(), planes.drop_last());
        assert(planes.last() == planes[planes.len() - 1]);
    }
}

/// Whether the planes hold the entry: whether the plane of its bridge and
/// VLAN has its port.
pub open spec fn plane_holds(planes: Seq<L2PlaneView>, e: PlaneEntry) -> bool {
    exists|i: int|
        0 <= i < planes.len() && (#[trigger] planes[i]).root_port == e.bridge && planes[i].vlan
            == e.vlan && planes[i].ports.contains(e.port)
}

/// Every port that an interface of the device has in a plane is in the
/// plane of its bridge and VLAN, the planes have no port besides, and there
/// is one plane only for a bridge and a VLAN.
pub proof fn lemma_planes_complete(
    t: &Topology,
    device: DeviceId,
    names: spec_fn(InterfaceId) -> Option<Seq<char>>,
)
    requires
        spec_planes(t, device, names) is Ok,
    ensures
        all_entries(t, t.spec_interfaces_of(device), names) is Some,
        plane_port_count(spec_planes(t, device, names)->Ok_0) == all_entries(
            t,
            t.spec_interfaces_of(device),
            names,
        )->0.len(),
        forall|i: int|
            0 <= i < all_entries(t, t.spec_interfaces_of(device), names)->0.len() ==> plane_holds(
                spec_planes(t, device, names)->Ok_0,
                #[trigger] all_entries(t, t.spec_interfaces_of(device), names)->0[i],
            ),
        forall|i: int, j: int|
            0 <= i < j < spec_planes(t, device, names)->Ok_0.len() ==> key_before(
                (#[trigger] spec_planes(t, device, names)->Ok_0[i]).root_port,
                spec_planes(t, device, names)->Ok_0[i].vlan,
                (#[trigger] spec_planes(t, device, names)->Ok_0[j]).root_port,
                spec_planes(t, device, names)->Ok_0[j].vlan,
            ),
{
    let entries = all_entries(t, t.spec_interfaces_of(device), names)->0;
    let groups = grouped(entries);
    let planes = spec_planes(t, device, names)->Ok_0;
    lemma_grouped(entries);
    lemma_planes_of(t, groups, inventory_tags(t, groups));
    lemma_plane_count(t, groups, planes);
    assert forall|i: int| 0 <= i < entries.len() implies plane_holds(
        planes,
        #[trigger] entries[i],
    ) by {
        let e = entries[i];
        let w = choose|w: int|
            0 <= w < groups.len() && (#[trigger] groups[w]).bridge == e.bridge && groups[w].vlan
                == e.vlan && groups[w].ports.contains(e.port);
        assert(planes[w].ports == groups[w].ports);
    }
    assert forall|i: int, j: int| 0 <= i < j < planes.len() implies key_before(
        (#[trigger] planes[i]).root_port,
        planes[i].vlan,
        (#[trigger] planes[j]).root_port,
        planes[j].vlan,
    ) by {
        assert(key_before(groups[i].bridge, groups[i].vlan, groups[j].bridge, groups[j].vlan));
    }
}

/// Whether every port of the groups is an ethernet port.
pub open spec fn groups_ethernet(groups: Seq<PlaneGroup>) -> bool {
    forall|i: int, j: int|
        0 <= i < groups.len() && 0 <= j < groups[i].ports.len() ==> !((
        #[trigger] groups[i].ports[j]) is VxLan) && !(groups[i].ports[j] is Caps)
}

proof fn lemma_placed_ethernet(groups: Seq<PlaneGroup>, e: PlaneEntry)
    requires
        groups_ethernet(groups),
        !(e.port is VxLan),
        !(e.port is Caps),
    ensures
        groups_ethernet(placed(groups, e)),
    decreases groups.len(),
{
    let p = placed(groups, e);
    if groups.len() == 0 {
    } else if groups[0].bridge == e.bridge && groups[0].vlan == e.vlan {
        assert forall|i: int, j: int| 0 <= i < p.len() && 0 <= j < p[i].ports.len() implies !((
        #[trigger] p[i].ports[j]) is VxLan) && !(p[i].ports[j] is Caps) by {
            if i > 0 {
                assert(p[i] == groups[i]);
                assert(!(groups[i].ports[j] is VxLan));
            } else if j < groups[0].ports.len() {
                assert(p[0].ports[j] == groups[0].ports[j]);
                assert(!(groups[0].ports[j] is VxLan));
            }
        }
    } else if key_before(e.bridge, e.vlan, groups[0].bridge, groups[0].vlan) {
        assert forall|i: int, j: int| 0 <= i < p.len() && 0 <= j < p[i].ports.len() implies !((
        #[trigger] p[i].ports[j]) is VxLan) && !(p[i].ports[j] is Caps) by {
            if i > 0 {
                assert(p[i] == groups[i - 1]);
                assert(!(groups[i - 1].ports[j] is VxLan));
            }
        }
    } else {
        let t = groups.skip(1);
        assert(groups_ethernet(t)) by {
            assert forall|i: int, j: int| 0 <= i < t.len() && 0 <= j < t[i].ports.len() implies !((
            #[trigger] t[i].ports[j]) is VxLan) && !(t[i].ports[j] is Caps) by {
                assert(t[i] == groups[i + 1]);
                assert(!(groups[i + 1].ports[j] is VxLan));
            }
        }
        lemma_placed_ethernet(t, e);
        let pt = placed(t, e);
        assert forall|i: int, j: int| 0 <= i < p.len() && 0 <= j < p[i].ports.len() implies !((
        #[trigger] p[i].ports[j]) is VxLan) && !(p[i].ports[j] is Caps) by {
            if i > 0 {
                assert(p[i] == pt[i - 1]);
                assert(!(pt[i - 1].ports[j] is VxLan));
            } else {
                assert(p[0] == groups[0]);
                assert(!(groups[0].ports[j] is VxLan));
            }
        }
    }
}

proof fn lemma_entries_ethernet(
    t: &Topology,
    interfaces: Seq<InterfaceId>,
    names: spec_fn(InterfaceId) -> Option<Seq<char>>,
)
    requires
        all_entries(t, interfaces, names) is Some,
    ensures
        forall|i: int|
            0 <= i < all_entries(t, interfaces, names)->0.len() ==> !((#[trigger] all_entries(
                t,
                interfaces,
                names,
            )->0[i]).port is VxLan) && !(all_entries(t, interfaces, names)->0[i].port is Caps),
    decreases interfaces.len(),
{
    if interfaces.len() > 0 {
        let id = interfaces.last();
        let before = all_entries(t, interfaces.drop_last(), names)->0;
        lemma_entries_ethernet(t, interfaces.drop_last(), names);
        let all = all_entries(t, interfaces, names)->0;
        if needs_name(t, id) {
            let mine = entries_of(t, id, names(id)->0);
            assert forall|i: int| 0 <= i < all.len() implies !((#[trigger] all[i]).port is VxLan)
                && !(all[i].port is Caps) by {
                if i < before.len() {
                    assert(all[i] == before[i]);
                } else {
                    assert(all[i] == mine[i - before.len()]);
                }
            }
        }
    }
}

proof fn lemma_grouped_ethernet(entries: Seq<PlaneEntry>)
    requires
        forall|i: int|
            0 <= i < entries.len() ==> !((#[trigger] entries[i]).port is VxLan) && !(
            entries[i].port is Caps),
    ensures
        groups_ethernet(grouped(entries)),
    decreases entries.len(),
{
    if entries.len() > 0 {
        let before = entries.drop_last();
        assert forall|i: int| 0 <= i < before.len() implies !((#[trigger] before[i]).port is VxLan)
            && !(before[i].port is Caps) by {
            assert(before[i] == entries[i]);
        }
        lemma_grouped_ethernet(before);
        assert(entries.last() == entries[entries.len() - 1]);
        lemma_placed_ethernet(grouped(before), entries.last());
    }
}

/// Every port of the planes of a device is an ethernet port.
pub proof fn lemma_planes_ethernet(
    t: &Topology,
    device: DeviceId,
    names: spec_fn(InterfaceId) -> Option<Seq<char>>,
)
    requires
        spec_planes(t, device, names) is Ok,
    ensures
        forall|i: int, j: int|
            0 <= i < spec_planes(t, device, names)->Ok_0.len() && 0 <= j < spec_planes(
                t,
                device,
                names,
            )->Ok_0[i].ports.len() ==> !((#[trigger] spec_planes(
                t,
                device,
                names,
            )->Ok_0[i].ports[j]) is VxLan) && !(spec_planes(t, device, names)->Ok_0[i].ports[j] is Caps),
{
    let entries = all_entries(t, t.spec_interfaces_of(device), names)->0;
    let groups = grouped(entries);
    let planes = spec_planes(t, device, names)->Ok_0;
    lemma_entries_ethernet(t, t.spec_interfaces_of(device), names);
    lemma_grouped_ethernet(entries);
    lemma_planes_of(t, groups, inventory_tags(t, groups));
    assert forall|i: int, j: int|
        0 <= i < planes.len() && 0 <= j < planes[i].ports.len() implies !((
    #[trigger] planes[i].ports[j]) is VxLan) && !(planes[i].ports[j] is Caps) by {
        assert(planes[i].ports == groups[i].ports);
        assert(!(groups[i].ports[j] is VxLan));
    }
}

/// The tags that were given to the planes of a device whose VLAN has no
/// tag in the inventory differ from each other and from every tag that the
/// inventory has for the VLAN of a plane, and none is below 60000.
pub proof fn lemma_synthetic_tags_unique(
    t: &Topology,
    device: DeviceId,
    names: spec_fn(InterfaceId) -> Option<Seq<char>>,
)
    requires
        spec_planes(t, device, names) is Ok,
    ensures
        forall|i: int, j: int|
            #![trigger spec_planes(t, device, names)->Ok_0[i], spec_planes(t, device, names)->Ok_0[j]]
            0 <= i < spec_planes(t, device, names)->Ok_0.len() && 0 <= j < spec_planes(
                t,
                device,
                names,
            )->Ok_0.len() && i != j && inventory_tag(
                t,
                spec_planes(t, device, names)->Ok_0[i].vlan,
            ) is None ==> spec_planes(t, device, names)->Ok_0[i].vlan_id != spec_planes(
                t,
                device,
                names,
            )->Ok_0[j].vlan_id && spec_planes(t, device, names)->Ok_0[i].vlan_id
                >= FIRST_SYNTHETIC_TAG,
{
    let entries = all_entries(t, t.spec_interfaces_of(device), names)->0;
    let groups = grouped(entries);
    let used = inventory_tags(t, groups);
    let planes = spec_planes(t, device, names)->Ok_0;
    lemma_planes_of(t, groups, used);
    assert forall|i: int, j: int|
        #![trigger planes[i], planes[j]]
        0 <= i < planes.len() && 0 <= j < planes.len() && i != j && inventory_tag(
            t,
            planes[i].vlan,
        ) is None implies planes[i].vlan_id != planes[j].vlan_id && planes[i].vlan_id
        >= FIRST_SYNTHETIC_TAG by {
        match inventory_tag(t, groups[j].vlan) {
            Some(tag) => {
                assert(used.contains(tag));
                assert(planes[j].vlan_id == tag);
            },
            None => {
                if i < j {
                    assert(planes[i].vlan_id != planes[j].vlan_id);
                } else {
                    assert(planes[j].vlan_id != planes[i].vlan_id);
                }
            },
        }
    }
}

/// The order of the planes is a strict total order by VLAN, bridge and
/// tag: no plane comes before itself, of two planes at most one comes before
/// the other, the order carries over a plane in between, and two planes of
/// which neither comes before the other have the same VLAN, bridge and tag.
pub proof fn lemma_plane_order(a: L2PlaneView, b: L2PlaneView, c: L2PlaneView)
    ensures
        !plane_precedes(a, a),
        plane_precedes(a, b) ==> !plane_precedes(b, a),
        plane_precedes(a, b) && plane_precedes(b, c) ==> plane_precedes(a, c),
        !plane_precedes(a, b) && !plane_precedes(b, a) ==> a.vlan == b.vlan && a.root_port
            == b.root_port && a.vlan_id == b.vlan_id,
{
}

/// Whether the port `port` of the group of `bridge` and `vlan` is that of
/// one of the entries.
pub open spec fn entered(
    entries: Seq<PlaneEntry>,
    bridge: InterfaceId,
    vlan: Option<VlanId>,
    port: L2PortView,
) -> bool {
    exists|i: int|
        0 <= i < entries.len() && (#[trigger] entries[i]).bridge == bridge && entries[i].vlan
            == vlan && entries[i].port == port
}

/// Whether every group has a port, and every port of every group is that
/// of one of the entries.
pub open spec fn made_of(groups: Seq<PlaneGroup>, entries: Seq<PlaneEntry>) -> bool {
    forall|i: int|
        0 <= i < groups.len() ==> (#[trigger] groups[i]).ports.len() > 0 && forall|k: int|
            0 <= k < groups[i].ports.len() ==> entered(
                entries,
                groups[i].bridge,
                groups[i].vlan,
                #[trigger] groups[i].ports[k],
            )
}

proof fn lemma_placed_made_of(groups: Seq<PlaneGroup>, entries: Seq<PlaneEntry>, e: PlaneEntry)
    requires
        made_of(groups, entries),
        entered(entries, e.bridge, e.vlan, e.port),
    ensures
        made_of(placed(groups, e), entries),
    decreases groups.len(),
{
    let p = placed(groups, e);
    let fresh = PlaneGroup { bridge: e.bridge, vlan: e.vlan, ports: seq![e.port] };
    if groups.len() == 0 {
        assert(p[0] == fresh);
    } else if groups[0].bridge == e.bridge && groups[0].vlan == e.vlan {
        let grown = PlaneGroup {
            bridge: e.bridge,
            vlan: e.vlan,
            ports: groups[0].ports.push(e.port),
        };
        assert forall|i: int| 0 <= i < p.len() implies (#[trigger] p[i]).ports.len() > 0
            && forall|k: int|
            0 <= k < p[i].ports.len() ==> entered(
                entries,
                p[i].bridge,
                p[i].vlan,
                #[trigger] p[i].ports[k],
            ) by {
            if i == 0 {
                assert(p[0] == grown);
                assert forall|k: int| 0 <= k < grown.ports.len() implies entered(
                    entries,
                    grown.bridge,
                    grown.vlan,
                    #[trigger] grown.ports[k],
                ) by {
                    if k < groups[0].ports.len() {
                        assert(grown.ports[k] == groups[0].ports[k]);
                    }
                }
            } else {
                assert(p[i] == groups.skip(1)[i - 1]);
                assert(p[i] == groups[i]);
            }
        }
    } else if key_before(e.bridge, e.vlan, groups[0].bridge, groups[0].vlan) {
        assert forall|i: int| 0 <= i < p.len() implies (#[trigger] p[i]).ports.len() > 0
            && forall|k: int|
            0 <= k < p[i].ports.len() ==> entered(
                entries,
                p[i].bridge,
                p[i].vlan,
                #[trigger] p[i].ports[k],
            ) by {
            if i == 0 {
                assert(p[0] == fresh);
            } else {
                assert(p[i] == groups[i - 1]);
            }
        }
    } else {
        let t = groups.skip(1);
        assert forall|i: int| 0 <= i < t.len() implies (#[trigger] t[i]).ports.len() > 0
            && forall|k: int|
            0 <= k < t[i].ports.len() ==> entered(
                entries,
                t[i].bridge,
                t[i].vlan,
                #[trigger] t[i].ports[k],
            ) by {
            assert(t[i] == groups[i + 1]);
        }
        lemma_placed_made_of(t, entries, e);
        let pt = placed(t, e);
        assert forall|i: int| 0 <= i < p.len() implies (#[trigger] p[i]).ports.len() > 0
            && forall|k: int|
            0 <= k < p[i].ports.len() ==> entered(
                entries,
                p[i].bridge,
                p[i].vlan,
                #[trigger] p[i].ports[k],
            ) by {
            if i == 0 {
                assert(p[0] == groups[0]);
            } else {
                assert(p[i] == pt[i - 1]);
            }
        }
    }
}

proof fn lemma_made_of_more(groups: Seq<PlaneGroup>, before: Seq<PlaneEntry>, e: PlaneEntry)
    requires
        made_of(groups, before),
    ensures
        made_of(groups, before.push(e)),
{
    let entries = before.push(e);
    assert forall|i: int| 0 <= i < groups.len() implies (#[trigger] groups[i]).ports.len() > 0
        && forall|k: int|
        0 <= k < groups[i].ports.len() ==> entered(
            entries,
            groups[i].bridge,
            groups[i].vlan,
            #[trigger] groups[i].ports[k],
        ) by {
        assert forall|k: int| 0 <= k < groups[i].ports.len() implies entered(
            entries,
            groups[i].bridge,
            groups[i].vlan,
            #[trigger] groups[i].ports[k],
        ) by {
            assert(entered(before, groups[i].bridge, groups[i].vlan, groups[i].ports[k]));
            let w = choose|w: int|
                0 <= w < before.len() && (#[trigger] before[w]).bridge == groups[i].bridge
                    && before[w].vlan == groups[i].vlan && before[w].port == groups[i].ports[k];
            assert(entries[w] == before[w]);
        }
    }
}

/// The groups hold nothing but the entries: every group has a port, and
/// every port of a group is the port of an entry for its bridge and VLAN.
pub proof fn lemma_grouped_made_of(entries: Seq<PlaneEntry>)
    ensures
        made_of(grouped(entries), entries),
    decreases entries.len(),
{
    if entries.len() > 0 {
        let before = entries.drop_last();
        let e = entries.last();
        lemma_grouped_made_of(before);
        assert(entries =~= before.push(e));
        lemma_made_of_more(grouped(before), before, e);
        assert(entries[entries.len() - 1] == e);
        lemma_placed_made_of(grouped(before), entries, e);
    }
}

/// The planes of a device hold nothing but the ports of its interfaces:
/// every plane has a port, and every port of a plane is the port that one
/// of the interfaces has for the bridge and the VLAN of the plane.
pub proof fn lemma_planes_made_of(
    t: &Topology,
    device: DeviceId,
    names: spec_fn(InterfaceId) -> Option<Seq<char>>,
)
    requires
        spec_planes(t, device, names) is Ok,
    ensures
        all_entries(t, t.spec_interfaces_of(device), names) is Some,
        forall|i: int|
            0 <= i < spec_planes(t, device, names)->Ok_0.len() ==> (#[trigger] spec_planes(
                t,
                device,
                names,
            )->Ok_0[i]).ports.len() > 0 && forall|k: int|
                0 <= k < spec_planes(t, device, names)->Ok_0[i].ports.len() ==> entered(
                    all_entries(t, t.spec_interfaces_of(device), names)->0,
                    spec_planes(t, device, names)->Ok_0[i].root_port,
                    spec_planes(t, device, names)->Ok_0[i].vlan,
                    #[trigger] spec_planes(t, device, names)->Ok_0[i].ports[k],
                ),
{
    let entries = all_entries(t, t.spec_interfaces_of(device), names)->0;
    let groups = grouped(entries);
    lemma_grouped_made_of(entries);
    lemma_planes_of(t, groups, inventory_tags(t, groups));
}

} // verus!
