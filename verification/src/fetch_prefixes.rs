//! The prefixes, ranges and addresses of the inventory, and the snapshot
//! as a whole.
//!
//! A prefix lies below the nearest network above its own that is the
//! network of a prefix. A range belongs to the prefix of the network that
//! both its ends lie in, an address to the prefix of its network.

use crate::fetch::Building;
use crate::fetch::BuildingView;
use crate::fetch::nothing_built;
use crate::fetch::with_wlan_groups;
use crate::fetch_devices::with_devices;
use crate::fetch_laws::lemma_built_ports_once;
use crate::fetch_laws::lemma_lists_ports_once;
use crate::fetch_links::with_cables;
use crate::fetch_links::with_l2vpns;
use crate::fetch_links::with_vlan_groups;
use crate::inventory::FetchTopology;
use crate::inventory::IpAddressRecord;
use crate::inventory::IpRangeRecord;
use crate::inventory::PrefixRecord;
use crate::ip::IpNet;
use crate::parse::parse_id;
use crate::parse::parse_ip_net;
use crate::parse::parse_u32;
use crate::parse::parsed_net;
use crate::snapshot::lemma_table_insert;
use crate::snapshot::table_view;
use crate::snapshot::IpPrefixDataView;
use crate::snapshot::TopologyView;
use crate::text::is_text;
use crate::topology::InterfaceId;
use crate::topology::IpAddressData;
use crate::topology::IpAddressId;
use crate::topology::IpPrefixData;
use crate::topology::IpPrefixId;
use crate::topology::IpRangeData;
use crate::topology::IpRangeId;
use crate::topology::Topology;
use std::collections::HashSet;
use vstd::prelude::*;
use vstd::std_specs::hash::*;
use vstd::string::*;

verus! {

broadcast use vstd::std_specs::hash::group_hash_axioms;

/// The prefix of a network: that of the last record with the network.
pub open spec fn net_id(idx: Seq<(IpNet, IpPrefixId)>, net: IpNet) -> Option<IpPrefixId>
    decreases idx.len(),
{
    if idx.len() == 0 {
        None
    } else if idx.last().0 == net {
        Some(idx.last().1)
    } else {
        net_id(idx.drop_last(), net)
    }
}

fn find_prefix(idx: &Vec<(IpNet, IpPrefixId)>, net: IpNet) -> (r: Option<IpPrefixId>)
    ensures
        r == net_id(idx@, net),
{
    let mut i: usize = idx.len();
    proof {
        assert(idx@.take(i as int) =~= idx@);
    }
    while i > 0
        invariant
            i <= idx.len(),
            net_id(idx@, net) == net_id(idx@.take(i as int), net),
        decreases i,
    {
        proof {
            assert(idx@.take(i as int).last() == idx@[i - 1]);
            assert(idx@.take(i as int).drop_last() =~= idx@.take(i - 1));
        }
        if idx[i - 1].0 == net {
            return Some(idx[i - 1].1);
        }
        i -= 1;
    }
    None
}

/// The number of networks that are looked at above a network, which is
/// more than any network has above it.
pub const PARENT_STEPS: u8 = 129;

/// The prefix of the nearest network above `net` that is the network of
/// a prefix, among the `steps` networks above it.
pub open spec fn parent_within(idx: Seq<(IpNet, IpPrefixId)>, net: IpNet, steps: nat) -> Option<
    IpPrefixId,
>
    decreases steps,
{
    if steps == 0 {
        None
    } else {
        match net.spec_supernet() {
            Some(above) => match net_id(idx, above) {
                Some(p) => Some(p),
                None => parent_within(idx, above, (steps - 1) as nat),
            },
            None => None,
        }
    }
}

/// The prefix that the network `net` lies below.
pub open spec fn parent_of(idx: Seq<(IpNet, IpPrefixId)>, net: IpNet) -> Option<IpPrefixId> {
    parent_within(idx, net, PARENT_STEPS as nat)
}

/// The prefix that a network lies below is the prefix of a shorter network
/// of the same family: no prefix lies below itself, nor below a prefix that
/// lies below it, where every prefix has a network of its own.
pub proof fn lemma_parent_shorter(idx: Seq<(IpNet, IpPrefixId)>, net: IpNet, steps: nat)
    requires
        parent_within(idx, net, steps) is Some,
    ensures
        exists|i: int|
            0 <= i < idx.len() && (#[trigger] idx[i]).1 == parent_within(idx, net, steps)->0
                && idx[i].0.spec_prefix_len() < net.spec_prefix_len() && (idx[i].0 is V4
                <==> net is V4),
    decreases steps,
{
    net.lemma_supernet_shorter();
    let above = net.spec_supernet()->0;
    match net_id(idx, above) {
        Some(p) => {
            lemma_net_id(idx, above);
        },
        None => {
            lemma_parent_shorter(idx, above, (steps - 1) as nat);
        },
    }
}

/// The prefix of a network is the prefix of a record with the network.
proof fn lemma_net_id(idx: Seq<(IpNet, IpPrefixId)>, net: IpNet)
    requires
        net_id(idx, net) is Some,
    ensures
        exists|i: int| 0 <= i < idx.len() && (#[trigger] idx[i]) == (net, net_id(idx, net)->0),
    decreases idx.len(),
{
    if idx.last().0 == net {
        assert(idx[idx.len() - 1] == (net, net_id(idx, net)->0));
    } else {
        lemma_net_id(idx.drop_last(), net);
        let i = choose|i: int|
            0 <= i < idx.drop_last().len() && (#[trigger] idx.drop_last()[i]) == (
                net,
                net_id(idx, net)->0,
            );
        assert(idx[i] == idx.drop_last()[i]);
    }
}

/// The prefix that the network `net` lies below.
pub fn find_parent(idx: &Vec<(IpNet, IpPrefixId)>, net: IpNet) -> (r: Option<IpPrefixId>)
    ensures
        r == parent_of(idx@, net),
{
    let mut current = net;
    let mut steps: u8 = PARENT_STEPS;
    while steps > 0
        invariant
            parent_of(idx@, net) == parent_within(idx@, current, steps as nat),
        decreases steps,
    {
        match current.supernet() {
            Some(above) => match find_prefix(idx, above) {
                Some(p) => {
                    return Some(p);
                },
                None => {
                    current = above;
                    steps -= 1;
                },
            },
            None => {
                return None;
            },
        }
    }
    None
}

/// The snapshot with a prefix.
pub open spec fn with_prefix(b: BuildingView, p: PrefixRecord) -> BuildingView {
    match (parse_u32(p.id@), parsed_net(p.prefix@)) {
        (Some(id), Some(net)) => BuildingView {
            topology: TopologyView {
                ip_prefixes: b.topology.ip_prefixes.insert(
                    id,
                    IpPrefixDataView {
                        prefix: net,
                        addresses: Seq::empty(),
                        children: Seq::empty(),
                        parent: None,
                        ranges: Seq::empty(),
                    },
                ),
                ..b.topology
            },
            prefix_idx: b.prefix_idx.push((net, IpPrefixId(id))),
            ..b
        },
        _ => b,
    }
}

pub open spec fn with_prefixes(b: BuildingView, ps: Seq<PrefixRecord>) -> BuildingView
    decreases ps.len(),
{
    if ps.len() == 0 {
        b
    } else {
        with_prefix(with_prefixes(b, ps.drop_last()), ps.last())
    }
}

/// Whether the id at the place `i` stands at no place before it.
pub open spec fn first_seen(idx: Seq<(IpNet, IpPrefixId)>, i: int) -> bool {
    forall|j: int| 0 <= j < i ==> (#[trigger] idx[j]).1 != idx[i].1
}

/// The prefixes with the prefix `id` below the prefix that its network
/// lies below, which gets it as one of those below it.
pub open spec fn below_parent(
    prefixes: Map<u32, IpPrefixDataView>,
    idx: Seq<(IpNet, IpPrefixId)>,
    id: u32,
) -> Map<u32, IpPrefixDataView> {
    if prefixes.contains_key(id) {
        match parent_of(idx, prefixes[id].prefix) {
            Some(p) => {
                let child = prefixes.insert(
                    id,
                    IpPrefixDataView { parent: Some(p), ..prefixes[id] },
                );
                if child.contains_key(p.0) {
                    child.insert(
                        p.0,
                        IpPrefixDataView {
                            children: child[p.0].children.push(IpPrefixId(id)),
                            ..child[p.0]
                        },
                    )
                } else {
                    child
                }
            },
            None => prefixes,
        }
    } else {
        prefixes
    }
}

/// The prefixes with each of the first `n` prefixes below the prefix that
/// its network lies below, each prefix taken once, in the order of the
/// records.
pub open spec fn linked(
    prefixes: Map<u32, IpPrefixDataView>,
    idx: Seq<(IpNet, IpPrefixId)>,
    n: int,
) -> Map<u32, IpPrefixDataView>
    decreases n,
{
    if n <= 0 {
        prefixes
    } else {
        let before = linked(prefixes, idx, n - 1);
        if first_seen(idx, n - 1) {
            below_parent(before, idx, idx[n - 1].1.0)
        } else {
            before
        }
    }
}

/// The snapshot with the prefixes below each other.
pub open spec fn with_parents(b: BuildingView) -> BuildingView {
    BuildingView {
        topology: TopologyView {
            ip_prefixes: linked(b.topology.ip_prefixes, b.prefix_idx, b.prefix_idx.len() as int),
            ..b.topology
        },
        ..b
    }
}

/// The prefixes with the range `id` in the prefix `prefix`, where there
/// is such a prefix.
pub open spec fn with_range_in(
    prefixes: Map<u32, IpPrefixDataView>,
    prefix: Option<IpPrefixId>,
    id: u32,
) -> Map<u32, IpPrefixDataView> {
    match prefix {
        Some(p) => if prefixes.contains_key(p.0) {
            prefixes.insert(
                p.0,
                IpPrefixDataView {
                    ranges: prefixes[p.0].ranges.push(IpRangeId(id)),
                    ..prefixes[p.0]
                },
            )
        } else {
            prefixes
        },
        None => prefixes,
    }
}

/// The prefixes with the address `id` in the prefix `prefix`, where there
/// is such a prefix.
pub open spec fn with_address_in(
    prefixes: Map<u32, IpPrefixDataView>,
    prefix: Option<IpPrefixId>,
    id: u32,
) -> Map<u32, IpPrefixDataView> {
    match prefix {
        Some(p) => if prefixes.contains_key(p.0) {
            prefixes.insert(
                p.0,
                IpPrefixDataView {
                    addresses: prefixes[p.0].addresses.push(IpAddressId(id)),
                    ..prefixes[p.0]
                },
            )
        } else {
            prefixes
        },
        None => prefixes,
    }
}

/// The snapshot with a range. A range whose ends lie in different
/// networks is left out.
pub open spec fn with_range(b: BuildingView, r: IpRangeRecord) -> BuildingView {
    match (parse_u32(r.id@), parsed_net(r.start_address@), parsed_net(r.end_address@)) {
        (Some(id), Some(start), Some(end)) => if start.spec_trunc() == end.spec_trunc() {
            let net = start.spec_trunc();
            let prefix = net_id(b.prefix_idx, net);
            BuildingView {
                topology: TopologyView {
                    ip_ranges: b.topology.ip_ranges.insert(
                        id,
                        IpRangeData {
                            is_dhcp: r.role matches Some(role) && role.slug@ == "dhcp"@,
                            net,
                            start: start.spec_addr(),
                            end: end.spec_addr(),
                            prefix,
                        },
                    ),
                    ip_prefixes: with_range_in(b.topology.ip_prefixes, prefix, id),
                    ..b.topology
                },
                ..b
            }
        } else {
            b
        },
        _ => b,
    }
}

pub open spec fn with_ranges(b: BuildingView, rs: Seq<IpRangeRecord>) -> BuildingView
    decreases rs.len(),
{
    if rs.len() == 0 {
        b
    } else {
        with_range(with_ranges(b, rs.drop_last()), rs.last())
    }
}

/// The snapshot with an address.
pub open spec fn with_address(b: BuildingView, a: IpAddressRecord) -> BuildingView {
    match (parse_u32(a.id@), parsed_net(a.address@)) {
        (Some(id), Some(ip)) => {
            let prefix = net_id(b.prefix_idx, ip.spec_trunc());
            BuildingView {
                topology: TopologyView {
                    ip_addresses: b.topology.ip_addresses.insert(
                        id,
                        IpAddressData {
                            ip,
                            interface: if b.interface_of_address.contains_key(id) {
                                Some(InterfaceId(b.interface_of_address[id]))
                            } else {
                                None
                            },
                            prefix,
                        },
                    ),
                    ip_prefixes: with_address_in(b.topology.ip_prefixes, prefix, id),
                    ..b.topology
                },
                ..b
            }
        },
        _ => b,
    }
}

pub open spec fn with_addresses(b: BuildingView, rs: Seq<IpAddressRecord>) -> BuildingView
    decreases rs.len(),
{
    if rs.len() == 0 {
        b
    } else {
        with_address(with_addresses(b, rs.drop_last()), rs.last())
    }
}

/// The snapshot that the records of the inventory make.
pub open spec fn built(data: FetchTopology) -> TopologyView {
    with_addresses(
        with_ranges(
            with_parents(
                with_prefixes(
                    with_cables(
                        with_vlan_groups(
                            with_l2vpns(
                                with_devices(
                                    with_wlan_groups(
                                        nothing_built(),
                                        data.wireless_lan_group_list@,
                                    ),
                                    data.tenant_list@,
                                    data.device_list@,
                                ),
                                data.l2vpn_list@,
                            ),
                            data.vlan_group_list@,
                        ),
                        data.cable_list@,
                    ),
                    data.prefix_list@,
                ),
            ),
            data.ip_range_list@,
        ),
        data.ip_address_list@,
    ).topology
}

impl Building {
    /// Takes a prefix into the snapshot.
    pub fn add_prefix(&mut self, p: &PrefixRecord)
        ensures
            final(self)@ == with_prefix(old(self)@, *p),
    {
        match (parse_id(p.id.as_str()), parse_ip_net(p.prefix.as_str())) {
            (Some(id), Some(net)) => {
                self.prefix_idx.push((net, IpPrefixId(id)));
                let data = IpPrefixData {
                    prefix: net,
                    addresses: Vec::new(),
                    children: Vec::new(),
                    parent: None,
                    ranges: Vec::new(),
                };
                proof {
                    lemma_table_insert(self.topology.ip_prefixes@, id, data);
                }
                self.topology.ip_prefixes.insert(id, data);
            },
            _ => {},
        }
    }

    /// Takes the prefixes into the snapshot.
    pub fn add_prefixes(&mut self, ps: &Vec<PrefixRecord>)
        ensures
            final(self)@ == with_prefixes(old(self)@, ps@),
    {
        let mut i: usize = 0;
        proof {
            assert(ps@.take(0) =~= Seq::<PrefixRecord>::empty());
        }
        while i < ps.len()
            invariant
                i <= ps.len(),
                self@ == with_prefixes(old(self)@, ps@.take(i as int)),
            decreases ps.len() - i,
        {
            proof {
                assert(ps@.take(i as int + 1).drop_last() =~= ps@.take(i as int));
                assert(ps@.take(i as int + 1).last() == ps@[i as int]);
            }
            self.add_prefix(&ps[i]);
            i += 1;
        }
        proof {
            assert(ps@.take(ps.len() as int) =~= ps@);
        }
    }

    /// Puts the prefix `id` below the prefix that its network lies below.
    fn link_prefix(&mut self, id: u32)
        ensures
            final(self)@ == (BuildingView {
                topology: TopologyView {
                    ip_prefixes: below_parent(
                        old(self)@.topology.ip_prefixes,
                        old(self)@.prefix_idx,
                        id,
                    ),
                    ..old(self)@.topology
                },
                ..old(self)@
            }),
    {
        let ghost before = self.topology.ip_prefixes@;
        let net = match self.topology.ip_prefixes.get(&id) {
            Some(d) => d.prefix,
            None => {
                return ;
            },
        };
        match find_parent(&self.prefix_idx, net) {
            Some(p) => {
                match self.topology.ip_prefixes.remove(&id) {
                    Some(d) => {
                        let data = IpPrefixData {
                            prefix: d.prefix,
                            addresses: d.addresses,
                            children: d.children,
                            parent: Some(p),
                            ranges: d.ranges,
                        };
                        proof {
                            assert(table_view(before.remove(id).insert(id, data)) =~= table_view(
                                before,
                            ).insert(id, data@));
                        }
                        self.topology.ip_prefixes.insert(id, data);
                    },
                    None => {},
                }
                let ghost child = self.topology.ip_prefixes@;
                match self.topology.ip_prefixes.remove(&p.0) {
                    Some(d) => {
                        let mut children = d.children;
                        children.push(IpPrefixId(id));
                        let data = IpPrefixData {
                            prefix: d.prefix,
                            addresses: d.addresses,
                            children,
                            parent: d.parent,
                            ranges: d.ranges,
                        };
                        proof {
                            assert(table_view(child.remove(p.0).insert(p.0, data)) =~= table_view(
                                child,
                            ).insert(p.0, data@));
                        }
                        self.topology.ip_prefixes.insert(p.0, data);
                    },
                    None => {
                        proof {
                            assert(child.remove(p.0) =~= child);
                        }
                    },
                }
            },
            None => {},
        }
    }

    /// Puts the prefixes below each other.
    pub fn link_prefixes(&mut self)
        ensures
            final(self)@ == with_parents(old(self)@),
    {
        let mut seen: HashSet<u32> = HashSet::new();
        let ghost idx = self.prefix_idx@;
        let n = self.prefix_idx.len();
        let mut i: usize = 0;
        while i < n
            invariant
                i <= n,
                n == idx.len(),
                self.prefix_idx@ == idx,
                forall|x: u32|
                    seen@.contains(x) <==> exists|j: int|
                        0 <= j < i && (#[trigger] idx[j]).1.0 == x,
                self@ == (BuildingView {
                    topology: TopologyView {
                        ip_prefixes: linked(old(self)@.topology.ip_prefixes, idx, i as int),
                        ..old(self)@.topology
                    },
                    ..old(self)@
                }),
            decreases n - i,
        {
            let id = self.prefix_idx[i].1.0;
            let fresh = !seen.contains(&id);
            proof {
                if fresh {
                    assert forall|j: int| 0 <= j < i implies (#[trigger] idx[j]).1 != idx[i as int].1 by {
                        if idx[j].1 == idx[i as int].1 {
                            assert(idx[j].1.0 == id);
                        }
                    }
                } else {
                    let j = choose|j: int| 0 <= j < i && (#[trigger] idx[j]).1.0 == id;
                    assert(idx[j].1 == idx[i as int].1);
                }
            }
            if fresh {
                self.link_prefix(id);
            }
            let ghost before = seen@;
            seen.insert(id);
            proof {
                assert forall|x: u32| seen@.contains(x) <==> exists|j: int|
                    0 <= j < i + 1 && (#[trigger] idx[j]).1.0 == x by {
                    if before.contains(x) {
                        let j = choose|j: int| 0 <= j < i && (#[trigger] idx[j]).1.0 == x;
                        assert(0 <= j < i + 1 && idx[j].1.0 == x);
                    }
                    if x == id {
                        assert(idx[i as int].1.0 == x);
                    }
                    if exists|j: int| 0 <= j < i + 1 && (#[trigger] idx[j]).1.0 == x {
                        let j = choose|j: int| 0 <= j < i + 1 && (#[trigger] idx[j]).1.0 == x;
                        if j < i {
                            assert(before.contains(x));
                        }
                    }
                }
            }
            i += 1;
        }
    }

    /// Puts the range or the address `id` into the prefix `prefix`.
    fn add_to_prefix(&mut self, prefix: Option<IpPrefixId>, id: u32, range: bool)
        ensures
            final(self)@ == (BuildingView {
                topology: TopologyView {
                    ip_prefixes: if range {
                        with_range_in(old(self)@.topology.ip_prefixes, prefix, id)
                    } else {
                        with_address_in(old(self)@.topology.ip_prefixes, prefix, id)
                    },
                    ..old(self)@.topology
                },
                ..old(self)@
            }),
    {
        match prefix {
            Some(p) => {
                let ghost before = self.topology.ip_prefixes@;
                match self.topology.ip_prefixes.remove(&p.0) {
                    Some(d) => {
                        let mut ranges = d.ranges;
                        let mut addresses = d.addresses;
                        if range {
                            ranges.push(IpRangeId(id));
                        } else {
                            addresses.push(IpAddressId(id));
                        }
                        let data = IpPrefixData {
                            prefix: d.prefix,
                            addresses,
                            children: d.children,
                            parent: d.parent,
                            ranges,
                        };
                        proof {
                            assert(table_view(before.remove(p.0).insert(p.0, data)) =~= table_view(
                                before,
                            ).insert(p.0, data@));
                        }
                        self.topology.ip_prefixes.insert(p.0, data);
                    },
                    None => {
                        proof {
                            assert(before.remove(p.0) =~= before);
                        }
                    },
                }
            },
            None => {},
        }
    }

    /// Takes a range into the snapshot.
    pub fn add_range(&mut self, r: &IpRangeRecord)
        ensures
            final(self)@ == with_range(old(self)@, *r),
    {
        let is_dhcp = match &r.role {
            Some(role) => is_text(&role.slug, "dhcp"),
            None => false,
        };
        match (
            parse_id(r.id.as_str()),
            parse_ip_net(r.start_address.as_str()),
            parse_ip_net(r.end_address.as_str()),
        ) {
            (Some(id), Some(start), Some(end)) => {
                let net = start.trunc();
                if net == end.trunc() {
                    let prefix = find_prefix(&self.prefix_idx, net);
                    self.topology.ip_ranges.insert(
                        id,
                        IpRangeData { is_dhcp, net, start: start.addr(), end: end.addr(), prefix },
                    );
                    self.add_to_prefix(prefix, id, true);
                }
            },
            _ => {},
        }
    }

    /// Takes the ranges into the snapshot.
    pub fn add_ranges(&mut self, rs: &Vec<IpRangeRecord>)
        ensures
            final(self)@ == with_ranges(old(self)@, rs@),
    {
        let mut i: usize = 0;
        proof {
            assert(rs@.take(0) =~= Seq::<IpRangeRecord>::empty());
        }
        while i < rs.len()
            invariant
                i <= rs.len(),
                self@ == with_ranges(old(self)@, rs@.take(i as int)),
            decreases rs.len() - i,
        {
            proof {
                assert(rs@.take(i as int + 1).drop_last() =~= rs@.take(i as int));
                assert(rs@.take(i as int + 1).last() == rs@[i as int]);
            }
            self.add_range(&rs[i]);
            i += 1;
        }
        proof {
            assert(rs@.take(rs.len() as int) =~= rs@);
        }
    }

    /// Takes an address into the snapshot.
    pub fn add_address(&mut self, a: &IpAddressRecord)
        ensures
            final(self)@ == with_address(old(self)@, *a),
    {
        match (parse_id(a.id.as_str()), parse_ip_net(a.address.as_str())) {
            (Some(id), Some(ip)) => {
                let prefix = find_prefix(&self.prefix_idx, ip.trunc());
                let interface = match self.interface_of_address.get(&id) {
                    Some(i) => Some(InterfaceId(*i)),
                    None => None,
                };
                self.topology.ip_addresses.insert(id, IpAddressData { ip, interface, prefix });
                self.add_to_prefix(prefix, id, false);
            },
            _ => {},
        }
    }

    /// Takes the addresses into the snapshot.
    pub fn add_addresses(&mut self, rs: &Vec<IpAddressRecord>)
        ensures
            final(self)@ == with_addresses(old(self)@, rs@),
    {
        let mut i: usize = 0;
        proof {
            assert(rs@.take(0) =~= Seq::<IpAddressRecord>::empty());
        }
        while i < rs.len()
            invariant
                i <= rs.len(),
                self@ == with_addresses(old(self)@, rs@.take(i as int)),
            decreases rs.len() - i,
        {
            proof {
                assert(rs@.take(i as int + 1).drop_last() =~= rs@.take(i as int));
                assert(rs@.take(i as int + 1).last() == rs@[i as int]);
            }
            self.add_address(&rs[i]);
            i += 1;
        }
        proof {
            assert(rs@.take(rs.len() as int) =~= rs@);
        }
    }
}

/// The snapshot that the records of the inventory make.
pub fn build_topology(data: &FetchTopology) -> (r: Topology)
    ensures
        r@ == built(*data),
        r.lists_ports_once(),
{
    let mut b = Building::new();
    b.add_wlan_groups(&data.wireless_lan_group_list);
    b.add_devices(&data.tenant_list, &data.device_list);
    b.add_l2vpns(&data.l2vpn_list);
    b.add_vlan_groups(&data.vlan_group_list);
    b.add_cables(&data.cable_list);
    b.add_prefixes(&data.prefix_list);
    b.link_prefixes();
    b.add_ranges(&data.ip_range_list);
    b.add_addresses(&data.ip_address_list);
    proof {
        lemma_built_ports_once(*data);
        lemma_lists_ports_once(&b.topology);
    }
    b.topology
}

} // verus!
