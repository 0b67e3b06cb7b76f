//! Following cables from a port to the ports at their far ends, through
//! the pass-through ports of patch panels and along every branch of a cable
//! that fans out.

use crate::access::CableAccess;
use crate::access::DeviceAccess;
use crate::access::FrontPortAccess;
use crate::access::InterfaceAccess;
use crate::access::RearPortAccess;
use crate::error::CyclicCablingError;
use crate::topology::Cable;
use crate::topology::CableId;
use crate::topology::CablePort;
use crate::topology::Topology;
use vstd::prelude::*;
use vstd::std_specs::hash::*;

verus! {

broadcast use vstd::std_specs::hash::group_hash_axioms;

/// A handle on a port that a cable can end in.
#[derive(Clone, Copy, Debug)]
pub enum CablePortAccess<'a> {
    Interface(InterfaceAccess<'a>),
    FrontPort(FrontPortAccess<'a>),
    RearPort(RearPortAccess<'a>),
}

/// One crossing of a cable, from the port `near` to the port `far`.
#[derive(Clone, Copy, Debug)]
pub struct CableConnection<'a> {
    pub near: CablePortAccess<'a>,
    pub far: CablePortAccess<'a>,
    pub cable: CableAccess<'a>,
}

/// One crossing of a patch panel, from one face to the other.
#[derive(Clone, Copy, Debug)]
pub enum DeviceConnection<'a> {
    FrontNear { near: FrontPortAccess<'a>, far: RearPortAccess<'a>, device: DeviceAccess<'a> },
    RearNear { near: RearPortAccess<'a>, far: FrontPortAccess<'a>, device: DeviceAccess<'a> },
}

/// A walk from `start_port` over the cables `cable_segments`. Where the
/// walk came out of a patch panel at a port that no cable leaves, that port
/// is `end_port`; otherwise the far port of the last cable is where the walk
/// ended.
#[derive(Clone, Debug)]
pub struct CablePath<'a> {
    pub start_port: CablePortAccess<'a>,
    pub cable_segments: Vec<CableConnection<'a>>,
    pub end_port: Option<CablePortAccess<'a>>,
}

/// One crossing of a cable, told by ids.
pub struct Segment {
    pub near: CablePort,
    pub far: CablePort,
    pub cable: CableId,
}

/// A walk, told by ids.
pub struct PathView {
    pub start_port: CablePort,
    pub segments: Seq<Segment>,
    pub end_port: Option<CablePort>,
}

/// The crossings of the cable `id` from `near` to each of `far`.
pub open spec fn fan(near: CablePort, far: Seq<CablePort>, id: CableId) -> Seq<Segment> {
    Seq::new(far.len(), |i: int| Segment { near, far: far[i], cable: id })
}

/// The ports `list` and the port `p`, which is not listed a second time.
pub open spec fn with_far(list: Seq<CablePort>, p: CablePort) -> Seq<CablePort> {
    if list.contains(p) {
        list
    } else {
        list.push(p)
    }
}

/// The ports `acc` and then the ports `more`, each port where it is first
/// listed.
pub open spec fn far_ports(acc: Seq<CablePort>, more: Seq<CablePort>) -> Seq<CablePort>
    decreases more.len(),
{
    if more.len() == 0 {
        acc
    } else {
        with_far(far_ports(acc, more.drop_last()), more.last())
    }
}

/// The ports that a cable leads to from `port`: the ports of its other
/// end for each end that lists `port`, each port once, however often and
/// on whichever ends the cable lists it.
pub open spec fn reached_ports(cable: Cable, port: CablePort) -> Seq<CablePort> {
    let first = if cable.port_a@.contains(port) {
        far_ports(Seq::empty(), cable.port_b@)
    } else {
        Seq::empty()
    };
    if cable.port_b@.contains(port) {
        far_ports(first, cable.port_a@)
    } else {
        first
    }
}

/// The crossings of the cable `id` that begin at `port`: one to each port
/// that the cable leads to from there.
pub open spec fn crossings(cable: Cable, id: CableId, port: CablePort) -> Seq<Segment> {
    fan(port, reached_ports(cable, port), id)
}

/// The port at which a walk ended: its end port where it has one, else the
/// far port of its last crossing, else the port it began at.
pub open spec fn far_port_of(p: PathView) -> CablePort {
    match p.end_port {
        Some(port) => port,
        None => if p.segments.len() > 0 {
            p.segments.last().far
        } else {
            p.start_port
        },
    }
}

/// The walk over the crossings `segments` that ends at the far port of the
/// last of them, a port without another face; none where that port is the
/// port `start` that the walks began at.
pub open spec fn ended(start: CablePort, segments: Seq<Segment>) -> Seq<PathView> {
    if segments.len() > 0 && segments.last().far == start {
        Seq::empty()
    } else {
        seq![PathView { start_port: start, segments, end_port: None }]
    }
}

impl Topology {
    /// The cable that the snapshot attaches to a port.
    pub open spec fn spec_cable_of(&self, port: CablePort) -> Option<CableId> {
        match port {
            CablePort::Interface(id) => match self.spec_interface(id) {
                Some(d) => d.cable,
                None => None,
            },
            CablePort::FrontPort(id) => match self.spec_front_port(id) {
                Some(d) => d.cable,
                None => None,
            },
            CablePort::RearPort(id) => match self.spec_rear_port(id) {
                Some(d) => d.cable,
                None => None,
            },
        }
    }

    /// The crossings of its cable that begin at `port`.
    pub open spec fn spec_segments(&self, port: CablePort) -> Seq<Segment> {
        match self.spec_cable_of(port) {
            Some(id) => match self.spec_cable(id) {
                Some(cable) => crossings(cable, id, port),
                None => Seq::empty(),
            },
            None => Seq::empty(),
        }
    }

    /// The port on the other face of the patch panel, for a pass-through
    /// port that has one.
    pub open spec fn spec_next_port(&self, port: CablePort) -> Option<CablePort> {
        match port {
            CablePort::Interface(_) => None,
            CablePort::FrontPort(id) => match self.spec_front_port(id) {
                Some(d) => match d.rear_port {
                    Some(r) => Some(CablePort::RearPort(r)),
                    None => None,
                },
                None => None,
            },
            CablePort::RearPort(id) => match self.spec_rear_port(id) {
                Some(d) => match d.front_port {
                    Some(f) => Some(CablePort::FrontPort(f)),
                    None => None,
                },
                None => None,
            },
        }
    }

    /// The walks that go on from `port`, which the walk from `start` has
    /// reached over `chain`, having left the ports `on_path` on its way.
    /// `None` where a walk comes back to a port that it has left, or where
    /// `on_path` cannot grow.
    pub open spec fn paths_at(
        &self,
        start: CablePort,
        port: CablePort,
        chain: Seq<Segment>,
        on_path: Seq<CablePort>,
    ) -> Option<Seq<PathView>>
        decreases usize::MAX - on_path.len(), 0nat,
    {
        let segments = self.spec_segments(port);
        if segments.len() == 0 {
            if port == start {
                Some(Seq::empty())
            } else {
                Some(seq![PathView { start_port: start, segments: chain, end_port: Some(port) }])
            }
        } else if on_path.contains(port) || on_path.len() >= usize::MAX {
            None
        } else {
            self.paths_over(start, segments, chain, on_path.push(port))
        }
    }

    /// The walks that go on over each of `segments` in turn: through the
    /// other face of a pass-through port, or to an end at a port without
    /// one, unless that port is `start`.
    pub open spec fn paths_over(
        &self,
        start: CablePort,
        segments: Seq<Segment>,
        chain: Seq<Segment>,
        on_path: Seq<CablePort>,
    ) -> Option<Seq<PathView>>
        decreases usize::MAX - on_path.len(), 1 + segments.len(),
    {
        if segments.len() == 0 {
            Some(Seq::empty())
        } else {
            let first = segments[0];
            let head = match self.spec_next_port(first.far) {
                Some(next) => self.paths_at(start, next, chain.push(first), on_path),
                None => Some(ended(start, chain.push(first))),
            };
            let tail = self.paths_over(start, segments.skip(1), chain, on_path);
            match (head, tail) {
                (Some(h), Some(t)) => Some(h + t),
                _ => None,
            }
        }
    }

    /// Every walk from `start` to a far end, in the order in which the
    /// cables list their branches. A walk stops at a port without a cable,
    /// which it reports as its end port unless it is `start`, or at the far
    /// port of a cable that is no pass-through port, unless that is `start`.
    /// `None` where a walk comes back to a port that it has left.
    pub open spec fn spec_cable_paths(&self, start: CablePort) -> Option<Seq<PathView>> {
        self.paths_at(start, start, Seq::empty(), Seq::empty())
    }
}

impl<'a> CablePortAccess<'a> {
    /// The id of the port.
    pub open spec fn spec_port(&self) -> CablePort {
        match self {
            CablePortAccess::Interface(a) => CablePort::Interface(a.id),
            CablePortAccess::FrontPort(a) => CablePort::FrontPort(a.id),
            CablePortAccess::RearPort(a) => CablePort::RearPort(a.id),
        }
    }

    /// The snapshot that the handle is on.
    pub open spec fn spec_topology(&self) -> &'a Topology {
        match self {
            CablePortAccess::Interface(a) => a.topology,
            CablePortAccess::FrontPort(a) => a.topology,
            CablePortAccess::RearPort(a) => a.topology,
        }
    }

    /// The handle on `port` in `topology`.
    pub fn create(topology: &'a Topology, port: CablePort) -> (r: CablePortAccess<'a>)
        ensures
            r.spec_port() == port,
            r.spec_topology() == topology,
    {
        match port {
            CablePort::Interface(id) => CablePortAccess::Interface(
                InterfaceAccess { topology, id },
            ),
            CablePort::FrontPort(id) => CablePortAccess::FrontPort(
                FrontPortAccess { topology, id },
            ),
            CablePort::RearPort(id) => CablePortAccess::RearPort(RearPortAccess { topology, id }),
        }
    }

    fn topology(&self) -> (r: &'a Topology)
        ensures
            r == self.spec_topology(),
    {
        match self {
            CablePortAccess::Interface(a) => a.topology,
            CablePortAccess::FrontPort(a) => a.topology,
            CablePortAccess::RearPort(a) => a.topology,
        }
    }

    /// The name of the port, where the snapshot holds it.
    pub open spec fn spec_name(&self) -> Option<Seq<char>> {
        match self {
            CablePortAccess::Interface(a) => Some(a.spec_name()),
            CablePortAccess::FrontPort(a) => match a.spec_data() {
                Some(d) => Some(d.name@),
                None => None,
            },
            CablePortAccess::RearPort(a) => match a.spec_data() {
                Some(d) => Some(d.name@),
                None => None,
            },
        }
    }

    pub fn name(&self) -> (r: Option<&'a str>)
        ensures
            r is Some <==> self.spec_name() is Some,
            r matches Some(s) ==> s@ == self.spec_name()->0,
    {
        match self {
            CablePortAccess::Interface(a) => Some(a.name()),
            CablePortAccess::FrontPort(a) => a.name(),
            CablePortAccess::RearPort(a) => a.name(),
        }
    }

    /// The device that the port is on, where the snapshot holds the port.
    pub open spec fn spec_device(&self) -> Option<crate::topology::DeviceId> {
        match self {
            CablePortAccess::Interface(a) => match a.spec_data() {
                Some(d) => Some(d.device),
                None => None,
            },
            CablePortAccess::FrontPort(a) => match a.spec_data() {
                Some(d) => Some(d.device),
                None => None,
            },
            CablePortAccess::RearPort(a) => match a.spec_data() {
                Some(d) => Some(d.device),
                None => None,
            },
        }
    }

    pub fn device(&self) -> (r: Option<DeviceAccess<'a>>)
        ensures
            r is Some <==> self.spec_device() is Some,
            r matches Some(d) ==> d.id == self.spec_device()->0 && d.topology
                == self.spec_topology(),
    {
        match self {
            CablePortAccess::Interface(a) => a.device(),
            CablePortAccess::FrontPort(a) => a.device(),
            CablePortAccess::RearPort(a) => a.device(),
        }
    }

    pub fn port(&self) -> (r: CablePort)
        ensures
            r == self.spec_port(),
    {
        match self {
            CablePortAccess::Interface(a) => CablePort::Interface(a.id),
            CablePortAccess::FrontPort(a) => CablePort::FrontPort(a.id),
            CablePortAccess::RearPort(a) => CablePort::RearPort(a.id),
        }
    }

    pub fn cable(&self) -> (r: Option<CableAccess<'a>>)
        ensures
            r is Some <==> self.spec_topology().spec_cable_of(self.spec_port()) is Some,
            r matches Some(c) ==> c.id == self.spec_topology().spec_cable_of(self.spec_port())->0
                && c.topology == self.spec_topology(),
    {
        match self {
            CablePortAccess::Interface(a) => a.cable(),
            CablePortAccess::FrontPort(a) => a.cable(),
            CablePortAccess::RearPort(a) => a.cable(),
        }
    }

    /// The port on the other face of the patch panel, for a pass-through
    /// port that has one.
    pub fn next_device_port_id(&self) -> (r: Option<CablePortAccess<'a>>)
        ensures
            r is Some <==> self.spec_topology().spec_next_port(self.spec_port()) is Some,
            r matches Some(p) ==> p.spec_port() == self.spec_topology().spec_next_port(
                self.spec_port(),
            )->0 && p.spec_topology() == self.spec_topology(),
    {
        match self {
            CablePortAccess::Interface(_) => None,
            CablePortAccess::FrontPort(a) => match a.rear_port() {
                Some(r) => Some(CablePortAccess::RearPort(r)),
                None => None,
            },
            CablePortAccess::RearPort(a) => match a.front_port() {
                Some(f) => Some(CablePortAccess::FrontPort(f)),
                None => None,
            },
        }
    }

    /// The crossings of its cable that begin at the port.
    pub fn attached_cable_segments(&self) -> (r: Vec<CableConnection<'a>>)
        ensures
            segment_views(r@) == self.spec_topology().spec_segments(self.spec_port()),
            forall|i: int| 0 <= i < r@.len() ==> (#[trigger] r@[i]).on(self.spec_topology()),
    {
        match self.cable() {
            Some(cable) => cable.connections_from_port(self.port()),
            None => {
                let r: Vec<CableConnection<'a>> = Vec::new();
                proof {
                    assert(segment_views(r@) =~= Seq::<Segment>::empty());
                }
                r
            },
        }
    }

    /// Every walk from the port to a far end, each once, in the order in
    /// which the cables list their branches. No walk comes out at the port
    /// itself: a walk that would end where it began is left out. A port that
    /// comes up a second time on its own walk is an error.
    pub fn collect_cables(&self) -> (r: Result<Vec<CablePath<'a>>, CyclicCablingError>)
        ensures
            r is Ok <==> self.spec_topology().spec_cable_paths(self.spec_port()) is Some,
            r matches Ok(paths) ==> {
                &&& path_views(paths@) == self.spec_topology().spec_cable_paths(
                    self.spec_port(),
                )->0
                &&& path_views(paths@).no_duplicates()
                &&& forall|i: int|
                    0 <= i < paths@.len() ==> (#[trigger] paths@[i]).on(self.spec_topology())
                &&& forall|i: int|
                    0 <= i < paths@.len() ==> (#[trigger] paths@[i]).start_port.spec_port()
                        == self.spec_port() && paths@[i].spec_far_port() != self.spec_port()
            },
    {
        let mut out: Vec<CablePath<'a>> = Vec::new();
        let chain: Vec<CableConnection<'a>> = Vec::new();
        let on_path: Vec<CablePort> = Vec::new();
        proof {
            assert(path_views(out@) =~= Seq::<PathView>::empty());
            assert(segment_views(chain@) =~= Seq::<Segment>::empty());
        }
        match walk_at(*self, *self, &chain, &on_path, &mut out) {
            Ok(()) => {
                proof {
                    let walks = self.spec_topology().spec_cable_paths(self.spec_port())->0;
                    assert(Seq::<PathView>::empty() + walks =~= walks);
                    lemma_walk_leaves_start(self.spec_topology(), self.spec_port());
                    assert forall|i: int| 0 <= i < out@.len() implies (#[trigger] out@[i]).start_port.spec_port()
                        == self.spec_port() && out@[i].spec_far_port() != self.spec_port() by {
                        let p = out@[i];
                        assert(path_views(out@)[i] == p.view());
                        assert(walks[i] == p.view());
                        if p.end_port is None && p.cable_segments@.len() > 0 {
                            assert(segment_views(p.cable_segments@).last()
                                == p.cable_segments@.last().view());
                        }
                        assert(p.spec_far_port() == far_port_of(p.view()));
                    }
                }
                Ok(out)
            },
            Err(e) => Err(e),
        }
    }
}

impl<'a> CableConnection<'a> {
    /// The crossing told by ids.
    pub open spec fn view(&self) -> Segment {
        Segment { near: self.near.spec_port(), far: self.far.spec_port(), cable: self.cable.id }
    }

    /// Whether every handle of the crossing is on `topology`.
    pub open spec fn on(&self, topology: &Topology) -> bool {
        &&& self.near.spec_topology() == topology
        &&& self.far.spec_topology() == topology
        &&& self.cable.topology == topology
    }
}

/// The crossings told by ids.
pub open spec fn segment_views(s: Seq<CableConnection<'_>>) -> Seq<Segment> {
    s.map_values(|c: CableConnection<'_>| c.view())
}

/// The walks told by ids.
pub open spec fn path_views(s: Seq<CablePath<'_>>) -> Seq<PathView> {
    s.map_values(|p: CablePath<'_>| p.view())
}

impl<'a> CablePath<'a> {
    /// The walk told by ids.
    pub open spec fn view(&self) -> PathView {
        PathView {
            start_port: self.start_port.spec_port(),
            segments: segment_views(self.cable_segments@),
            end_port: match self.end_port {
                Some(p) => Some(p.spec_port()),
                None => None,
            },
        }
    }

    /// Whether every handle of the walk is on `topology`.
    pub open spec fn on(&self, topology: &Topology) -> bool {
        &&& self.start_port.spec_topology() == topology
        &&& forall|i: int|
            0 <= i < self.cable_segments@.len() ==> (#[trigger] self.cable_segments@[i]).on(
                topology,
            )
        &&& self.end_port matches Some(p) ==> p.spec_topology() == topology
    }

    /// The port at which the walk ended.
    pub open spec fn spec_far_port(&self) -> CablePort {
        match self.end_port {
            Some(p) => p.spec_port(),
            None => if self.cable_segments@.len() > 0 {
                self.cable_segments@.last().far.spec_port()
            } else {
                self.start_port.spec_port()
            },
        }
    }

    /// The port at which the walk ended: `end_port` where there is one,
    /// else the far port of the last cable, else the port it began at.
    pub fn far_port(&self) -> (r: &CablePortAccess<'a>)
        ensures
            r.spec_port() == self.spec_far_port(),
            forall|t: &Topology| self.on(t) ==> r.spec_topology() == t,
    {
        match &self.end_port {
            Some(p) => p,
            None => {
                let n = self.cable_segments.len();
                if n > 0 {
                    &self.cable_segments[n - 1].far
                } else {
                    &self.start_port
                }
            },
        }
    }
}

fn contains_port(ports: &Vec<CablePort>, port: CablePort) -> (r: bool)
    ensures
        r == ports@.contains(port),
{
    let mut i: usize = 0;
    while i < ports.len()
        invariant
            i <= ports.len(),
            forall|k: int| 0 <= k < i ==> ports@[k] != port,
        decreases ports.len() - i,
    {
        if ports[i] == port {
            return true;
        }
        i += 1;
    }
    false
}

impl<'a> CableAccess<'a> {
    pub open spec fn spec_data(&self) -> Option<Cable> {
        self.topology.spec_cable(self.id)
    }

    fn data(&self) -> (r: Option<&'a Cable>)
        ensures
            r is Some <==> self.spec_data() is Some,
            r matches Some(d) ==> *d == self.spec_data()->0,
    {
        self.topology.cables.get(&self.id.0)
    }

    pub fn id(&self) -> (r: CableId)
        ensures
            r == self.id,
    {
        self.id
    }

    fn create_port_accesses(&self, ports: &Vec<CablePort>) -> (r: Vec<CablePortAccess<'a>>)
        ensures
            r@.len() == ports@.len(),
            forall|i: int|
                0 <= i < r@.len() ==> (#[trigger] r@[i]).spec_port() == ports@[i]
                    && r@[i].spec_topology() == self.topology,
    {
        let mut out: Vec<CablePortAccess<'a>> = Vec::new();
        let mut i: usize = 0;
        while i < ports.len()
            invariant
                i <= ports.len(),
                out@.len() == i,
                forall|k: int|
                    0 <= k < out@.len() ==> (#[trigger] out@[k]).spec_port() == ports@[k]
                        && out@[k].spec_topology() == self.topology,
            decreases ports.len() - i,
        {
            out.push(CablePortAccess::create(self.topology, ports[i]));
            i += 1;
        }
        out
    }

    /// The ports at the one end of the cable.
    pub fn port_a(&self) -> (r: Vec<CablePortAccess<'a>>)
        ensures
            r@.len() == (match self.spec_data() {
                Some(d) => d.port_a@.len(),
                None => 0,
            }),
            forall|i: int|
                0 <= i < r@.len() ==> (#[trigger] r@[i]).spec_port() == self.spec_data()->0.port_a@[i]
                    && r@[i].spec_topology() == self.topology,
    {
        match self.data() {
            Some(d) => self.create_port_accesses(&d.port_a),
            None => Vec::new(),
        }
    }

    /// The ports at the other end of the cable.
    pub fn port_b(&self) -> (r: Vec<CablePortAccess<'a>>)
        ensures
            r@.len() == (match self.spec_data() {
                Some(d) => d.port_b@.len(),
                None => 0,
            }),
            forall|i: int|
                0 <= i < r@.len() ==> (#[trigger] r@[i]).spec_port() == self.spec_data()->0.port_b@[i]
                    && r@[i].spec_topology() == self.topology,
    {
        match self.data() {
            Some(d) => self.create_port_accesses(&d.port_b),
            None => Vec::new(),
        }
    }

    /// The crossings of the cable that begin at `port`: one to each port
    /// that the cable leads to from there.
    pub fn connections_from_port(&self, port: CablePort) -> (r: Vec<CableConnection<'a>>)
        ensures
            segment_views(r@) == (match self.spec_data() {
                Some(cable) => crossings(cable, self.id, port),
                None => Seq::empty(),
            }),
            forall|i: int| 0 <= i < r@.len() ==> (#[trigger] r@[i]).on(self.topology),
    {
        let mut out: Vec<CableConnection<'a>> = Vec::new();
        proof {
            assert(segment_views(out@) =~= Seq::<Segment>::empty());
        }
        match self.data() {
            Some(d) => {
                let near = CablePortAccess::create(self.topology, port);
                let mut far: Vec<CablePort> = Vec::new();
                if contains_port(&d.port_a, port) {
                    add_far(&mut far, &d.port_b);
                }
                if contains_port(&d.port_b, port) {
                    add_far(&mut far, &d.port_a);
                }
                let mut i: usize = 0;
                proof {
                    assert(fan(port, far@.take(0), self.id) =~= Seq::<Segment>::empty());
                }
                while i < far.len()
                    invariant
                        i <= far.len(),
                        near.spec_port() == port,
                        near.spec_topology() == self.topology,
                        out@.len() == i,
                        segment_views(out@) == fan(port, far@.take(i as int), self.id),
                        forall|k: int| 0 <= k < out@.len() ==> (#[trigger] out@[k]).on(self.topology),
                    decreases far.len() - i,
                {
                    let end = CablePortAccess::create(self.topology, far[i]);
                    let ghost seen = out@;
                    out.push(CableConnection { near, far: end, cable: *self });
                    proof {
                        assert forall|k: int| 0 <= k < out@.len() implies segment_views(out@)[k]
                            == fan(port, far@.take(i as int + 1), self.id)[k] by {
                            if k < i {
                                assert(out@[k] == seen[k]);
                                assert(segment_views(seen)[k] == seen[k].view());
                            }
                        }
                        assert(segment_views(out@) =~= fan(
                            port,
                            far@.take(i as int + 1),
                            self.id,
                        ));
                    }
                    i += 1;
                }
                proof {
                    assert(far@.take(far.len() as int) =~= far@);
                }
            },
            None => {},
        }
        out
    }
}

/// Adds the ports `more` to `out`, but for those that `out` lists already.
fn add_far(out: &mut Vec<CablePort>, more: &Vec<CablePort>)
    ensures
        final(out)@ == far_ports(old(out)@, more@),
{
    let mut i: usize = 0;
    proof {
        assert(more@.take(0) =~= Seq::<CablePort>::empty());
    }
    while i < more.len()
        invariant
            i <= more.len(),
            out@ == far_ports(old(out)@, more@.take(i as int)),
        decreases more.len() - i,
    {
        proof {
            assert(more@.take(i as int + 1).drop_last() =~= more@.take(i as int));
            assert(more@.take(i as int + 1).last() == more@[i as int]);
        }
        if !contains_port(out, more[i]) {
            out.push(more[i]);
        }
        i += 1;
    }
    proof {
        assert(more@.take(more.len() as int) =~= more@);
    }
}

/// A copy of the crossings with one more at the end.
fn extended<'a>(chain: &Vec<CableConnection<'a>>, next: CableConnection<'a>) -> (r: Vec<
    CableConnection<'a>,
>)
    ensures
        r@ == chain@.push(next),
{
    let mut out: Vec<CableConnection<'a>> = Vec::new();
    let mut i: usize = 0;
    while i < chain.len()
        invariant
            i <= chain.len(),
            out@ == chain@.take(i as int),
        decreases chain.len() - i,
    {
        out.push(chain[i]);
        proof {
            assert(chain@.take(i as int).push(chain@[i as int]) =~= chain@.take(i as int + 1));
        }
        i += 1;
    }
    proof {
        assert(chain@.take(chain.len() as int) =~= chain@);
    }
    out.push(next);
    out
}

/// A copy of the ports with one more at the end.
fn with_port(ports: &Vec<CablePort>, port: CablePort) -> (r: Vec<CablePort>)
    ensures
        r@ == ports@.push(port),
{
    let mut out: Vec<CablePort> = Vec::new();
    let mut i: usize = 0;
    while i < ports.len()
        invariant
            i <= ports.len(),
            out@ == ports@.take(i as int),
        decreases ports.len() - i,
    {
        out.push(ports[i]);
        proof {
            assert(ports@.take(i as int).push(ports@[i as int]) =~= ports@.take(i as int + 1));
        }
        i += 1;
    }
    proof {
        assert(ports@.take(ports.len() as int) =~= ports@);
    }
    out.push(port);
    out
}

/// Adds to `out` the walks that go on from `port`.
fn walk_at<'a>(
    start: CablePortAccess<'a>,
    port: CablePortAccess<'a>,
    chain: &Vec<CableConnection<'a>>,
    on_path: &Vec<CablePort>,
    out: &mut Vec<CablePath<'a>>,
) -> (r: Result<(), CyclicCablingError>)
    requires
        port.spec_topology() == start.spec_topology(),
        forall|i: int| 0 <= i < chain@.len() ==> (#[trigger] chain@[i]).on(start.spec_topology()),
        forall|i: int| 0 <= i < old(out)@.len() ==> (#[trigger] old(out)@[i]).on(
            start.spec_topology(),
        ),
    ensures
        r is Ok <==> start.spec_topology().paths_at(
            start.spec_port(),
            port.spec_port(),
            segment_views(chain@),
            on_path@,
        ) is Some,
        r is Ok ==> {
            &&& path_views(final(out)@) == path_views(old(out)@) + start.spec_topology().paths_at(
                start.spec_port(),
                port.spec_port(),
                segment_views(chain@),
                on_path@,
            )->0
            &&& forall|i: int|
                0 <= i < final(out)@.len() ==> (#[trigger] final(out)@[i]).on(
                    start.spec_topology(),
                )
        },
    decreases usize::MAX - on_path@.len(),
{
    let ghost t = start.spec_topology();
    let ghost before = path_views(out@);
    let segments = port.attached_cable_segments();
    if segments.len() == 0 {
        if port.port() == start.port() {
            proof {
                assert(before + Seq::<PathView>::empty() =~= before);
            }
        } else {
            let path = CablePath {
                start_port: start,
                cable_segments: extended_none(chain),
                end_port: Some(port),
            };
            out.push(path);
            proof {
                assert(path_views(out@) =~= before + seq![path.view()]);
            }
        }
        return Ok(());
    }
    if contains_port(on_path, port.port()) || on_path.len() >= usize::MAX {
        return Err(CyclicCablingError);
    }
    let deeper = with_port(on_path, port.port());
    let ghost all = segment_views(segments@);
    let mut i: usize = 0;
    proof {
        assert(all.skip(0) =~= all);
        assert(before + Seq::<PathView>::empty() =~= before);
    }
    let ghost mut done: Seq<PathView> = Seq::empty();
    while i < segments.len()
        invariant
            i <= segments.len(),
            t == start.spec_topology(),
            port.spec_topology() == t,
            all == segment_views(segments@),
            deeper@ == on_path@.push(port.spec_port()),
            on_path@.len() < usize::MAX,
            forall|k: int| 0 <= k < chain@.len() ==> (#[trigger] chain@[k]).on(t),
            forall|k: int| 0 <= k < segments@.len() ==> (#[trigger] segments@[k]).on(t),
            forall|k: int| 0 <= k < out@.len() ==> (#[trigger] out@[k]).on(t),
            path_views(out@) == before + done,
            t.paths_at(start.spec_port(), port.spec_port(), segment_views(chain@), on_path@)
                == t.paths_over(start.spec_port(), all, segment_views(chain@), deeper@),
            t.paths_over(start.spec_port(), all, segment_views(chain@), deeper@) == (match t.paths_over(
                start.spec_port(),
                all.skip(i as int),
                segment_views(chain@),
                deeper@,
            ) {
                Some(rest) => Some(done + rest),
                None => None,
            }),
        decreases segments.len() - i,
    {
        let segment = segments[i];
        let longer = extended(chain, segment);
        let ghost views_before = path_views(out@);
        let ghost tail = all.skip(i as int);
        proof {
            assert(tail[0] == segment.view());
            assert(tail.skip(1) =~= all.skip(i as int + 1));
            assert(segment_views(longer@) =~= segment_views(chain@).push(segment.view()));
            assert forall|k: int| 0 <= k < longer@.len() implies (#[trigger] longer@[k]).on(t) by {
                if k < chain@.len() {
                    assert(longer@[k] == chain@[k]);
                } else {
                    assert(longer@[k] == segments@[i as int]);
                }
            }
        }
        match segment.far.next_device_port_id() {
            Some(next) => {
                match walk_at(start, next, &longer, &deeper, out) {
                    Ok(()) => {
                        proof {
                            let head = t.paths_at(
                                start.spec_port(),
                                next.spec_port(),
                                segment_views(longer@),
                                deeper@,
                            )->0;
                            assert(path_views(out@) =~= before + (done + head));
                            lemma_paths_step(
                                t,
                                start.spec_port(),
                                tail,
                                segment_views(chain@),
                                deeper@,
                                done,
                            );
                            done = done + head;
                        }
                    },
                    Err(e) => {
                        proof {
                            lemma_paths_step(
                                t,
                                start.spec_port(),
                                tail,
                                segment_views(chain@),
                                deeper@,
                                done,
                            );
                        }
                        return Err(e);
                    },
                }
            },
            None => {
                proof {
                    assert(segment_views(longer@).last() == segment.view());
                    lemma_paths_step(
                        t,
                        start.spec_port(),
                        tail,
                        segment_views(chain@),
                        deeper@,
                        done,
                    );
                }
                if segment.far.port() == start.port() {
                    proof {
                        assert(done + Seq::<PathView>::empty() =~= done);
                    }
                } else {
                    let path = CablePath {
                        start_port: start,
                        cable_segments: longer,
                        end_port: None,
                    };
                    out.push(path);
                    proof {
                        let head = seq![path.view()];
                        assert(path_views(out@) =~= views_before.push(path.view()));
                        assert(path_views(out@) =~= before + (done + head));
                        done = done + head;
                    }
                }
            },
        }
        i += 1;
    }
    proof {
        assert(all.skip(segments@.len() as int) =~= Seq::<Segment>::empty());
        assert(done + Seq::<PathView>::empty() =~= done);
    }
    Ok(())
}

/// The ports that were gathered are listed once each.
pub proof fn lemma_far_ports(acc: Seq<CablePort>, more: Seq<CablePort>)
    requires
        acc.no_duplicates(),
    ensures
        far_ports(acc, more).no_duplicates(),
        forall|p: CablePort|
            #[trigger] far_ports(acc, more).contains(p) <==> acc.contains(p) || more.contains(p),
    decreases more.len(),
{
    if more.len() > 0 {
        let before = far_ports(acc, more.drop_last());
        let last = more.last();
        lemma_far_ports(acc, more.drop_last());
        let all = far_ports(acc, more);
        assert forall|p: CablePort| #[trigger] all.contains(p) <==> acc.contains(p)
            || more.contains(p) by {
            if more.contains(p) {
                let k = choose|k: int| 0 <= k < more.len() && more[k] == p;
                if k < more.len() - 1 {
                    assert(more.drop_last()[k] == p);
                }
            }
            if more.drop_last().contains(p) {
                let k = choose|k: int| 0 <= k < more.drop_last().len() && more.drop_last()[k] == p;
                assert(more[k] == p);
            }
            if before.contains(p) {
                let k = choose|k: int| 0 <= k < before.len() && before[k] == p;
                assert(all[k] == p);
            }
            if all.contains(p) && !before.contains(p) {
                let k = choose|k: int| 0 <= k < all.len() && all[k] == p;
                assert(k == before.len());
                assert(p == last);
                assert(more[more.len() - 1] == p);
            }
            if p == last && !before.contains(p) {
                assert(all[before.len() as int] == p);
            }
        }
    }
}

/// A cable has one crossing from a port to each port that it leads to:
/// no crossing comes twice, however often the cable lists a port.
pub proof fn lemma_crossings_once(cable: Cable, id: CableId, port: CablePort)
    ensures
        crossings(cable, id, port).no_duplicates(),
        forall|i: int|
            0 <= i < crossings(cable, id, port).len() ==> (#[trigger] crossings(
                cable,
                id,
                port,
            )[i]).near == port,
{
    let none = Seq::<CablePort>::empty();
    lemma_far_ports(none, cable.port_b@);
    let first = if cable.port_a@.contains(port) {
        far_ports(none, cable.port_b@)
    } else {
        none
    };
    lemma_far_ports(first, cable.port_a@);
}

/// Whether the walk `p` begins at `start` and goes over the crossings
/// `chain` first.
pub open spec fn goes_on(p: PathView, start: CablePort, chain: Seq<Segment>) -> bool {
    &&& p.start_port == start
    &&& p.segments.len() >= chain.len()
    &&& p.segments.take(chain.len() as int) == chain
}

/// No walk that goes on from a port comes out at the port that the walks
/// began at; each begins at that port and goes over the cables that led to
/// where it went on from; and no walk comes twice.
pub proof fn lemma_paths_at(
    t: &Topology,
    start: CablePort,
    port: CablePort,
    chain: Seq<Segment>,
    on_path: Seq<CablePort>,
)
    requires
        t.paths_at(start, port, chain, on_path) is Some,
    ensures
        forall|i: int|
            0 <= i < t.paths_at(start, port, chain, on_path)->0.len() ==> {
                let p = #[trigger] t.paths_at(start, port, chain, on_path)->0[i];
                &&& goes_on(p, start, chain)
                &&& far_port_of(p) != start
            },
        t.paths_at(start, port, chain, on_path)->0.no_duplicates(),
    decreases usize::MAX - on_path.len(), 0nat,
{
    let segments = t.spec_segments(port);
    if segments.len() == 0 {
        if port != start {
            assert(chain.take(chain.len() as int) =~= chain);
        }
    } else {
        match t.spec_cable_of(port) {
            Some(id) => match t.spec_cable(id) {
                Some(cable) => {
                    lemma_crossings_once(cable, id, port);
                },
                None => {},
            },
            None => {},
        }
        lemma_paths_over(t, start, segments, chain, on_path.push(port));
    }
}

/// No walk that goes on over one of the crossings comes out at the port
/// that the walks began at, each goes over one of the crossings next, and
/// no walk comes twice where no crossing does.
pub proof fn lemma_paths_over(
    t: &Topology,
    start: CablePort,
    segments: Seq<Segment>,
    chain: Seq<Segment>,
    on_path: Seq<CablePort>,
)
    requires
        t.paths_over(start, segments, chain, on_path) is Some,
        segments.no_duplicates(),
    ensures
        forall|i: int|
            0 <= i < t.paths_over(start, segments, chain, on_path)->0.len() ==> {
                let p = #[trigger] t.paths_over(start, segments, chain, on_path)->0[i];
                &&& goes_on(p, start, chain)
                &&& far_port_of(p) != start
                &&& p.segments.len() > chain.len()
                &&& segments.contains(p.segments[chain.len() as int])
            },
        t.paths_over(start, segments, chain, on_path)->0.no_duplicates(),
    decreases usize::MAX - on_path.len(), 1 + segments.len(),
{
    if segments.len() > 0 {
        let first = segments[0];
        let rest = segments.skip(1);
        let longer = chain.push(first);
        let head = match t.spec_next_port(first.far) {
            Some(next) => t.paths_at(start, next, longer, on_path),
            None => Some(ended(start, longer)),
        };
        let tail = t.paths_over(start, rest, chain, on_path);
        let all = t.paths_over(start, segments, chain, on_path)->0;
        assert(all == head->0 + tail->0);
        match t.spec_next_port(first.far) {
            Some(next) => {
                lemma_paths_at(t, start, next, longer, on_path);
            },
            None => {
                assert(longer.take(longer.len() as int) =~= longer);
            },
        }
        assert forall|i: int, j: int| 0 <= i < j < rest.len() implies rest[i] != rest[j] by {
            assert(rest[i] == segments[i + 1] && rest[j] == segments[j + 1]);
        }
        lemma_paths_over(t, start, rest, chain, on_path);
        assert forall|i: int| 0 <= i < head->0.len() implies {
            let p = #[trigger] head->0[i];
            &&& goes_on(p, start, chain)
            &&& far_port_of(p) != start
            &&& p.segments.len() > chain.len()
            &&& p.segments[chain.len() as int] == first
        } by {
            let p = head->0[i];
            assert(p.segments.len() >= longer.len());
            assert(p.segments.take(longer.len() as int) == longer);
            assert(p.segments.take(longer.len() as int)[chain.len() as int] == first);
            assert(p.segments.take(chain.len() as int) =~= longer.take(chain.len() as int));
            assert(longer.take(chain.len() as int) =~= chain);
        }
        assert forall|i: int| 0 <= i < all.len() implies {
            let p = #[trigger] all[i];
            &&& goes_on(p, start, chain)
            &&& far_port_of(p) != start
            &&& p.segments.len() > chain.len()
            &&& segments.contains(p.segments[chain.len() as int])
        } by {
            if i < head->0.len() {
                assert(all[i] == head->0[i]);
                assert(segments[0] == first);
            } else {
                let p = tail->0[i - head->0.len()];
                assert(all[i] == p);
                let k = choose|k: int| 0 <= k < rest.len() && rest[k] == p.segments[chain.len() as int];
                assert(segments[k + 1] == rest[k]);
            }
        }
        assert forall|i: int, j: int| 0 <= i < j < all.len() implies all[i] != all[j] by {
            let n = head->0.len();
            if j < n {
                assert(all[i] == head->0[i] && all[j] == head->0[j]);
            } else if i >= n {
                assert(all[i] == tail->0[i - n] && all[j] == tail->0[j - n]);
            } else {
                assert(all[i] == head->0[i]);
                let q = tail->0[j - n];
                assert(all[j] == q);
                let k = choose|k: int| 0 <= k < rest.len() && rest[k] == q.segments[chain.len() as int];
                assert(segments[k + 1] == rest[k]);
                assert(segments[k + 1] != segments[0]);
            }
        }
    }
}

/// Every walk from a port begins at that port and comes out at another
/// port: no walk reports the port it began at as its far end. No walk
/// comes twice, also where a cable lists a port on both its ends or more
/// than once.
pub proof fn lemma_walk_leaves_start(t: &Topology, start: CablePort)
    requires
        t.spec_cable_paths(start) is Some,
    ensures
        forall|i: int|
            0 <= i < t.spec_cable_paths(start)->0.len() ==> (#[trigger] t.spec_cable_paths(
                start,
            )->0[i]).start_port == start && far_port_of(t.spec_cable_paths(start)->0[i]) != start,
        t.spec_cable_paths(start)->0.no_duplicates(),
{
    lemma_paths_at(t, start, start, Seq::empty(), Seq::empty());
}

/// A copy of the crossings.
fn extended_none<'a>(chain: &Vec<CableConnection<'a>>) -> (r: Vec<CableConnection<'a>>)
    ensures
        r@ == chain@,
{
    let mut out: Vec<CableConnection<'a>> = Vec::new();
    let mut i: usize = 0;
    while i < chain.len()
        invariant
            i <= chain.len(),
            out@ == chain@.take(i as int),
        decreases chain.len() - i,
    {
        out.push(chain[i]);
        proof {
            assert(chain@.take(i as int).push(chain@[i as int]) =~= chain@.take(i as int + 1));
        }
        i += 1;
    }
    proof {
        assert(chain@.take(chain.len() as int) =~= chain@);
    }
    out
}

/// The walks over `tail`, with `done` put before them, are the walks over
/// the first of `tail`, with `done` put before them, and then the walks
/// over the rest.
proof fn lemma_paths_step(
    t: &Topology,
    start: CablePort,
    tail: Seq<Segment>,
    chain: Seq<Segment>,
    on_path: Seq<CablePort>,
    done: Seq<PathView>,
)
    requires
        tail.len() > 0,
    ensures
        ({
            let first = tail[0];
            let head = match t.spec_next_port(first.far) {
                Some(next) => t.paths_at(start, next, chain.push(first), on_path),
                None => Some(ended(start, chain.push(first))),
            };
            (match t.paths_over(start, tail, chain, on_path) {
                Some(rest) => Some(done + rest),
                None => None,
            }) == (match head {
                Some(h) => match t.paths_over(start, tail.skip(1), chain, on_path) {
                    Some(rest) => Some((done + h) + rest),
                    None => None,
                },
                None => None,
            })
        }),
{
    let first = tail[0];
    let head = match t.spec_next_port(first.far) {
        Some(next) => t.paths_at(start, next, chain.push(first), on_path),
        None => Some(ended(start, chain.push(first))),
    };
    match (head, t.paths_over(start, tail.skip(1), chain, on_path)) {
        (Some(h), Some(rest)) => {
            assert(done + (h + rest) =~= (done + h) + rest);
        },
        _ => {},
    }
}

} // verus!
