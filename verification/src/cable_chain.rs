//! Chains of cables that meet in the pass-through ports of patch panels.
//!
//! A chain has the ports at which it ends on its left and on its right.
//! Two chains merge where an end of the one is connected inside a device to
//! an end of the other.

use crate::topology::CablePort;
use vstd::prelude::*;

verus! {

/// A cable of a chain, with the ports that it joins.
#[derive(Debug, Clone, Copy, PartialEq, Eq, Structural, Hash)]
pub struct CablePathEntry {
    pub id: u32,
    pub left_port: CablePort,
    pub right_port: CablePort,
}

impl CablePathEntry {
    /// The cable seen from the other side.
    pub open spec fn spec_swap(self) -> CablePathEntry {
        CablePathEntry { id: self.id, left_port: self.right_port, right_port: self.left_port }
    }

    /// The cable seen from the other side.
    pub fn swap(self) -> (r: CablePathEntry)
        ensures
            r == self.spec_swap(),
    {
        CablePathEntry { id: self.id, left_port: self.right_port, right_port: self.left_port }
    }
}

/// The place of a port in the order of ports: interfaces first, then
/// front ports, then rear ports, each kind by id.
pub open spec fn port_rank(p: CablePort) -> int {
    match p {
        CablePort::Interface(id) => id.0 as int,
        CablePort::FrontPort(id) => 0x1_0000_0000 + id.0 as int,
        CablePort::RearPort(id) => 0x2_0000_0000 + id.0 as int,
    }
}

fn rank(p: CablePort) -> (r: u64)
    ensures
        r == port_rank(p),
{
    match p {
        CablePort::Interface(id) => id.0 as u64,
        CablePort::FrontPort(id) => 0x1_0000_0000 + id.0 as u64,
        CablePort::RearPort(id) => 0x2_0000_0000 + id.0 as u64,
    }
}

/// A connection inside a device between two ports, the lower port first.
#[derive(Debug, Clone, Copy, PartialEq, Eq, Structural, Hash)]
pub struct InternalDeviceConnection {
    pub left: CablePort,
    pub right: CablePort,
}

impl InternalDeviceConnection {
    /// The connection between two ports.
    pub fn new(a: CablePort, b: CablePort) -> (r: InternalDeviceConnection)
        ensures
            r == (if port_rank(a) < port_rank(b) {
                InternalDeviceConnection { left: a, right: b }
            } else {
                InternalDeviceConnection { left: b, right: a }
            }),
    {
        if rank(a) < rank(b) {
            InternalDeviceConnection { left: a, right: b }
        } else {
            InternalDeviceConnection { left: b, right: a }
        }
    }
}

/// The ports that a port is connected to inside its device.
#[derive(Debug, Clone, PartialEq, Eq)]
pub struct InternalConnections {
    pub port: CablePort,
    pub connected: Vec<CablePort>,
}

/// A chain of cables. A chain that lists no port twice at an end keeps to
/// that when it takes up another chain.
#[derive(Debug, Clone, PartialEq, Eq, Default)]
pub struct CableChain {
    /// The ports at which the chain ends on the left, as a set.
    pub left_ports: Vec<CablePort>,
    /// The ports at which the chain ends on the right, as a set.
    pub right_ports: Vec<CablePort>,
    pub cables: Vec<CablePathEntry>,
}

/// What became of a chain that was to be merged into another one.
#[derive(Debug, Clone, PartialEq, Eq)]
pub enum CableChainMergeResult {
    Merged,
    NotMerged(CableChain),
}

/// Whether `p` is connected to `q` inside a device.
pub open spec fn connected(ic: Seq<InternalConnections>, p: CablePort, q: CablePort) -> bool {
    exists|i: int| 0 <= i < ic.len() && (#[trigger] ic[i]).port == p && ic[i].connected@.contains(q)
}

/// Whether one of the ports `from` is connected to `q` inside a device.
pub open spec fn reached(ic: Seq<InternalConnections>, from: Seq<CablePort>, q: CablePort) -> bool {
    exists|k: int| 0 <= k < from.len() && connected(ic, #[trigger] from[k], q)
}

/// Whether one of the ports `a` is connected to one of the ports `b`
/// inside a device.
pub open spec fn touches(ic: Seq<InternalConnections>, a: Seq<CablePort>, b: Seq<CablePort>) -> bool {
    exists|k: int| 0 <= k < b.len() && reached(ic, a, #[trigger] b[k])
}

/// The cables seen from the other side.
pub open spec fn swapped(cables: Seq<CablePathEntry>) -> Seq<CablePathEntry> {
    Seq::new(cables.len(), |i: int| cables[i].spec_swap())
}

/// The ports of a chain that has taken up another chain at one end: its
/// own ports `mine` but for those that the near ends `near` of the other
/// chain are connected to, and the far ends `far` of the other chain.
pub open spec fn joined_ports(
    ic: Seq<InternalConnections>,
    mine: Seq<CablePort>,
    near: Seq<CablePort>,
    far: Seq<CablePort>,
    ports: Seq<CablePort>,
) -> bool {
    forall|p: CablePort|
        #[trigger] ports.contains(p) <==> (mine.contains(p) && !reached(ic, near, p)) || far.contains(
            p,
        )
}

fn holds(ports: &Vec<CablePort>, p: CablePort) -> (r: bool)
    ensures
        r == ports@.contains(p),
{
    let mut i: usize = 0;
    while i < ports.len()
        invariant
            i <= ports.len(),
            forall|k: int| 0 <= k < i ==> ports@[k] != p,
        decreases ports.len() - i,
    {
        if ports[i] == p {
            return true;
        }
        i += 1;
    }
    false
}

fn is_connected(ic: &Vec<InternalConnections>, p: CablePort, q: CablePort) -> (r: bool)
    ensures
        r == connected(ic@, p, q),
{
    let mut i: usize = 0;
    while i < ic.len()
        invariant
            i <= ic.len(),
            forall|k: int|
                0 <= k < i ==> !((#[trigger] ic@[k]).port == p && ic@[k].connected@.contains(q)),
        decreases ic.len() - i,
    {
        if ic[i].port == p && holds(&ic[i].connected, q) {
            return true;
        }
        i += 1;
    }
    false
}

fn is_reached(ic: &Vec<InternalConnections>, from: &Vec<CablePort>, q: CablePort) -> (r: bool)
    ensures
        r == reached(ic@, from@, q),
{
    let mut i: usize = 0;
    while i < from.len()
        invariant
            i <= from.len(),
            forall|k: int| 0 <= k < i ==> !connected(ic@, #[trigger] from@[k], q),
        decreases from.len() - i,
    {
        if is_connected(ic, from[i], q) {
            return true;
        }
        i += 1;
    }
    false
}

fn do_touch(ic: &Vec<InternalConnections>, a: &Vec<CablePort>, b: &Vec<CablePort>) -> (r: bool)
    ensures
        r == touches(ic@, a@, b@),
{
    let mut i: usize = 0;
    while i < b.len()
        invariant
            i <= b.len(),
            forall|k: int| 0 <= k < i ==> !reached(ic@, a@, #[trigger] b@[k]),
        decreases b.len() - i,
    {
        if is_reached(ic, a, b[i]) {
            return true;
        }
        i += 1;
    }
    false
}

/// The ports of a chain that has taken up another chain at one end. Where
/// the chain listed no port twice, it still lists none twice.
fn join_ports(
    ic: &Vec<InternalConnections>,
    mine: &Vec<CablePort>,
    near: &Vec<CablePort>,
    far: &Vec<CablePort>,
) -> (r: Vec<CablePort>)
    ensures
        joined_ports(ic@, mine@, near@, far@, r@),
        mine@.no_duplicates() ==> r@.no_duplicates(),
{
    let mut out: Vec<CablePort> = Vec::new();
    let mut i: usize = 0;
    while i < mine.len()
        invariant
            i <= mine.len(),
            mine@.no_duplicates() ==> out@.no_duplicates(),
            forall|p: CablePort|
                #[trigger] out@.contains(p) <==> mine@.take(i as int).contains(p) && !reached(
                    ic@,
                    near@,
                    p,
                ),
        decreases mine.len() - i,
    {
        let ghost before = out@;
        let ghost seen = mine@.take(i as int);
        let ghost now = mine@.take(i as int + 1);
        let kept = !is_reached(ic, near, mine[i]);
        if kept {
            out.push(mine[i]);
        }
        proof {
            assert(now =~= seen.push(mine@[i as int]));
            if mine@.no_duplicates() && kept {
                if before.contains(mine@[i as int]) {
                    let v = choose|v: int| 0 <= v < seen.len() && seen[v] == mine@[i as int];
                    assert(mine@[v] == mine@[i as int]);
                }
                assert forall|x: int, y: int| 0 <= x < y < out@.len() implies out@[x] != out@[y] by {
                    if y < before.len() {
                        assert(before[x] == out@[x] && before[y] == out@[y]);
                    } else {
                        assert(before[x] == out@[x]);
                        assert(before.contains(out@[x]));
                    }
                }
            }
            assert forall|p: CablePort| #[trigger] out@.contains(p) <==> now.contains(p) && !reached(
                ic@,
                near@,
                p,
            ) by {
                if before.contains(p) {
                    let w = choose|w: int| 0 <= w < before.len() && before[w] == p;
                    assert(out@[w] == p);
                    let v = choose|v: int| 0 <= v < seen.len() && seen[v] == p;
                    assert(now[v] == p);
                }
                if out@.contains(p) && !before.contains(p) {
                    let w = choose|w: int| 0 <= w < out@.len() && out@[w] == p;
                    assert(w == before.len());
                    assert(now[i as int] == p);
                }
                if now.contains(p) && !reached(ic@, near@, p) {
                    let v = choose|v: int| 0 <= v < now.len() && now[v] == p;
                    if v < i {
                        assert(seen[v] == p);
                        assert(before.contains(p));
                    } else {
                        assert(out@[before.len() as int] == p);
                    }
                }
            }
        }
        i += 1;
    }
    proof {
        assert(mine@.take(mine.len() as int) =~= mine@);
    }
    let ghost kept = out@;
    let mut i: usize = 0;
    while i < far.len()
        invariant
            i <= far.len(),
            mine@.no_duplicates() ==> out@.no_duplicates(),
            forall|p: CablePort|
                #[trigger] out@.contains(p) <==> kept.contains(p) || far@.take(i as int).contains(p),
        decreases far.len() - i,
    {
        let ghost before = out@;
        let ghost seen = far@.take(i as int);
        let ghost now = far@.take(i as int + 1);
        let known = holds(&out, far[i]);
        if !known {
            out.push(far[i]);
        }
        proof {
            assert(now =~= seen.push(far@[i as int]));
            if mine@.no_duplicates() && !known {
                assert forall|x: int, y: int| 0 <= x < y < out@.len() implies out@[x] != out@[y] by {
                    if y < before.len() {
                        assert(before[x] == out@[x] && before[y] == out@[y]);
                    } else {
                        assert(before[x] == out@[x]);
                        assert(before.contains(out@[x]));
                    }
                }
            }
            assert forall|p: CablePort| #[trigger] out@.contains(p) <==> kept.contains(p)
                || now.contains(p) by {
                if before.contains(p) {
                    let w = choose|w: int| 0 <= w < before.len() && before[w] == p;
                    assert(out@[w] == p);
                }
                if seen.contains(p) {
                    let v = choose|v: int| 0 <= v < seen.len() && seen[v] == p;
                    assert(now[v] == p);
                }
                if out@.contains(p) && !before.contains(p) {
                    let w = choose|w: int| 0 <= w < out@.len() && out@[w] == p;
                    assert(w == before.len());
                    assert(now[i as int] == p);
                }
                if now.contains(p) && !seen.contains(p) {
                    let v = choose|v: int| 0 <= v < now.len() && now[v] == p;
                    assert(v == i);
                    if !known {
                        assert(out@[before.len() as int] == p);
                    }
                }
            }
        }
        i += 1;
    }
    proof {
        assert(far@.take(far.len() as int) =~= far@);
    }
    out
}

fn append_cables(cables: &mut Vec<CablePathEntry>, more: &Vec<CablePathEntry>)
    ensures
        final(cables)@ == old(cables)@ + more@,
{
    let mut i: usize = 0;
    proof {
        assert(old(cables)@ + more@.take(0) =~= old(cables)@);
    }
    while i < more.len()
        invariant
            i <= more.len(),
            cables@ == old(cables)@ + more@.take(i as int),
        decreases more.len() - i,
    {
        cables.push(more[i]);
        proof {
            assert(old(cables)@ + more@.take(i as int + 1) =~= (old(cables)@ + more@.take(
                i as int,
            )).push(more@[i as int]));
        }
        i += 1;
    }
    proof {
        assert(more@.take(more.len() as int) =~= more@);
    }
}

impl CableChain {
    /// Takes up `other` at the left end: the left ends that the right
    /// ends of `other` are connected to give way to the left ends of `other`.
    pub fn append_left(&mut self, other: CableChain, internal_connections: &Vec<InternalConnections>)
        ensures
            joined_ports(
                internal_connections@,
                old(self).left_ports@,
                other.right_ports@,
                other.left_ports@,
                final(self).left_ports@,
            ),
            old(self).left_ports@.no_duplicates() ==> final(self).left_ports@.no_duplicates(),
            final(self).right_ports@ == old(self).right_ports@,
            final(self).cables@ == old(self).cables@ + other.cables@,
    {
        self.left_ports = join_ports(
            internal_connections,
            &self.left_ports,
            &other.right_ports,
            &other.left_ports,
        );
        append_cables(&mut self.cables, &other.cables);
    }

    /// Takes up `other` at the right end: the right ends that the left
    /// ends of `other` are connected to give way to the right ends of `other`.
    pub fn append_right(
        &mut self,
        other: CableChain,
        internal_connections: &Vec<InternalConnections>,
    )
        ensures
            joined_ports(
                internal_connections@,
                old(self).right_ports@,
                other.left_ports@,
                other.right_ports@,
                final(self).right_ports@,
            ),
            old(self).right_ports@.no_duplicates() ==> final(self).right_ports@.no_duplicates(),
            final(self).left_ports@ == old(self).left_ports@,
            final(self).cables@ == old(self).cables@ + other.cables@,
    {
        self.right_ports = join_ports(
            internal_connections,
            &self.right_ports,
            &other.left_ports,
            &other.right_ports,
        );
        append_cables(&mut self.cables, &other.cables);
    }

    /// The chain seen from the other side.
    pub fn swap(self) -> (r: CableChain)
        ensures
            r.left_ports@ == self.right_ports@,
            r.right_ports@ == self.left_ports@,
            r.cables@ == swapped(self.cables@),
    {
        let mut cables: Vec<CablePathEntry> = Vec::new();
        let mut i: usize = 0;
        while i < self.cables.len()
            invariant
                i <= self.cables.len(),
                cables@ == swapped(self.cables@).take(i as int),
            decreases self.cables.len() - i,
        {
            cables.push(self.cables[i].swap());
            proof {
                assert(swapped(self.cables@).take(i as int).push(self.cables@[i as int].spec_swap())
                    =~= swapped(self.cables@).take(i as int + 1));
            }
            i += 1;
        }
        proof {
            assert(swapped(self.cables@).take(self.cables.len() as int) =~= swapped(self.cables@));
        }
        CableChain { left_ports: self.right_ports, right_ports: self.left_ports, cables }
    }

    /// Merges `other` into this chain where an end of this chain is
    /// connected to an end of `other`: at the left end where a left end is,
    /// else at the right end; `other` is turned round where the ends that meet
    /// are both left ends or both right ends. A chain that meets no end is
    /// handed back.
    pub fn try_merge(&mut self, other: CableChain, internal_connections: &Vec<InternalConnections>) -> (r:
        CableChainMergeResult)
        ensures
            old(self).left_ports@.no_duplicates() ==> final(self).left_ports@.no_duplicates(),
            old(self).right_ports@.no_duplicates() ==> final(self).right_ports@.no_duplicates(),
            ({
                let ic = internal_connections@;
                let left = old(self).left_ports@;
                let right = old(self).right_ports@;
                if touches(ic, left, other.left_ports@) {
                    &&& r is Merged
                    &&& joined_ports(
                        ic,
                        left,
                        other.left_ports@,
                        other.right_ports@,
                        final(self).left_ports@,
                    )
                    &&& final(self).right_ports@ == right
                    &&& final(self).cables@ == old(self).cables@ + swapped(other.cables@)
                } else if touches(ic, left, other.right_ports@) {
                    &&& r is Merged
                    &&& joined_ports(
                        ic,
                        left,
                        other.right_ports@,
                        other.left_ports@,
                        final(self).left_ports@,
                    )
                    &&& final(self).right_ports@ == right
                    &&& final(self).cables@ == old(self).cables@ + other.cables@
                } else if touches(ic, right, other.left_ports@) {
                    &&& r is Merged
                    &&& joined_ports(
                        ic,
                        right,
                        other.left_ports@,
                        other.right_ports@,
                        final(self).right_ports@,
                    )
                    &&& final(self).left_ports@ == left
                    &&& final(self).cables@ == old(self).cables@ + other.cables@
                } else if touches(ic, right, other.right_ports@) {
                    &&& r is Merged
                    &&& joined_ports(
                        ic,
                        right,
                        other.right_ports@,
                        other.left_ports@,
                        final(self).right_ports@,
                    )
                    &&& final(self).left_ports@ == left
                    &&& final(self).cables@ == old(self).cables@ + swapped(other.cables@)
                } else {
                    &&& r == CableChainMergeResult::NotMerged(other)
                    &&& *final(self) == *old(self)
                }
            }),
    {
        if do_touch(internal_connections, &self.left_ports, &other.left_ports) {
            self.append_left(other.swap(), internal_connections);
            CableChainMergeResult::Merged
        } else if do_touch(internal_connections, &self.left_ports, &other.right_ports) {
            self.append_left(other, internal_connections);
            CableChainMergeResult::Merged
        } else if do_touch(internal_connections, &self.right_ports, &other.left_ports) {
            self.append_right(other, internal_connections);
            CableChainMergeResult::Merged
        } else if do_touch(internal_connections, &self.right_ports, &other.right_ports) {
            self.append_right(other.swap(), internal_connections);
            CableChainMergeResult::Merged
        } else {
            CableChainMergeResult::NotMerged(other)
        }
    }
}

} // verus!
