use topo_synth::cable_chain::{
    CableChain, CableChainMergeResult, CablePathEntry, InternalConnections,
    InternalDeviceConnection,
};
use topo_synth::topology::{CablePort, FrontPortId, InterfaceId, RearPortId};

fn iface(id: u32) -> CablePort {
    CablePort::Interface(InterfaceId(id))
}

fn front(id: u32) -> CablePort {
    CablePort::FrontPort(FrontPortId(id))
}

fn rear(id: u32) -> CablePort {
    CablePort::RearPort(RearPortId(id))
}

fn cable(id: u32, left_port: CablePort, right_port: CablePort) -> CablePathEntry {
    CablePathEntry { id, left_port, right_port }
}

fn chain(id: u32, left: CablePort, right: CablePort) -> CableChain {
    CableChain {
        left_ports: vec![left],
        right_ports: vec![right],
        cables: vec![cable(id, left, right)],
    }
}

fn panel(a: CablePort, b: CablePort) -> Vec<InternalConnections> {
    vec![
        InternalConnections { port: a, connected: vec![b] },
        InternalConnections { port: b, connected: vec![a] },
    ]
}

fn sorted(mut ports: Vec<CablePort>) -> Vec<CablePort> {
    ports.sort();
    ports.dedup();
    ports
}

#[test]
fn cable_entry_swap_turns_the_ends() {
    let entry = cable(7, iface(1), front(2));
    assert_eq!(entry.swap(), cable(7, front(2), iface(1)));
    assert_eq!(entry.swap().swap(), entry);
}

#[test]
fn internal_connection_puts_the_lower_port_first() {
    let a = InternalDeviceConnection::new(rear(1), front(9));
    assert_eq!(a, InternalDeviceConnection { left: front(9), right: rear(1) });
    let b = InternalDeviceConnection::new(front(9), rear(1));
    assert_eq!(a, b);
    let c = InternalDeviceConnection::new(iface(5), iface(3));
    assert_eq!(c, InternalDeviceConnection { left: iface(3), right: iface(5) });
    let d = InternalDeviceConnection::new(front(1), iface(4000));
    assert_eq!(d, InternalDeviceConnection { left: iface(4000), right: front(1) });
}

#[test]
fn chain_swap_turns_ends_and_cables() {
    let c = CableChain {
        left_ports: vec![iface(1)],
        right_ports: vec![front(2), front(3)],
        cables: vec![cable(1, iface(1), front(2)), cable(2, iface(1), front(3))],
    };
    let s = c.swap();
    assert_eq!(s.left_ports, vec![front(2), front(3)]);
    assert_eq!(s.right_ports, vec![iface(1)]);
    assert_eq!(s.cables, vec![cable(1, front(2), iface(1)), cable(2, front(3), iface(1))]);
}

#[test]
fn merge_at_the_right_end() {
    // iface 1 --cable 1-- front 10 | rear 10 --cable 2-- iface 2
    let connections = panel(front(10), rear(10));
    let mut c = chain(1, iface(1), front(10));
    let other = chain(2, rear(10), iface(2));
    assert_eq!(c.try_merge(other, &connections), CableChainMergeResult::Merged);
    assert_eq!(c.left_ports, vec![iface(1)]);
    assert_eq!(sorted(c.right_ports.clone()), vec![iface(2)]);
    assert_eq!(c.cables, vec![cable(1, iface(1), front(10)), cable(2, rear(10), iface(2))]);
}

#[test]
fn merge_at_the_right_end_turns_the_other_chain() {
    let connections = panel(front(10), rear(10));
    let mut c = chain(1, iface(1), front(10));
    let other = chain(2, iface(2), rear(10));
    assert_eq!(c.try_merge(other, &connections), CableChainMergeResult::Merged);
    assert_eq!(c.left_ports, vec![iface(1)]);
    assert_eq!(sorted(c.right_ports.clone()), vec![iface(2)]);
    assert_eq!(c.cables, vec![cable(1, iface(1), front(10)), cable(2, rear(10), iface(2))]);
}

#[test]
fn merge_at_the_left_end() {
    let connections = panel(front(10), rear(10));
    let mut c = chain(1, front(10), iface(1));
    let other = chain(2, iface(2), rear(10));
    assert_eq!(c.try_merge(other, &connections), CableChainMergeResult::Merged);
    assert_eq!(sorted(c.left_ports.clone()), vec![iface(2)]);
    assert_eq!(c.right_ports, vec![iface(1)]);
    assert_eq!(c.cables, vec![cable(1, front(10), iface(1)), cable(2, iface(2), rear(10))]);
}

#[test]
fn merge_at_the_left_end_turns_the_other_chain() {
    let connections = panel(front(10), rear(10));
    let mut c = chain(1, front(10), iface(1));
    let other = chain(2, rear(10), iface(2));
    assert_eq!(c.try_merge(other, &connections), CableChainMergeResult::Merged);
    assert_eq!(sorted(c.left_ports.clone()), vec![iface(2)]);
    assert_eq!(c.right_ports, vec![iface(1)]);
    assert_eq!(c.cables, vec![cable(1, front(10), iface(1)), cable(2, iface(2), rear(10))]);
}

#[test]
fn chains_that_do_not_meet_stay_apart() {
    let connections = panel(front(10), rear(10));
    let mut c = chain(1, iface(1), front(10));
    let before = c.clone();
    let other = chain(2, rear(11), iface(2));
    assert_eq!(
        c.try_merge(other.clone(), &connections),
        CableChainMergeResult::NotMerged(other)
    );
    assert_eq!(c, before);
}

#[test]
fn an_end_that_is_not_met_stays() {
    // A cable that fans out to two front ports, one of which goes on.
    let connections = panel(front(10), rear(10));
    let mut c = CableChain {
        left_ports: vec![iface(1)],
        right_ports: vec![front(10), front(11)],
        cables: vec![cable(1, iface(1), front(10)), cable(1, iface(1), front(11))],
    };
    let other = chain(2, rear(10), iface(2));
    c.append_right(other, &connections);
    assert_eq!(c.left_ports, vec![iface(1)]);
    assert_eq!(c.right_ports.len(), 2);
    assert_eq!(sorted(c.right_ports.clone()), vec![iface(2), front(11)]);
    assert_eq!(c.cables.len(), 3);
}

#[test]
fn a_port_that_both_chains_end_at_is_listed_once() {
    let connections = panel(front(10), rear(10));
    let mut c = CableChain {
        left_ports: vec![iface(1)],
        right_ports: vec![front(10), iface(2)],
        cables: vec![cable(1, iface(1), front(10)), cable(1, iface(1), iface(2))],
    };
    let other = CableChain {
        left_ports: vec![rear(10)],
        right_ports: vec![iface(2), iface(3)],
        cables: vec![cable(2, rear(10), iface(2)), cable(2, rear(10), iface(3))],
    };
    c.append_right(other, &connections);
    assert_eq!(c.right_ports.len(), 2);
    assert_eq!(sorted(c.right_ports.clone()), vec![iface(2), iface(3)]);
}

#[test]
fn append_left_keeps_the_right_end() {
    let connections = panel(front(10), rear(10));
    let mut c = chain(1, front(10), iface(1));
    let other = chain(2, iface(2), rear(10));
    c.append_left(other, &connections);
    assert_eq!(sorted(c.left_ports.clone()), vec![iface(2)]);
    assert_eq!(c.right_ports, vec![iface(1)]);
}
