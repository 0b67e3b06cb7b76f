use topo_synth::access::InterfaceAccess;
use topo_synth::cable::{CablePath, CablePortAccess};
use topo_synth::error::{CyclicCablingError, SetupError};
use topo_synth::l2::NameGenerator;
use topo_synth::naming::{cleanup_name, compose_name, EndpointNameGenerator, FarEnd};
use topo_synth::topology::{
    Cable, CableId, CablePort, Device, DeviceId, FrontPort, FrontPortId, Interface, InterfaceId,
    PhysicalPortId, RearPort, RearPortId, Topology,
};

fn interface(topology: &mut Topology, id: u32, device: u32, name: &str, cable: Option<u32>) {
    topology.interfaces.insert(
        id,
        Interface {
            name: name.to_string(),
            device: DeviceId(device),
            cable: cable.map(CableId),
            external: PhysicalPortId::from_str(name).ok(),
            ..Default::default()
        },
    );
    topology.devices.get_mut(&device).unwrap().ports.push(CablePort::Interface(InterfaceId(id)));
}

fn panel_port(topology: &mut Topology, id: u32, device: u32, front_cable: Option<u32>, rear_cable: Option<u32>) {
    topology.front_ports.insert(
        id,
        FrontPort {
            name: format!("front {id}"),
            device: DeviceId(device),
            rear_port: Some(RearPortId(id)),
            cable: front_cable.map(CableId),
        },
    );
    topology.rear_ports.insert(
        id,
        RearPort {
            name: format!("rear {id}"),
            device: DeviceId(device),
            front_port: Some(FrontPortId(id)),
            cable: rear_cable.map(CableId),
        },
    );
}

fn device(topology: &mut Topology, id: u32, name: &str) {
    topology.devices.insert(id, Device { name: name.to_string(), ..Default::default() });
}

fn cable(topology: &mut Topology, id: u32, a: Vec<CablePort>, b: Vec<CablePort>) {
    topology.cables.insert(id, Cable { port_a: a, port_b: b });
}

fn ports_of(path: &CablePath) -> (Vec<(CablePort, CablePort, u32)>, Option<CablePort>) {
    (
        path.cable_segments.iter().map(|s| (s.near.port(), s.far.port(), s.cable.id.0)).collect(),
        path.end_port.map(|p| p.port()),
    )
}

/// Switch A, port ether1, is cabled to the front of a patch panel; the
/// rear of the panel is cabled to the rear of a second panel, whose front
/// is cabled to port ether7 of switch B.
fn two_panels() -> Topology {
    let mut t = Topology::default();
    device(&mut t, 1, "Switch A");
    device(&mut t, 2, "Switch B");
    device(&mut t, 3, "Panel One");
    device(&mut t, 4, "Panel Two");
    interface(&mut t, 10, 1, "ether1", Some(100));
    interface(&mut t, 20, 2, "ether7", Some(102));
    panel_port(&mut t, 30, 3, Some(100), Some(101));
    panel_port(&mut t, 40, 4, Some(102), Some(101));
    cable(
        &mut t,
        100,
        vec![CablePort::Interface(InterfaceId(10))],
        vec![CablePort::FrontPort(FrontPortId(30))],
    );
    cable(
        &mut t,
        101,
        vec![CablePort::RearPort(RearPortId(30))],
        vec![CablePort::RearPort(RearPortId(40))],
    );
    cable(
        &mut t,
        102,
        vec![CablePort::FrontPort(FrontPortId(40))],
        vec![CablePort::Interface(InterfaceId(20))],
    );
    t
}

#[test]
fn cable_walk_passes_through_patch_panels() {
    let t = two_panels();
    let start = CablePortAccess::create(&t, CablePort::Interface(InterfaceId(10)));
    let paths = start.collect_cables().unwrap();
    assert_eq!(paths.len(), 1);
    assert_eq!(
        ports_of(&paths[0]),
        (
            vec![
                (CablePort::Interface(InterfaceId(10)), CablePort::FrontPort(FrontPortId(30)), 100),
                (CablePort::RearPort(RearPortId(30)), CablePort::RearPort(RearPortId(40)), 101),
                (CablePort::FrontPort(FrontPortId(40)), CablePort::Interface(InterfaceId(20)), 102),
            ],
            None
        )
    );
    assert_eq!(paths[0].far_port().port(), CablePort::Interface(InterfaceId(20)));
    assert_eq!(paths[0].start_port.port(), CablePort::Interface(InterfaceId(10)));
    let back = CablePortAccess::create(&t, CablePort::Interface(InterfaceId(20)));
    let paths = back.collect_cables().unwrap();
    assert_eq!(paths.len(), 1);
    assert_eq!(paths[0].far_port().port(), CablePort::Interface(InterfaceId(10)));
    let a = InterfaceAccess { topology: &t, id: InterfaceId(10) };
    let connected: Vec<InterfaceId> =
        a.connected_interfaces().unwrap().iter().map(|i| i.id).collect();
    assert_eq!(connected, vec![InterfaceId(20)]);
}

#[test]
fn cable_walk_of_an_uncabled_port_is_empty() {
    let mut t = Topology::default();
    device(&mut t, 1, "Switch A");
    interface(&mut t, 10, 1, "ether1", None);
    let start = CablePortAccess::create(&t, CablePort::Interface(InterfaceId(10)));
    assert!(start.collect_cables().unwrap().is_empty());
    assert!(start.attached_cable_segments().is_empty());
    let unknown = CablePortAccess::create(&t, CablePort::FrontPort(FrontPortId(99)));
    assert!(unknown.collect_cables().unwrap().is_empty());
    assert_eq!(unknown.name(), None);
    assert!(unknown.device().is_none());
}

#[test]
fn cable_walk_ends_at_an_open_panel_port() {
    let mut t = Topology::default();
    device(&mut t, 1, "Switch A");
    device(&mut t, 3, "Panel");
    interface(&mut t, 10, 1, "ether1", Some(100));
    panel_port(&mut t, 30, 3, Some(100), None);
    cable(
        &mut t,
        100,
        vec![CablePort::Interface(InterfaceId(10))],
        vec![CablePort::FrontPort(FrontPortId(30))],
    );
    let start = CablePortAccess::create(&t, CablePort::Interface(InterfaceId(10)));
    let paths = start.collect_cables().unwrap();
    assert_eq!(paths.len(), 1);
    assert_eq!(
        ports_of(&paths[0]),
        (
            vec![(CablePort::Interface(InterfaceId(10)), CablePort::FrontPort(FrontPortId(30)), 100)],
            Some(CablePort::RearPort(RearPortId(30)))
        )
    );
    assert_eq!(paths[0].far_port().port(), CablePort::RearPort(RearPortId(30)));
}

#[test]
fn cable_walk_follows_every_branch_of_a_fan_out() {
    let mut t = Topology::default();
    device(&mut t, 1, "Switch A");
    device(&mut t, 2, "Switch B");
    interface(&mut t, 10, 1, "sfp-sfpplus1", Some(100));
    interface(&mut t, 21, 2, "ether1", Some(100));
    interface(&mut t, 22, 2, "ether2", Some(100));
    interface(&mut t, 23, 2, "ether3", Some(100));
    cable(
        &mut t,
        100,
        vec![CablePort::Interface(InterfaceId(10))],
        vec![
            CablePort::Interface(InterfaceId(21)),
            CablePort::Interface(InterfaceId(22)),
            CablePort::Interface(InterfaceId(23)),
        ],
    );
    let start = CablePortAccess::create(&t, CablePort::Interface(InterfaceId(10)));
    let far: Vec<CablePort> =
        start.collect_cables().unwrap().iter().map(|p| p.far_port().port()).collect();
    assert_eq!(
        far,
        vec![
            CablePort::Interface(InterfaceId(21)),
            CablePort::Interface(InterfaceId(22)),
            CablePort::Interface(InterfaceId(23)),
        ]
    );
    let branch = CablePortAccess::create(&t, CablePort::Interface(InterfaceId(22)));
    let far: Vec<CablePort> =
        branch.collect_cables().unwrap().iter().map(|p| p.far_port().port()).collect();
    assert_eq!(far, vec![CablePort::Interface(InterfaceId(10))]);
    let c = start.cable().unwrap();
    assert_eq!(c.port_a().len(), 1);
    assert_eq!(c.port_b().len(), 3);
    assert_eq!(c.connections_from_port(CablePort::Interface(InterfaceId(99))).len(), 0);
}

#[test]
fn cable_walk_in_a_circle_is_an_error() {
    let mut t = Topology::default();
    device(&mut t, 1, "Switch A");
    device(&mut t, 3, "Panel One");
    device(&mut t, 4, "Panel Two");
    interface(&mut t, 10, 1, "ether1", Some(100));
    panel_port(&mut t, 30, 3, Some(100), Some(101));
    panel_port(&mut t, 40, 4, Some(101), Some(100));
    cable(
        &mut t,
        100,
        vec![CablePort::Interface(InterfaceId(10)), CablePort::RearPort(RearPortId(40))],
        vec![CablePort::FrontPort(FrontPortId(30))],
    );
    cable(
        &mut t,
        101,
        vec![CablePort::RearPort(RearPortId(30))],
        vec![CablePort::FrontPort(FrontPortId(40))],
    );
    let start = CablePortAccess::create(&t, CablePort::Interface(InterfaceId(10)));
    assert_eq!(start.collect_cables().err(), Some(CyclicCablingError));
    let a = InterfaceAccess { topology: &t, id: InterfaceId(10) };
    assert_eq!(
        EndpointNameGenerator.generate_interface_name(&a),
        Err(SetupError::CyclicCabling)
    );
}

#[test]
fn endpoint_name_is_taken_from_the_far_end() {
    let t = two_panels();
    let a = InterfaceAccess { topology: &t, id: InterfaceId(10) };
    assert_eq!(
        EndpointNameGenerator.generate_interface_name(&a),
        Ok("e01-switch-b-e07".to_string())
    );
    let b = InterfaceAccess { topology: &t, id: InterfaceId(20) };
    assert_eq!(
        EndpointNameGenerator.generate_interface_name(&b),
        Ok("e07-switch-a-e01".to_string())
    );
}

#[test]
fn endpoint_name_of_a_fan_out_is_the_own_short_name() {
    let mut t = Topology::default();
    device(&mut t, 1, "Switch A");
    device(&mut t, 2, "Switch B");
    interface(&mut t, 10, 1, "sfp-sfpplus1", Some(100));
    interface(&mut t, 21, 2, "ether1", Some(100));
    interface(&mut t, 22, 2, "ether2", Some(100));
    interface(&mut t, 30, 1, "Uplink Port", None);
    cable(
        &mut t,
        100,
        vec![CablePort::Interface(InterfaceId(10))],
        vec![CablePort::Interface(InterfaceId(21)), CablePort::Interface(InterfaceId(22))],
    );
    let fan = InterfaceAccess { topology: &t, id: InterfaceId(10) };
    assert_eq!(EndpointNameGenerator.generate_interface_name(&fan), Ok("s01".to_string()));
    let unnamed = InterfaceAccess { topology: &t, id: InterfaceId(30) };
    assert_eq!(
        EndpointNameGenerator.generate_interface_name(&unnamed),
        Ok("uplink-port".to_string())
    );
}

#[test]
fn endpoint_name_uses_the_name_of_a_far_port_without_hardware_port() {
    let mut t = Topology::default();
    device(&mut t, 1, "Switch A");
    device(&mut t, 3, "Patch Panel");
    interface(&mut t, 10, 1, "ether12", Some(100));
    t.front_ports.insert(
        30,
        FrontPort {
            name: "Port 4".to_string(),
            device: DeviceId(3),
            rear_port: None,
            cable: Some(CableId(100)),
        },
    );
    cable(
        &mut t,
        100,
        vec![CablePort::Interface(InterfaceId(10))],
        vec![CablePort::FrontPort(FrontPortId(30))],
    );
    let a = InterfaceAccess { topology: &t, id: InterfaceId(10) };
    assert_eq!(
        EndpointNameGenerator.generate_interface_name(&a),
        Ok("e12-patch-panel-port-4".to_string())
    );
}

#[test]
fn composed_names() {
    let far = FarEnd {
        device: Some("core".to_string()),
        port: Some(PhysicalPortId::SfpSfpPlus(3)),
        name: Some("ignored".to_string()),
    };
    assert_eq!(compose_name(Some(PhysicalPortId::Ethernet(5)), Some(&far), "own"), "e05-core-s03");
    let far = FarEnd { device: None, port: None, name: Some("port-a".to_string()) };
    assert_eq!(compose_name(None, Some(&far), "own"), "port-a");
    let far = FarEnd { device: None, port: None, name: None };
    assert_eq!(compose_name(None, Some(&far), "own"), "own");
    assert_eq!(compose_name(None, None, "own"), "own");
    assert_eq!(compose_name(Some(PhysicalPortId::Wifi(123)), None, "own"), "w123");
}

#[test]
fn interface_names_with_labels() {
    let mut t = Topology::default();
    device(&mut t, 1, "Switch A");
    interface(&mut t, 10, 1, "ether3", None);
    t.interfaces.get_mut(&10).unwrap().label = "Büro 2.OG - Tür/Öl".to_string();
    interface(&mut t, 11, 1, "sfp-sfpplus2", None);
    interface(&mut t, 12, 1, "bridge", None);
    let labelled = InterfaceAccess { topology: &t, id: InterfaceId(10) };
    assert_eq!(labelled.label(), Some("Büro 2.OG - Tür/Öl"));
    assert_eq!(labelled.interface_name(), Some("e03-Buero2-OG-Tuerl".to_string()));
    let plain = InterfaceAccess { topology: &t, id: InterfaceId(11) };
    assert_eq!(plain.label(), None);
    assert_eq!(plain.interface_name(), Some("s02".to_string()));
    let virtual_port = InterfaceAccess { topology: &t, id: InterfaceId(12) };
    assert_eq!(virtual_port.interface_name(), None);
    assert!(!virtual_port.is_ethernet_port());
    assert!(plain.is_ethernet_port());
}

#[test]
fn cleaned_names() {
    assert_eq!(cleanup_name("a.b/c+d:e f"), "a_b_c_d_e f");
    assert_eq!(cleanup_name(""), "");
    assert_eq!(cleanup_name("ünï.code"), "ünï_code");
}

#[test]
fn port_names() {
    assert_eq!(PhysicalPortId::from_str("lo"), Ok(PhysicalPortId::Loopback));
    assert_eq!(PhysicalPortId::from_str("ether1"), Ok(PhysicalPortId::Ethernet(1)));
    assert_eq!(PhysicalPortId::from_str("ether024"), Ok(PhysicalPortId::Ethernet(24)));
    assert_eq!(PhysicalPortId::from_str("sfp-sfpplus12"), Ok(PhysicalPortId::SfpSfpPlus(12)));
    assert_eq!(PhysicalPortId::from_str("wifi2"), Ok(PhysicalPortId::Wifi(2)));
    assert_eq!(PhysicalPortId::from_str("wlan65535"), Ok(PhysicalPortId::Wlan(65535)));
    assert_eq!(PhysicalPortId::from_str("my-ether5-uplink"), Ok(PhysicalPortId::Ethernet(5)));
    assert_eq!(PhysicalPortId::from_str("ether-ether7"), Ok(PhysicalPortId::Ethernet(7)));
    assert_eq!(PhysicalPortId::from_str("wlan1ether2"), Ok(PhysicalPortId::Ethernet(2)));
    assert_eq!(PhysicalPortId::from_str("ether65536wifi3"), Ok(PhysicalPortId::Wifi(3)));
    assert_eq!(PhysicalPortId::from_str("ether65536ether2"), Err(()));
    assert_eq!(PhysicalPortId::from_str("ether"), Err(()));
    assert_eq!(PhysicalPortId::from_str("lo0"), Err(()));
    assert_eq!(PhysicalPortId::from_str(""), Err(()));
    assert_eq!(PhysicalPortId::from_str("bridge"), Err(()));
    assert_eq!(PhysicalPortId::Ethernet(7).short_name(), "e07");
    assert_eq!(PhysicalPortId::Ethernet(48).short_name(), "e48");
    assert_eq!(PhysicalPortId::SfpSfpPlus(100).short_name(), "s100");
    assert_eq!(PhysicalPortId::Wifi(0).short_name(), "w00");
    assert_eq!(PhysicalPortId::Wlan(1).short_name(), "w01");
    assert_eq!(PhysicalPortId::Loopback.short_name(), "lo");
    assert_eq!(PhysicalPortId::Ethernet(7).default_name(), Some("ether7".to_string()));
    assert_eq!(PhysicalPortId::SfpSfpPlus(2).default_name(), Some("sfp-sfpplus2".to_string()));
    assert_eq!(PhysicalPortId::Wifi(1).default_name(), None);
    assert_eq!(PhysicalPortId::Wlan(1).default_name(), None);
    assert_eq!(PhysicalPortId::Loopback.default_name(), None);
    assert_eq!(PhysicalPortId::Wifi(1).to_string(), "wifi1");
    assert_eq!(PhysicalPortId::Wlan(10).to_string(), "wlan10");
    assert_eq!(PhysicalPortId::Ethernet(65535).to_string(), "ether65535");
    assert_eq!(PhysicalPortId::Loopback.to_string(), "lo");
    assert!(PhysicalPortId::Ethernet(1).is_ethernet());
    assert!(PhysicalPortId::SfpSfpPlus(1).is_ethernet());
    assert!(!PhysicalPortId::Wifi(1).is_ethernet());
    assert!(!PhysicalPortId::Wlan(1).is_ethernet());
    assert!(!PhysicalPortId::Loopback.is_ethernet());
}

#[test]
fn cable_walk_never_comes_out_at_its_start() {
    // A cable that lists the start port on both its ends, beside another port.
    let mut t = Topology::default();
    device(&mut t, 1, "Switch A");
    device(&mut t, 2, "Switch B");
    interface(&mut t, 10, 1, "ether1", Some(100));
    interface(&mut t, 20, 2, "ether2", Some(100));
    let own = CablePort::Interface(InterfaceId(10));
    let far = CablePort::Interface(InterfaceId(20));
    cable(&mut t, 100, vec![own, far, far], vec![own, far]);
    let start = CablePortAccess::create(&t, own);
    let paths = start.collect_cables().unwrap();
    assert_eq!(paths.len(), 1);
    assert_eq!(ports_of(&paths[0]), (vec![(own, far, 100)], None));
    assert_eq!(paths[0].far_port().port(), far);
    assert_eq!(start.attached_cable_segments().len(), 2);

    // A cable that leads to the start port alone.
    let mut t = Topology::default();
    device(&mut t, 1, "Switch A");
    interface(&mut t, 10, 1, "ether1", Some(100));
    cable(&mut t, 100, vec![own], vec![own]);
    let start = CablePortAccess::create(&t, own);
    assert!(start.collect_cables().unwrap().is_empty());
    let a = InterfaceAccess { topology: &t, id: InterfaceId(10) };
    assert_eq!(EndpointNameGenerator.generate_interface_name(&a), Ok("e01".to_string()));
}

#[test]
fn cable_walk_through_a_panel_back_to_its_start_is_left_out() {
    // ether1 is cabled to the front of a panel, whose rear is cabled to
    // ether1 again and to ether2.
    let mut t = Topology::default();
    device(&mut t, 1, "Switch A");
    device(&mut t, 3, "Panel One");
    interface(&mut t, 10, 1, "ether1", Some(100));
    interface(&mut t, 11, 1, "ether2", Some(101));
    panel_port(&mut t, 30, 3, Some(100), Some(101));
    let own = CablePort::Interface(InterfaceId(10));
    let other = CablePort::Interface(InterfaceId(11));
    let front = CablePort::FrontPort(FrontPortId(30));
    let rear = CablePort::RearPort(RearPortId(30));
    cable(&mut t, 100, vec![own], vec![front]);
    cable(&mut t, 101, vec![rear], vec![own, other]);
    let start = CablePortAccess::create(&t, own);
    let paths = start.collect_cables().unwrap();
    assert_eq!(paths.len(), 1);
    assert_eq!(ports_of(&paths[0]), (vec![(own, front, 100), (rear, other, 101)], None));
    for path in &paths {
        assert_ne!(path.far_port().port(), own);
    }

    // With the way back alone, nothing is left.
    t.cables.insert(101, Cable { port_a: vec![rear], port_b: vec![own] });
    let start = CablePortAccess::create(&t, own);
    assert!(start.collect_cables().unwrap().is_empty());
}
