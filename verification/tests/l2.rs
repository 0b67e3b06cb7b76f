use std::collections::HashMap;

use topo_synth::access::DeviceAccess;
use topo_synth::bridging::SwitchVlanConcept;
use topo_synth::error::SetupError;
use topo_synth::hw_facts::build_ethernet_ports;
use topo_synth::ip::{IpNet, Ipv4Addr, Ipv4Net};
use topo_synth::l2::{KeepNameGenerator, L2Plane, L2Port, L2Setup};
use topo_synth::model::{EthernetPort, MappedPlane, ProtocolMode, VlanFrameTypes, VlanIds};
use topo_synth::target::BaseDeviceDataTarget;
use topo_synth::topology::{
    CablePort, Device, DeviceId, Interface, InterfaceId, IpAddressData, IpAddressId,
    PhysicalPortId, Topology, VlanData, VlanGroupData, VlanGroupId, VlanId,
};

struct Builder {
    topology: Topology,
    next_interface: u32,
    next_vlan: u32,
    next_address: u32,
}

impl Builder {
    fn new() -> Builder {
        Builder { topology: Topology::default(), next_interface: 0, next_vlan: 0, next_address: 0 }
    }

    fn add_interface(&mut self, interface: Interface) -> InterfaceId {
        let id = InterfaceId(self.next_interface);
        self.next_interface += 1;
        self.topology
            .devices
            .get_mut(&interface.device.0)
            .expect("device not found")
            .ports
            .push(CablePort::Interface(id));
        if let Some(vlan) = interface.vlan {
            let data = self.topology.vlans.get_mut(&vlan.0).expect("vlan not found");
            if !data.terminations.contains(&id) {
                data.terminations.push(id);
            }
        }
        for ip in &interface.ips {
            self.topology.ip_addresses.get_mut(&ip.0).expect("ip not found").interface = Some(id);
        }
        self.topology.interfaces.insert(id.0, interface);
        id
    }

    fn add_vlan(&mut self, name: &str, vlan_id: u16, group: VlanGroupId) -> VlanId {
        let id = VlanId(self.next_vlan);
        self.next_vlan += 1;
        self.topology.vlans.insert(
            id.0,
            VlanData {
                name: name.to_string(),
                vlan_id,
                group,
                terminations: vec![],
                vxlan: None,
                wlans: vec![],
            },
        );
        id
    }

    fn add_address(&mut self, a: u8, b: u8, c: u8, d: u8, prefix_len: u8) -> IpAddressId {
        let id = IpAddressId(self.next_address);
        self.next_address += 1;
        let ip = IpNet::V4(Ipv4Net::new(Ipv4Addr::new(a, b, c, d), prefix_len).unwrap());
        self.topology.ip_addresses.insert(id.0, IpAddressData { ip, interface: None, prefix: None });
        id
    }
}

fn create_device_with_ports(bridge_count: u16, vlan_count: u16, port_count: usize) -> Topology {
    let mut builder = Builder::new();
    let d1 = DeviceId(0);
    builder.topology.devices.insert(d1.0, Device { name: "d1".to_string(), ..Default::default() });
    let mut bridges = Vec::new();
    for bridge_idx in 0..bridge_count.max(1) {
        let ips = if vlan_count > 0 {
            vec![]
        } else {
            vec![builder.add_address(192, 168, bridge_idx as u8, 1, 24)]
        };
        let bridge_id = builder.add_interface(Interface {
            name: format!("bridge-{bridge_idx}"),
            label: "Bridge ".to_string(),
            device: d1,
            ips,
            ..Default::default()
        });
        bridges.push(bridge_id);
    }
    let mut vlans = Vec::new();
    let mut bridge_of_vlan = HashMap::<Option<VlanId>, Vec<InterfaceId>>::new();
    if vlan_count > 0 {
        let vlan_group = VlanGroupId(0);
        for vid in 0..vlan_count {
            let name = format!("vlan-{}", vid + 1);
            let vlan_id = builder.add_vlan(&name, vid + 1, vlan_group);
            vlans.push(vlan_id);
            let bridge_id = bridges[vid as usize % bridges.len()];
            bridge_of_vlan.entry(Some(vlan_id)).or_default().push(bridge_id);
            let address = builder.add_address(192, 168, (vid + 1) as u8, 1, 24);
            builder.add_interface(Interface {
                name,
                device: d1,
                vlan: Some(vlan_id),
                ips: vec![address],
                bridge: Some(bridge_id),
                ..Default::default()
            });
        }
        builder.topology.vlan_groups.insert(vlan_group.0, VlanGroupData { vlans: vlans.clone() });
    } else {
        bridge_of_vlan.entry(None).or_default().extend(bridges);
    }
    for if_idx in 1..=port_count {
        let vlan = if vlans.is_empty() { None } else { vlans.get(if_idx % vlans.len()).copied() };
        let bridges = bridge_of_vlan.get(&vlan).unwrap();
        let bridge_id = bridges[if_idx % bridges.len()];
        builder.add_interface(Interface {
            name: format!("e{if_idx:02}"),
            label: format!("Interface {if_idx}"),
            device: d1,
            bridge: Some(bridge_id),
            vlan,
            external: Some(PhysicalPortId::Ethernet(if_idx as u16)),
            ..Default::default()
        });
    }
    builder.topology
}

fn device(topology: &Topology) -> DeviceAccess<'_> {
    topology.get_device_by_id(&DeviceId(0)).expect("device not found")
}

fn ports_of(model: &str) -> Vec<EthernetPort> {
    build_ethernet_ports(model)
        .iter()
        .filter_map(|spec| {
            let name = spec.physical_port()?.default_name()?;
            Some(EthernetPort::from_spec(spec, &name))
        })
        .collect()
}

fn setup_testdata(model: &str) -> Result<BaseDeviceDataTarget, SetupError> {
    BaseDeviceDataTarget::new(model, ports_of(model))
}

fn untagged(plane: &L2Plane) -> Vec<String> {
    plane
        .ports
        .iter()
        .map(|p| match p {
            L2Port::UntaggedEthernet { name, .. } => name.clone(),
            other => panic!("not an untagged port: {other:?}"),
        })
        .collect()
}

#[test]
fn test_l2_one_vlan() {
    let topology = create_device_with_ports(1, 1, 3);
    let setup = L2Setup::new(&device(&topology), &mut KeepNameGenerator).unwrap();
    println!("Setup: {:#?}", setup);
    assert_eq!(setup.planes.len(), 1);
    let plane = &setup.planes[0];
    assert_eq!(untagged(plane), vec!["e01", "e02", "e03"]);
    assert_eq!(plane.vlan_id, 1);
    assert_eq!(plane.vlan.map(|v| v.id), Some(VlanId(0)));
    assert_eq!(plane.root_port.id, InterfaceId(0));
}

#[test]
fn test_l2_no_vlan() -> Result<(), SetupError> {
    let topology = create_device_with_ports(1, 0, 3);
    let setup = L2Setup::new(&device(&topology), &mut KeepNameGenerator)?;
    println!("Setup: {:#?}", setup);
    assert_eq!(setup.planes.len(), 1);
    assert_eq!(setup.planes[0].vlan.map(|v| v.id), None);
    assert_eq!(setup.planes[0].vlan_id, 60000);
    assert_eq!(untagged(&setup.planes[0]), vec!["e01", "e02", "e03"]);
    let target_data = setup_testdata("CRS326-24G-2S+")?;
    let (target_data, mapped) = target_data.setup_l2(&setup, SwitchVlanConcept::OneBridge)?;
    assert_eq!(target_data.bridge.len(), 1);
    assert_eq!(target_data.bridge[0].name, "switch");
    assert_eq!(target_data.bridge[0].vlan_filtering, Some(false));
    assert_eq!(target_data.bridge[0].ingress_filtering, Some(false));
    assert_eq!(target_data.bridge[0].protocol_mode, Some(ProtocolMode::Rstp));
    assert_eq!(target_data.bridge_port.len(), 3);
    assert!(target_data.bridge_vlan.is_empty());
    assert_eq!(mapped.len(), 1);
    assert_eq!(mapped[0].plane, MappedPlane::Untagged("switch".to_string()));
    assert_eq!(target_data.ethernet[0].name, "e01");
    assert_eq!(target_data.ethernet[3].name, "ether4");
    Ok(())
}

#[test]
fn test_l2_multi_vlan() {
    let topology = create_device_with_ports(1, 3, 3);
    let setup = L2Setup::new(&device(&topology), &mut KeepNameGenerator).unwrap();
    println!("Setup: {:#?}", setup);
    assert_eq!(setup.planes.len(), 3);
    let tags: Vec<u16> = setup.planes.iter().map(|p| p.vlan_id).collect();
    assert_eq!(tags, vec![1, 2, 3]);
    assert_eq!(untagged(&setup.planes[0]), vec!["e03"]);
    assert_eq!(untagged(&setup.planes[1]), vec!["e01"]);
    assert_eq!(untagged(&setup.planes[2]), vec!["e02"]);
}

#[test]
fn test_l2_untagged_switch() {
    let topology = create_device_with_ports(1, 5, 24);
    let setup = L2Setup::new(&device(&topology), &mut KeepNameGenerator).unwrap();
    println!("Setup: {:#?}", setup);
    assert_eq!(setup.planes.len(), 5);
    let total: usize = setup.planes.iter().map(|p| p.ports.len()).sum();
    assert_eq!(total, 24);
}

#[test]
fn test_l2_multi_untagged_switch() -> Result<(), SetupError> {
    let topology = create_device_with_ports(5, 0, 24);
    let setup = L2Setup::new(&device(&topology), &mut KeepNameGenerator)?;
    println!("Setup: {:#?}", setup);
    assert_eq!(setup.planes.len(), 5);
    let tags: Vec<u16> = setup.planes.iter().map(|p| p.vlan_id).collect();
    assert_eq!(tags, vec![60000, 60001, 60002, 60003, 60004]);
    let target_data = setup_testdata("CRS326-24G-2S+")?;
    let (target_data, mapped) = target_data.setup_l2(&setup, SwitchVlanConcept::OneBridge)?;
    assert_eq!(target_data.bridge.len(), 1);
    assert_eq!(target_data.bridge[0].vlan_filtering, Some(true));
    assert_eq!(target_data.bridge[0].protocol_mode, Some(ProtocolMode::Mstp));
    assert_eq!(target_data.bridge_port.len(), 24);
    assert_eq!(target_data.bridge_vlan.len(), 5);
    for port in &target_data.bridge_port {
        assert_eq!(port.ingress_filtering, Some(true));
        assert_eq!(port.frame_types, Some(VlanFrameTypes::AdmitOnlyUntaggedAndPriorityTagged));
        assert!(port.pvid.is_some());
    }
    assert_eq!(mapped.len(), 5);
    assert_eq!(mapped[0].plane, MappedPlane::Tagged { if_name: "switch".to_string(), vid: 60000 });
    Ok(())
}

#[test]
fn scenario_one_bridge_one_untagged_vlan_three_ports() -> Result<(), SetupError> {
    let topology = create_device_with_ports(1, 1, 3);
    let setup = L2Setup::new(&device(&topology), &mut KeepNameGenerator)?;
    assert_eq!(setup.planes.len(), 1);
    let (target, _) =
        setup_testdata("CRS326-24G-2S+")?.setup_l2(&setup, SwitchVlanConcept::OneBridge)?;
    assert_eq!(target.bridge.len(), 1);
    assert_eq!(target.bridge[0].vlan_filtering, Some(false));
    assert!(target.bridge_vlan.is_empty());
    assert_eq!(target.bridge_port.len(), 3);
    for port in &target.bridge_port {
        assert_eq!(port.bridge, "switch");
        assert_eq!(port.frame_types, Some(VlanFrameTypes::AdmitOnlyUntaggedAndPriorityTagged));
        assert_eq!(port.ingress_filtering, None);
    }
    Ok(())
}

fn three_tagged_ports() -> Topology {
    let mut builder = Builder::new();
    let d1 = DeviceId(0);
    builder.topology.devices.insert(d1.0, Device { name: "d1".to_string(), ..Default::default() });
    let bridge = builder.add_interface(Interface {
        name: "bridge-0".to_string(),
        device: d1,
        ..Default::default()
    });
    for n in 1..=3u16 {
        let vlan = builder.add_vlan(&format!("vlan-{n}"), 100 + n, VlanGroupId(0));
        builder.add_interface(Interface {
            name: format!("e{n:02}"),
            device: d1,
            bridge: Some(bridge),
            tagged_vlans: vec![vlan],
            external: Some(PhysicalPortId::Ethernet(n)),
            ..Default::default()
        });
    }
    builder.topology
}

#[test]
fn scenario_one_bridge_three_vlans_three_tagged_ports() -> Result<(), SetupError> {
    let topology = three_tagged_ports();
    let setup = L2Setup::new(&device(&topology), &mut KeepNameGenerator)?;
    assert_eq!(setup.planes.len(), 3);
    let (target, mapped) =
        setup_testdata("CRS326-24G-2S+")?.setup_l2(&setup, SwitchVlanConcept::OneBridge)?;
    assert_eq!(target.bridge.len(), 1);
    assert_eq!(target.bridge[0].name, "switch");
    assert_eq!(target.bridge[0].vlan_filtering, Some(true));
    assert_eq!(target.bridge_vlan.len(), 3);
    for (n, entry) in target.bridge_vlan.iter().enumerate() {
        assert_eq!(entry.bridge, "switch");
        assert_eq!(entry.vlan_ids, VlanIds::Single(101 + n as u16));
        assert_eq!(entry.tagged, vec![format!("e{:02}", n + 1)]);
        assert!(entry.untagged.is_empty());
    }
    assert_eq!(target.bridge_port.len(), 3);
    for port in &target.bridge_port {
        assert_eq!(port.frame_types, Some(VlanFrameTypes::AdmitOnlyVlanTagged));
        assert_eq!(port.ingress_filtering, Some(true));
        assert_eq!(port.pvid, None);
    }
    let names: Vec<MappedPlane> = mapped.iter().map(|m| m.plane.clone()).collect();
    assert_eq!(
        names,
        vec![
            MappedPlane::Tagged { if_name: "switch".to_string(), vid: 101 },
            MappedPlane::Tagged { if_name: "switch".to_string(), vid: 102 },
            MappedPlane::Tagged { if_name: "switch".to_string(), vid: 103 },
        ]
    );
    Ok(())
}

#[test]
fn l2_single_untagged_port_is_routed() -> Result<(), SetupError> {
    let topology = create_device_with_ports(1, 3, 3);
    let setup = L2Setup::new(&device(&topology), &mut KeepNameGenerator)?;
    let (target, mapped) =
        setup_testdata("CRS326-24G-2S+")?.setup_l2(&setup, SwitchVlanConcept::OneBridge)?;
    assert!(target.bridge.is_empty());
    assert!(target.bridge_port.is_empty());
    let names: Vec<MappedPlane> = mapped.iter().map(|m| m.plane.clone()).collect();
    assert_eq!(
        names,
        vec![
            MappedPlane::Untagged("e03".to_string()),
            MappedPlane::Untagged("e01".to_string()),
            MappedPlane::Untagged("e02".to_string()),
        ]
    );
    Ok(())
}

#[test]
fn l2_mixed_tagging_puts_a_port_in_each_plane() -> Result<(), SetupError> {
    let mut builder = Builder::new();
    let d1 = DeviceId(0);
    builder.topology.devices.insert(d1.0, Device { name: "d1".to_string(), ..Default::default() });
    let bridge = builder.add_interface(Interface {
        name: "bridge".to_string(),
        device: d1,
        ..Default::default()
    });
    let a = builder.add_vlan("a", 10, VlanGroupId(0));
    let b = builder.add_vlan("b", 20, VlanGroupId(0));
    builder.add_interface(Interface {
        name: "trunk".to_string(),
        device: d1,
        bridge: Some(bridge),
        vlan: Some(a),
        tagged_vlans: vec![b],
        external: Some(PhysicalPortId::SfpSfpPlus(1)),
        ..Default::default()
    });
    builder.add_interface(Interface {
        name: "access".to_string(),
        device: d1,
        bridge: Some(bridge),
        vlan: Some(b),
        external: Some(PhysicalPortId::Ethernet(2)),
        ..Default::default()
    });
    builder.add_interface(Interface {
        name: "tagged-only".to_string(),
        device: d1,
        bridge: Some(bridge),
        tagged_vlans: vec![a],
        external: Some(PhysicalPortId::Ethernet(3)),
        ..Default::default()
    });
    let topology = builder.topology;
    let setup = L2Setup::new(&device(&topology), &mut KeepNameGenerator)?;
    assert_eq!(setup.planes.len(), 2);
    assert_eq!(
        setup.planes[0].ports,
        vec![
            L2Port::UntaggedEthernet {
                name: "trunk".to_string(),
                port: PhysicalPortId::SfpSfpPlus(1)
            },
            L2Port::TaggedEthernet {
                name: "tagged-only".to_string(),
                port: PhysicalPortId::Ethernet(3)
            },
        ]
    );
    assert_eq!(
        setup.planes[1].ports,
        vec![
            L2Port::TaggedEthernet { name: "trunk".to_string(), port: PhysicalPortId::SfpSfpPlus(1) },
            L2Port::UntaggedEthernet { name: "access".to_string(), port: PhysicalPortId::Ethernet(2) },
        ]
    );
    let total: usize = setup.planes.iter().map(|p| p.ports.len()).sum();
    assert_eq!(total, 4);
    let (target, _) =
        setup_testdata("CRS326-24G-2S+")?.setup_l2(&setup, SwitchVlanConcept::OneBridge)?;
    let frames: Vec<(String, Option<VlanFrameTypes>, Option<u16>)> = target
        .bridge_port
        .iter()
        .map(|p| (p.interface.clone(), p.frame_types, p.pvid))
        .collect();
    assert_eq!(
        frames,
        vec![
            ("trunk".to_string(), Some(VlanFrameTypes::AdmitAll), Some(10)),
            ("tagged-only".to_string(), Some(VlanFrameTypes::AdmitOnlyVlanTagged), None),
            (
                "access".to_string(),
                Some(VlanFrameTypes::AdmitOnlyUntaggedAndPriorityTagged),
                Some(20)
            ),
        ]
    );
    assert_eq!(target.ethernet[24].default_name, "sfp-sfpplus1");
    assert_eq!(target.ethernet[24].name, "trunk");
    Ok(())
}

#[test]
fn l2_synthetic_tags_skip_tags_in_use() -> Result<(), SetupError> {
    let mut builder = Builder::new();
    let d1 = DeviceId(0);
    builder.topology.devices.insert(d1.0, Device { name: "d1".to_string(), ..Default::default() });
    let taken = builder.add_vlan("taken", 60000, VlanGroupId(0));
    let also_taken = builder.add_vlan("also-taken", 60002, VlanGroupId(0));
    for (n, vlan) in [Some(taken), None, Some(VlanId(77)), Some(also_taken), Some(VlanId(78))]
        .into_iter()
        .enumerate()
    {
        let bridge = builder.add_interface(Interface {
            name: format!("bridge-{n}"),
            device: d1,
            ..Default::default()
        });
        for m in 0..2u16 {
            builder.topology.interfaces.insert(
                1000 + 2 * n as u32 + m as u32,
                Interface {
                    name: format!("p{n}-{m}"),
                    device: d1,
                    bridge: Some(bridge),
                    vlan,
                    external: Some(PhysicalPortId::Ethernet(1 + 2 * n as u16 + m)),
                    ..Default::default()
                },
            );
            builder
                .topology
                .devices
                .get_mut(&0)
                .unwrap()
                .ports
                .push(CablePort::Interface(InterfaceId(1000 + 2 * n as u32 + m as u32)));
        }
    }
    let topology = builder.topology;
    let setup = L2Setup::new(&device(&topology), &mut KeepNameGenerator)?;
    let tags: Vec<u16> = setup.planes.iter().map(|p| p.vlan_id).collect();
    assert_eq!(tags, vec![60000, 60001, 60003, 60002, 60004]);
    let mut distinct = tags.clone();
    distinct.sort();
    distinct.dedup();
    assert_eq!(distinct.len(), tags.len());
    Ok(())
}

#[test]
fn l2_port_missing_on_the_model_is_an_error() {
    let topology = create_device_with_ports(1, 0, 6);
    let setup = L2Setup::new(&device(&topology), &mut KeepNameGenerator).unwrap();
    let target = setup_testdata("RB750Gr3").unwrap();
    let result = target.setup_l2(&setup, SwitchVlanConcept::OneBridge);
    assert_eq!(result.err(), Some(SetupError::PortNotFound(PhysicalPortId::Ethernet(6))));
}

#[test]
fn l2_plane_order() {
    let topology = create_device_with_ports(2, 2, 4);
    let setup = L2Setup::new(&device(&topology), &mut KeepNameGenerator).unwrap();
    assert!(setup.planes.len() >= 2);
    let first = &setup.planes[0];
    let second = &setup.planes[1];
    assert_eq!(first.precedes(second), !second.precedes(first));
    assert!(!first.precedes(first));
}

#[test]
fn unknown_model_has_no_ports() {
    assert!(build_ethernet_ports("no such model").is_empty());
    assert_eq!(
        BaseDeviceDataTarget::new("no such model", vec![]).err(),
        Some(SetupError::NoPortsFound("no such model".to_string()))
    );
}

#[test]
fn no_tag_left_for_a_plane_is_an_error() {
    let mut builder = Builder::new();
    builder.topology.devices.insert(0, Device { name: "d1".to_string(), ..Default::default() });
    let mut tagged = Vec::new();
    for tag in 60000..=u16::MAX {
        tagged.push(builder.add_vlan(&format!("vlan{tag}"), tag, VlanGroupId(0)));
    }
    builder.add_interface(Interface {
        name: "e1".to_string(),
        device: DeviceId(0),
        external: Some(PhysicalPortId::Ethernet(1)),
        tagged_vlans: tagged.clone(),
        ..Default::default()
    });
    let topology = builder.topology.clone();
    let setup = L2Setup::new(&device(&topology), &mut KeepNameGenerator).unwrap();
    assert_eq!(setup.planes.len(), 5536);
    assert!(setup.planes.iter().all(|p| p.vlan_id >= 60000));

    // One more plane, of a VLAN that the inventory does not hold.
    tagged.push(VlanId(1_000_000));
    builder.topology.interfaces.get_mut(&0).unwrap().tagged_vlans = tagged;
    let topology = builder.topology;
    assert_eq!(
        L2Setup::new(&device(&topology), &mut KeepNameGenerator).err(),
        Some(SetupError::TagSpaceExhausted)
    );
}

#[test]
fn device_without_a_model_is_an_error() {
    assert_eq!(
        BaseDeviceDataTarget::detect_device(None, vec![]).err(),
        Some(SetupError::RouterboardNotDefined)
    );
    assert_eq!(
        BaseDeviceDataTarget::detect_device(Some("RB0"), vec![]).err(),
        Some(SetupError::NoPortsFound("RB0".to_string()))
    );
    let specs = build_ethernet_ports("RB750Gr3");
    let ports: Vec<EthernetPort> = specs
        .iter()
        .map(|spec| EthernetPort::from_spec(spec, &format!("ether{}", spec.index)))
        .collect();
    let target = BaseDeviceDataTarget::detect_device(Some("RB750Gr3"), ports.clone()).unwrap();
    assert_eq!(target.ethernet, ports);
    assert_eq!(Ok(target), BaseDeviceDataTarget::new("RB750Gr3", ports));
}
