use topo_synth::access::DeviceAccess;
use topo_synth::access::VxlanAccess;
use topo_synth::error::SetupError;
use topo_synth::hw_facts::{build_ethernet_ports, build_wifi_ports, build_wireless_ports};
use topo_synth::hw_facts::{EthernetNamePattern, RadioSpec};
use topo_synth::ip::{IpAddr, IpNet, Ipv4Addr, Ipv4Net, Ipv6Addr, Ipv6Net};
use topo_synth::model::{
    AddressRange, Advertise, DhcpClient, DhcpServer, DhcpServerNetwork, EthernetPort, Ipv4Address,
    Ipv4Pool, MappedPlane, OspfArea, OspfInstance, OspfInterfaceTemplate, OspfVersion, PoeOut,
    ProtocolMode, Redistribute, VlanIds, VlanInterface, Vxlan, VxlanVtep,
};
use topo_synth::target::BaseDeviceDataTarget;
use topo_synth::topology::{
    CablePort, Device, DeviceId, Interface, InterfaceId, IpAddressData, IpAddressId, IpPrefixData,
    IpPrefixId, IpRangeData, IpRangeId, PhysicalPortId, Topology, VlanData, VlanGroupId, VlanId,
    VxlanData, VxlanId, WlanAuth, WlanData, WlanGroupData, WlanGroupId, WlanId, WlanWpaSettings,
};

fn v4(a: u8, b: u8, c: u8, d: u8) -> Ipv4Addr {
    Ipv4Addr::new(a, b, c, d)
}

fn net4(a: u8, b: u8, c: u8, d: u8, len: u8) -> Ipv4Net {
    Ipv4Net::new(v4(a, b, c, d), len).unwrap()
}

fn ports_of(model: &str) -> Vec<EthernetPort> {
    build_ethernet_ports(model)
        .iter()
        .filter_map(|spec| {
            let name = spec.physical_port()?.default_name()?;
            Some(EthernetPort::from_spec(spec, &name))
        })
        .collect()
}

fn add_interface(t: &mut Topology, id: u32, device: u32, interface: Interface) {
    for ip in &interface.ips {
        t.ip_addresses.get_mut(&ip.0).unwrap().interface = Some(InterfaceId(id));
    }
    t.devices.get_mut(&device).unwrap().ports.push(CablePort::Interface(InterfaceId(id)));
    t.interfaces.insert(id, Interface { device: DeviceId(device), ..interface });
}

fn add_address(t: &mut Topology, id: u32, ip: IpNet, prefix: Option<u32>) {
    t.ip_addresses.insert(id, IpAddressData { ip, interface: None, prefix: prefix.map(IpPrefixId) });
    if let Some(p) = prefix {
        t.ip_prefixes.get_mut(&p).unwrap().addresses.push(IpAddressId(id));
    }
}

fn router(use_ospf: bool) -> Topology {
    let mut t = Topology::default();
    t.devices.insert(
        1,
        Device {
            name: "Router 1".to_string(),
            primary_ip_v4: Some(IpAddressId(2)),
            loopback_ip: Some(IpAddressId(1)),
            ..Default::default()
        },
    );
    t.ip_prefixes.insert(
        7,
        IpPrefixData {
            prefix: IpNet::V4(net4(172, 16, 1, 0, 24)),
            addresses: vec![],
            children: vec![],
            parent: None,
            ranges: vec![IpRangeId(5)],
        },
    );
    t.ip_ranges.insert(
        5,
        IpRangeData {
            is_dhcp: false,
            net: IpNet::V4(net4(172, 16, 1, 0, 24)),
            start: IpAddr::V4(v4(172, 16, 1, 10)),
            end: IpAddr::V4(v4(172, 16, 1, 20)),
            prefix: Some(IpPrefixId(7)),
        },
    );
    add_address(&mut t, 1, IpNet::V4(net4(10, 255, 0, 1, 32)), None);
    add_address(&mut t, 2, IpNet::V4(net4(10, 0, 0, 2, 30)), None);
    add_address(&mut t, 3, IpNet::V4(net4(172, 16, 1, 1, 24)), Some(7));
    add_address(&mut t, 4, IpNet::V4(net4(172, 16, 1, 15, 24)), Some(7));
    add_address(
        &mut t,
        6,
        IpNet::V6(Ipv6Net::new(Ipv6Addr(0x2001_0db8 << 96 | 1), 64).unwrap()),
        None,
    );
    add_interface(
        &mut t,
        10,
        1,
        Interface {
            name: "lo".to_string(),
            ips: vec![IpAddressId(1)],
            external: Some(PhysicalPortId::Loopback),
            ..Default::default()
        },
    );
    add_interface(
        &mut t,
        11,
        1,
        Interface {
            name: "ether1".to_string(),
            ips: vec![IpAddressId(2), IpAddressId(6)],
            external: Some(PhysicalPortId::Ethernet(1)),
            use_ospf,
            ..Default::default()
        },
    );
    add_interface(
        &mut t,
        12,
        1,
        Interface {
            name: "ether2".to_string(),
            ips: vec![IpAddressId(3)],
            external: Some(PhysicalPortId::Ethernet(2)),
            enable_dhcp_server: true,
            enable_poe: true,
            ..Default::default()
        },
    );
    add_interface(
        &mut t,
        13,
        1,
        Interface {
            name: "ether3".to_string(),
            external: Some(PhysicalPortId::Ethernet(3)),
            enable_dhcp_client: true,
            ..Default::default()
        },
    );
    t
}

fn generate(t: &Topology, device: u32, model: &str) -> Result<BaseDeviceDataTarget, SetupError> {
    let device = t.get_device_by_id(&DeviceId(device)).unwrap();
    BaseDeviceDataTarget::new(model, ports_of(model))?.generate_from(&device)
}

#[test]
fn generate_router() -> Result<(), SetupError> {
    let t = router(true);
    let target = generate(&t, 1, "RB750Gr3")?;
    assert_eq!(target.identity, "Router 1");
    assert!(target.bridge.is_empty());
    assert!(target.bridge_port.is_empty());
    assert!(target.bridge_vlan.is_empty());
    assert!(target.vlan.is_empty());
    assert_eq!(
        target.ipv_4_address,
        vec![
            Ipv4Address { address: net4(10, 255, 0, 1, 32), interface: "lo".to_string() },
            Ipv4Address { address: net4(10, 0, 0, 2, 30), interface: "e01".to_string() },
            Ipv4Address { address: net4(172, 16, 1, 1, 24), interface: "e02".to_string() },
        ]
    );
    assert_eq!(target.ipv_6_address.len(), 1);
    assert_eq!(target.ipv_6_address[0].interface, "e01");
    assert_eq!(
        target.dhcp_v_4_client,
        vec![DhcpClient {
            interface: "e03".to_string(),
            add_default_route: true,
            default_route_distance: Some(10),
            use_peer_dns: true,
            use_peer_ntp: false,
        }]
    );
    assert_eq!(
        target.dhcp_v_4_server,
        vec![DhcpServer {
            name: "dhcp-e02".to_string(),
            interface: Some("e02".to_string()),
            address_pool: Some("dhcp-e02".to_string()),
        }]
    );
    assert_eq!(
        target.dhcp_v_4_server_network,
        vec![DhcpServerNetwork {
            address: net4(172, 16, 1, 0, 24),
            gateway: vec![v4(172, 16, 1, 1)],
            dns_server: vec![v4(172, 16, 1, 1)],
        }]
    );
    assert_eq!(
        target.ipv_4_pool,
        vec![Ipv4Pool {
            name: "dhcp-e02".to_string(),
            ranges: vec![
                AddressRange { start: v4(172, 16, 1, 2), end: v4(172, 16, 1, 9) },
                AddressRange { start: v4(172, 16, 1, 21), end: v4(172, 16, 1, 254) },
            ],
        }]
    );
    let names: Vec<&str> = target.ethernet.iter().map(|e| e.name.as_str()).collect();
    assert_eq!(names, vec!["e01", "e02", "e03", "ether4", "ether5"]);
    let poe: Vec<Option<PoeOut>> = target.ethernet.iter().map(|e| e.poe_out).collect();
    assert_eq!(poe, vec![Some(PoeOut::Off), Some(PoeOut::AutoOn), Some(PoeOut::Off), None, None]);
    assert_eq!(
        target.ospf_instance,
        vec![
            OspfInstance {
                name: "default-v2".to_string(),
                version: Some(OspfVersion::V2),
                router_id: Some("10.0.0.2".to_string()),
                redistribute: vec![Redistribute::Connected, Redistribute::Static],
            },
            OspfInstance {
                name: "default-v3".to_string(),
                version: Some(OspfVersion::V3),
                router_id: Some("10.0.0.2".to_string()),
                redistribute: vec![Redistribute::Connected, Redistribute::Static],
            },
        ]
    );
    assert_eq!(
        target.ospf_area,
        vec![
            OspfArea { name: "backbone-v2".to_string(), instance: Some("default-v2".to_string()) },
            OspfArea { name: "backbone-v3".to_string(), instance: Some("default-v3".to_string()) },
        ]
    );
    assert_eq!(
        target.ospf_interface,
        vec![
            OspfInterfaceTemplate {
                area: "backbone-v2".to_string(),
                interfaces: vec!["e01".to_string()],
                use_bfd: Some(false),
            },
            OspfInterfaceTemplate {
                area: "backbone-v3".to_string(),
                interfaces: vec!["e01".to_string()],
                use_bfd: Some(false),
            },
        ]
    );
    Ok(())
}

#[test]
fn scenario_no_ospf_without_enabled_interfaces() -> Result<(), SetupError> {
    let t = router(false);
    let target = generate(&t, 1, "RB750Gr3")?;
    assert!(target.ospf_instance.is_empty());
    assert!(target.ospf_area.is_empty());
    assert!(target.ospf_interface.is_empty());
    assert_eq!(target.ipv_4_address.len(), 3);
    Ok(())
}

#[test]
fn generate_twice_gives_the_same() -> Result<(), SetupError> {
    let first = generate(&router(true), 1, "RB750Gr3")?;
    let second = generate(&router(true), 1, "RB750Gr3")?;
    assert_eq!(first, second);
    assert_eq!(format!("{first:?}"), format!("{second:?}"));
    Ok(())
}

#[test]
fn the_order_in_which_a_snapshot_was_filled_does_not_show() -> Result<(), SetupError> {
    let filled = router(true);
    let mut refilled = Topology::default();
    let mut ids: Vec<u32> = filled.interfaces.keys().copied().collect();
    ids.sort();
    for id in ids.into_iter().rev() {
        refilled.interfaces.insert(id, filled.interfaces[&id].clone());
    }
    let mut ids: Vec<u32> = filled.ip_addresses.keys().copied().collect();
    ids.sort();
    for id in ids.into_iter().rev() {
        refilled.ip_addresses.insert(id, filled.ip_addresses[&id].clone());
    }
    refilled.devices = filled.devices.clone();
    refilled.front_ports = filled.front_ports.clone();
    refilled.rear_ports = filled.rear_ports.clone();
    refilled.cables = filled.cables.clone();
    refilled.vxlans = filled.vxlans.clone();
    refilled.wlan_groups = filled.wlan_groups.clone();
    refilled.wlans = filled.wlans.clone();
    refilled.vlan_groups = filled.vlan_groups.clone();
    refilled.vlans = filled.vlans.clone();
    refilled.ip_prefixes = filled.ip_prefixes.clone();
    refilled.ip_ranges = filled.ip_ranges.clone();
    assert_eq!(generate(&filled, 1, "RB750Gr3")?, generate(&refilled, 1, "RB750Gr3")?);
    Ok(())
}

#[test]
fn dhcp_ranges_of_the_inventory_are_taken_as_they_are() -> Result<(), SetupError> {
    let mut t = router(true);
    t.ip_ranges.get_mut(&5).unwrap().is_dhcp = true;
    let target = generate(&t, 1, "RB750Gr3")?;
    assert_eq!(
        target.ipv_4_pool,
        vec![Ipv4Pool {
            name: "dhcp-e02".to_string(),
            ranges: vec![AddressRange { start: v4(172, 16, 1, 10), end: v4(172, 16, 1, 20) }],
        }]
    );
    Ok(())
}

#[test]
fn dhcp_skips_networks_below_the_prefix() -> Result<(), SetupError> {
    let mut t = router(true);
    t.ip_prefixes.insert(
        8,
        IpPrefixData {
            prefix: IpNet::V4(net4(172, 16, 1, 128, 25)),
            addresses: vec![],
            children: vec![],
            parent: Some(IpPrefixId(7)),
            ranges: vec![],
        },
    );
    t.ip_prefixes.get_mut(&7).unwrap().children.push(IpPrefixId(8));
    let target = generate(&t, 1, "RB750Gr3")?;
    assert_eq!(
        target.ipv_4_pool[0].ranges,
        vec![
            AddressRange { start: v4(172, 16, 1, 2), end: v4(172, 16, 1, 9) },
            AddressRange { start: v4(172, 16, 1, 21), end: v4(172, 16, 1, 127) },
        ]
    );
    Ok(())
}

#[test]
fn dhcp_without_free_ranges_sets_up_no_server() -> Result<(), SetupError> {
    let mut t = router(true);
    let range = t.ip_ranges.get_mut(&5).unwrap();
    range.start = IpAddr::V4(v4(172, 16, 1, 0));
    range.end = IpAddr::V4(v4(172, 16, 1, 255));
    let target = generate(&t, 1, "RB750Gr3")?;
    assert!(target.dhcp_v_4_server.is_empty());
    assert!(target.dhcp_v_4_server_network.is_empty());
    assert!(target.ipv_4_pool.is_empty());
    Ok(())
}

#[test]
fn dhcp_server_names_count_the_addresses() -> Result<(), SetupError> {
    let mut t = router(true);
    t.ip_prefixes.insert(
        9,
        IpPrefixData {
            prefix: IpNet::V4(net4(192, 168, 5, 0, 29)),
            addresses: vec![],
            children: vec![],
            parent: None,
            ranges: vec![],
        },
    );
    add_address(&mut t, 20, IpNet::V4(net4(192, 168, 5, 1, 29)), Some(9));
    t.interfaces.get_mut(&12).unwrap().ips.push(IpAddressId(20));
    let target = generate(&t, 1, "RB750Gr3")?;
    let names: Vec<&str> = target.dhcp_v_4_server.iter().map(|s| s.name.as_str()).collect();
    assert_eq!(names, vec!["dhcp-e02", "dhcp-e02-1"]);
    assert_eq!(
        target.ipv_4_pool[1],
        Ipv4Pool {
            name: "dhcp-e02-1".to_string(),
            ranges: vec![AddressRange { start: v4(192, 168, 5, 2), end: v4(192, 168, 5, 6) }],
        }
    );
    Ok(())
}

#[test]
fn dhcp_server_without_prefix_is_an_error() {
    let mut t = router(true);
    t.ip_addresses.get_mut(&3).unwrap().prefix = None;
    assert_eq!(
        generate(&t, 1, "RB750Gr3").err(),
        Some(SetupError::MissingPrefixOnIpAddress { ip: IpNet::V4(net4(172, 16, 1, 1, 24)) })
    );
    let mut t = router(true);
    t.ip_addresses.get_mut(&3).unwrap().prefix = Some(IpPrefixId(99));
    assert_eq!(
        generate(&t, 1, "RB750Gr3").err(),
        Some(SetupError::MissingAddressOnPrefix { prefix: IpPrefixId(99) })
    );
}

#[test]
fn port_that_the_model_lacks_is_an_error() {
    let mut t = router(true);
    t.interfaces.get_mut(&13).unwrap().external = Some(PhysicalPortId::SfpSfpPlus(1));
    assert_eq!(
        generate(&t, 1, "RB750Gr3").err(),
        Some(SetupError::PortNotFound(PhysicalPortId::SfpSfpPlus(1)))
    );
    assert!(generate(&t, 1, "CRS326-24G-2S+").is_ok());
}

fn wireless() -> Topology {
    let mut t = Topology::default();
    for (id, name, address, ap_of) in [
        (1u32, "AP One", 11u8, Some(1u32)),
        (2, "AP Two", 12, Some(1)),
        (3, "Controller", 13, None),
        (4, "Switch", 14, None),
    ] {
        t.ip_addresses.insert(
            id,
            IpAddressData {
                ip: IpNet::V4(net4(10, 1, 0, address, 24)),
                interface: None,
                prefix: None,
            },
        );
        t.devices.insert(
            id,
            Device {
                name: name.to_string(),
                primary_ip_v4: Some(IpAddressId(id)),
                wlan_ap_of: ap_of.map(WlanGroupId),
                wlan_controller_of: if id == 3 { Some(WlanGroupId(1)) } else { None },
                ..Default::default()
            },
        );
    }
    t.interfaces.insert(
        40,
        Interface { name: "ether1".to_string(), device: DeviceId(4), ..Default::default() },
    );
    t.wlan_groups.insert(
        1,
        WlanGroupData {
            mgmt_vlan: Some(VlanId(1)),
            controller: DeviceId(3),
            aps: vec![DeviceId(1), DeviceId(2)],
            wlans: vec![WlanId(1), WlanId(2), WlanId(3)],
        },
    );
    for (id, vlan) in [(1u32, Some(2u32)), (2, Some(2)), (3, None)] {
        t.wlans.insert(
            id,
            WlanData {
                ssid: format!("net-{id}"),
                vlan: vlan.map(VlanId),
                wlan_auth: WlanAuth::Wpa(WlanWpaSettings { key: "SECRET-REDACTED".to_string() }),
                wlan_group: WlanGroupId(1),
            },
        );
    }
    t.vlans.insert(
        1,
        VlanData {
            name: "mgmt".to_string(),
            vlan_id: 10,
            group: VlanGroupId(1),
            terminations: vec![],
            vxlan: Some(VxlanId(1)),
            wlans: vec![],
        },
    );
    t.vlans.insert(
        2,
        VlanData {
            name: "guests".to_string(),
            vlan_id: 20,
            group: VlanGroupId(1),
            terminations: vec![],
            vxlan: Some(VxlanId(2)),
            wlans: vec![WlanId(1), WlanId(2)],
        },
    );
    t.vxlans.insert(
        1,
        VxlanData {
            name: "Mgmt.Net".to_string(),
            vni: 1000,
            interface_terminations: vec![InterfaceId(40), InterfaceId(99)],
            vlan_terminations: vec![VlanId(1)],
        },
    );
    t.vxlans.insert(
        2,
        VxlanData {
            name: "Guests".to_string(),
            vni: 2000,
            interface_terminations: vec![],
            vlan_terminations: vec![VlanId(2), VlanId(77)],
        },
    );
    t
}

#[test]
fn vxlan_ends() {
    let t = wireless();
    let mgmt = VxlanAccess { topology: &t, id: VxlanId(1) };
    assert_eq!(mgmt.vteps(), vec![IpAddr::V4(v4(10, 1, 0, 14))]);
    let guests = VxlanAccess { topology: &t, id: VxlanId(2) };
    assert_eq!(
        guests.vteps(),
        vec![IpAddr::V4(v4(10, 1, 0, 11)), IpAddr::V4(v4(10, 1, 0, 12)), IpAddr::V4(v4(10, 1, 0, 13))]
    );
    let unknown = VxlanAccess { topology: &t, id: VxlanId(3) };
    assert!(unknown.vteps().is_empty());
    assert_eq!(unknown.name(), None);
    assert_eq!(guests.vni(), Some(2000));
}

#[test]
fn generate_access_point() -> Result<(), SetupError> {
    let t = wireless();
    let target = generate(&t, 1, "C52iG-5HaxD2HaxD")?;
    assert_eq!(target.identity, "AP One");
    assert_eq!(target.bridge.len(), 1);
    assert_eq!(target.bridge[0].name, "bridge-caps");
    assert_eq!(target.bridge[0].vlan_filtering, Some(true));
    assert_eq!(target.bridge[0].protocol_mode, Some(ProtocolMode::Mstp));
    assert_eq!(target.bridge[0].ingress_filtering, None);
    assert_eq!(
        target.vxlan,
        vec![
            Vxlan { name: "vxlan-mgmt-net".to_string(), vni: 1000 },
            Vxlan { name: "vxlan-guests".to_string(), vni: 2000 },
        ]
    );
    let ports: Vec<(&str, &str)> =
        target.bridge_port.iter().map(|p| (p.bridge.as_str(), p.interface.as_str())).collect();
    assert_eq!(ports, vec![("bridge-caps", "vxlan-mgmt-net"), ("bridge-caps", "vxlan-guests")]);
    assert_eq!(target.bridge_vlan.len(), 2);
    assert_eq!(target.bridge_vlan[1].tagged, vec!["vxlan-guests".to_string()]);
    assert!(target.bridge_vlan[1].untagged.is_empty());
    assert_eq!(target.bridge_vlan[1].vlan_ids, VlanIds::Range { start: 1, end: 4094 });
    assert_eq!(
        target.vxlan_vteps,
        vec![
            VxlanVtep {
                interface: "vxlan-mgmt-net".to_string(),
                remote_ip: IpAddr::V4(v4(10, 1, 0, 14))
            },
            VxlanVtep {
                interface: "vxlan-guests".to_string(),
                remote_ip: IpAddr::V4(v4(10, 1, 0, 12))
            },
            VxlanVtep {
                interface: "vxlan-guests".to_string(),
                remote_ip: IpAddr::V4(v4(10, 1, 0, 13))
            },
        ]
    );
    assert!(target.ospf_instance.is_empty());
    let switch = generate(&t, 4, "RB750Gr3")?;
    assert!(switch.bridge.is_empty());
    assert!(switch.vxlan.is_empty());
    Ok(())
}

#[test]
fn single_settings() {
    let mut target = BaseDeviceDataTarget::with_ports(ports_of("RB750Gr3"));
    target.set_identity("core");
    target.set_loopback_ip(IpAddr::V4(v4(10, 0, 0, 1)));
    target.set_loopback_ip(IpAddr::V6(Ipv6Addr(1)));
    target.set_ip_address(IpNet::V4(net4(10, 0, 0, 1, 32)), "bridge");
    target.set_ip_address(IpNet::V4(net4(10, 0, 0, 1, 24)), "ether1");
    assert_eq!(target.identity, "core");
    assert_eq!(
        target.ipv_4_address,
        vec![
            Ipv4Address { address: net4(10, 0, 0, 1, 32), interface: "bridge".to_string() },
            Ipv4Address { address: net4(10, 0, 0, 1, 24), interface: "ether1".to_string() },
        ]
    );
    assert_eq!(target.ipv_6_address[0].interface, "lo");
    assert_eq!(target.ipv_6_address[0].address.prefix_len(), 128);
    target.enable_dhcp_client("ether2".to_string());
    target.enable_dhcp_client("ether2".to_string());
    assert_eq!(target.dhcp_v_4_client.len(), 1);
    let tagged = MappedPlane::Tagged { if_name: "switch".to_string(), vid: 4094 };
    assert_eq!(target.if_of_mapped_plane(&tagged), "switch-4094");
    assert_eq!(target.if_of_mapped_plane(&tagged), "switch-4094");
    assert_eq!(target.if_of_mapped_plane(&MappedPlane::Untagged("e01".to_string())), "e01");
    assert_eq!(
        target.vlan,
        vec![VlanInterface {
            name: "switch-4094".to_string(),
            interface: "switch".to_string(),
            vlan_id: 4094
        }]
    );
    let target = target.rename_port(PhysicalPortId::Ethernet(2), "uplink").unwrap();
    let target = target.rename_port(PhysicalPortId::Wifi(1), "radio").unwrap();
    let target = target.set_poe(PhysicalPortId::Ethernet(2), true).unwrap();
    assert_eq!(target.ethernet[1].name, "uplink");
    assert_eq!(target.ethernet[1].poe_out, Some(PoeOut::AutoOn));
    assert_eq!(
        target.rename_port(PhysicalPortId::Ethernet(6), "x").err(),
        Some(SetupError::PortNotFound(PhysicalPortId::Ethernet(6)))
    );
}

#[test]
fn hardware_facts() {
    let ports = build_ethernet_ports("CRS354-48G-4S+2Q+");
    assert_eq!(ports.len(), 61);
    assert_eq!(ports[0].pattern, EthernetNamePattern::Ether);
    assert_eq!(ports[0].index, 1);
    assert_eq!(ports[0].l2mtu, 1592);
    assert_eq!(ports[48].pattern, EthernetNamePattern::Ether);
    assert_eq!(ports[48].index, 49);
    assert_eq!(ports[48].advertise, Advertise::Upto100M);
    assert_eq!(ports[49].pattern, EthernetNamePattern::SfpSfpPlus);
    assert_eq!(ports[49].index, 1);
    assert_eq!(ports[53].pattern, EthernetNamePattern::QsfpPlus);
    assert_eq!(ports[60].index, 8);
    let ports = build_ethernet_ports("C52iG-5HaxD2HaxD");
    let poe: Vec<bool> = ports.iter().map(|p| p.poe).collect();
    assert_eq!(poe, vec![true, false, false, false, false]);
    let index: Vec<u16> = ports.iter().map(|p| p.index).collect();
    assert_eq!(index, vec![1, 2, 3, 4, 5]);
    assert_eq!(build_ethernet_ports("RB750Gr3").len(), 5);
    assert_eq!(build_ethernet_ports("CRS326-24G-2S+").len(), 26);
    assert_eq!(build_ethernet_ports("CRS318-16P-2S+").len(), 18);
    let ports = build_ethernet_ports("CCR1009-7G-1C-1S+");
    assert_eq!(ports.len(), 9);
    assert_eq!(ports[7].pattern, EthernetNamePattern::Combo);
    assert_eq!(ports[8].advertise, Advertise::Upto10GFull);
    let ports = build_ethernet_ports("CRS109-8G-1S-2HnD");
    assert_eq!(ports.len(), 9);
    assert_eq!(ports[8].pattern, EthernetNamePattern::Sfp);
    assert_eq!(ports[8].l2mtu, 1588);
    assert_eq!(
        build_wifi_ports("C52iG-5HaxD2HaxD"),
        vec![RadioSpec { index: 1, l2mtu: 1560 }, RadioSpec { index: 2, l2mtu: 1560 }]
    );
    assert!(build_wifi_ports("RB750Gr3").is_empty());
    assert_eq!(build_wireless_ports("CRS109-8G-1S-2HnD"), vec![RadioSpec { index: 1, l2mtu: 1600 }]);
    assert!(build_wireless_ports("C52iG-5HaxD2HaxD").is_empty());
}

#[test]
fn networks_and_addresses() {
    let net = net4(172, 16, 123, 123, 16);
    assert_eq!(net.network(), v4(172, 16, 0, 0));
    assert_eq!(net.broadcast(), v4(172, 16, 255, 255));
    assert_eq!(net.trunc(), net4(172, 16, 0, 0, 16));
    assert_eq!(net.supernet(), Some(net4(172, 16, 0, 0, 15)));
    assert_eq!(net4(172, 17, 1, 0, 16).supernet(), Some(net4(172, 16, 0, 0, 15)));
    assert_eq!(net4(1, 2, 3, 4, 0).supernet(), None);
    assert_eq!(net4(1, 2, 3, 4, 0).network(), v4(0, 0, 0, 0));
    assert_eq!(net4(1, 2, 3, 4, 0).broadcast(), v4(255, 255, 255, 255));
    assert_eq!(net4(1, 2, 3, 4, 32).network(), v4(1, 2, 3, 4));
    assert_eq!(net4(1, 2, 3, 4, 32).broadcast(), v4(1, 2, 3, 4));
    assert_eq!(Ipv4Net::new(v4(1, 2, 3, 4), 33), None);
    assert_eq!(net.addr(), v4(172, 16, 123, 123));
    assert_eq!(net.prefix_len(), 16);
    let six = Ipv6Net::new(Ipv6Addr(0xfd00_0000_0000_0000_0001_0002_0003_0004), 16).unwrap();
    assert_eq!(six.network(), Ipv6Addr(0xfd00 << 112));
    assert_eq!(six.trunc().addr(), Ipv6Addr(0xfd00 << 112));
    assert_eq!(six.supernet().unwrap().prefix_len(), 15);
    assert_eq!(six.broadcast(), Ipv6Addr(0xfd00_ffff_ffff_ffff_ffff_ffff_ffff_ffff));
    assert_eq!(Ipv6Net::new(Ipv6Addr(0), 129), None);
    assert_eq!(IpNet::V6(six).trunc().prefix_len(), 16);
    assert_eq!(IpNet::V4(net).supernet(), Some(IpNet::V4(net4(172, 16, 0, 0, 15))));
    assert_eq!(IpNet::V4(net).addr(), IpAddr::V4(v4(172, 16, 123, 123)));
    assert_eq!(v4(255, 255, 255, 255).saturating_add(1), v4(255, 255, 255, 255));
    assert_eq!(v4(0, 0, 0, 0).saturating_sub(1), v4(0, 0, 0, 0));
    assert_eq!(v4(10, 0, 0, 255).saturating_add(1), v4(10, 0, 1, 0));
    assert_eq!(v4(10, 0, 1, 0).saturating_sub(1), v4(10, 0, 0, 255));
    assert_eq!(Ipv6Addr(u128::MAX).saturating_add(2), Ipv6Addr(u128::MAX));
    assert_eq!(Ipv6Addr(1).saturating_sub(2), Ipv6Addr(0));
    assert_eq!(v4(192, 168, 0, 1).to_text(), "192.168.0.1");
    assert_eq!(v4(0, 0, 0, 0).to_text(), "0.0.0.0");
    assert_eq!(IpAddr::V4(v4(255, 255, 255, 255)).to_text(), "255.255.255.255");
    assert_eq!(IpAddr::V6(Ipv6Addr(1)).to_text(), "::1");
    assert_eq!(Ipv6Addr(0x2001_0db8 << 96 | 0x1234).to_text(), "2001:db8::1234");
    assert_eq!(v4(1, 2, 3, 4).bits(), 0x0102_0304);
}

#[test]
fn devices_are_listed_once() {
    let t = wireless();
    let mut ids: Vec<u32> = t.list_devices().iter().map(|d| d.id().0).collect();
    ids.sort();
    assert_eq!(ids, vec![1, 2, 3, 4]);
    assert!(t.get_device_by_id(&DeviceId(9)).is_none());
    let ap: DeviceAccess = t.get_device_by_id(&DeviceId(1)).unwrap();
    assert_eq!(ap.name(), "AP One");
    assert_eq!(ap.wlan_ap_of().map(|g| g.id), Some(WlanGroupId(1)));
    assert!(ap.wlan_controller_of().is_none());
    assert_eq!(ap.primary_ip_v4().and_then(|a| a.addr()), Some(IpAddr::V4(v4(10, 1, 0, 11))));
    assert!(ap.primary_ip().is_none());
    assert!(ap.interfaces().is_empty());
    assert!(!ap.has_routeros());
    assert_eq!(ap.serial(), None);
    assert_eq!(ap.credentials(), None);
}

#[test]
fn vxlans_of_a_device() {
    let mut t = wireless();
    t.devices.get_mut(&4).unwrap().vlans = vec![VlanId(2), VlanId(5), VlanId(1), VlanId(2)];
    t.vlans.get_mut(&1).unwrap().vxlan = Some(VxlanId(2));
    let switch = t.get_device_by_id(&DeviceId(4)).unwrap();
    let ids: Vec<VxlanId> = switch.vxlan().iter().map(|x| x.id).collect();
    assert_eq!(ids, vec![VxlanId(2)]);
    t.vlans.get_mut(&1).unwrap().vxlan = Some(VxlanId(1));
    let switch = t.get_device_by_id(&DeviceId(4)).unwrap();
    let ids: Vec<VxlanId> = switch.vxlan().iter().map(|x| x.id).collect();
    assert_eq!(ids, vec![VxlanId(2), VxlanId(1)]);
    let ap = t.get_device_by_id(&DeviceId(1)).unwrap();
    assert!(ap.vxlan().is_empty());
}
