use topo_synth::fetch_links::termination_2_cable_port;
use topo_synth::fetch_prefixes::{build_topology, find_parent};
use topo_synth::inventory::{
    AssignedObject, CableConnectionTermination, CableRecord, DeviceRecord, FetchTopology,
    FrontPortRecord, IdRef, InterfaceRecord, IpAddressRecord, IpRangeRecord, L2vpnRecord,
    PlaceRecord, PlatformRecord, PrefixRecord, RearPortRecord, RoleRecord, TagRecord, TenantRecord,
    VlanGroupRecord, VlanRecord, WirelessLanGroupRecord, WirelessLanRecord, JSON,
};
use topo_synth::ip::{IpAddr, IpNet, Ipv4Addr, Ipv4Net, Ipv6Addr, Ipv6Net};
use topo_synth::parse::{parse_id, parse_ip_net};
use topo_synth::topology::{
    CableId, CablePort, DeviceId, FrontPortId, InterfaceId, IpAddressId, IpPrefixId, IpRangeId,
    PhysicalPortId, PortType, RearPortId, VlanGroupId, VlanId, VxlanId, WlanAuth, WlanGroupId,
    WlanId, WlanOpenSettings, WlanWpaSettings,
};

fn id(s: &str) -> IdRef {
    IdRef { id: s.to_string() }
}

fn net4(a: u8, b: u8, c: u8, d: u8, len: u8) -> IpNet {
    IpNet::V4(Ipv4Net::new(Ipv4Addr::new(a, b, c, d), len).unwrap())
}

fn inventory() -> FetchTopology {
    FetchTopology {
        tenant_list: vec![
            TenantRecord {
                id: "1".to_string(),
                custom_field_data: JSON {
                    mikrotik_credentials: Some("office".to_string()),
                    ..Default::default()
                },
            },
            TenantRecord { id: "2".to_string(), custom_field_data: JSON::default() },
            TenantRecord {
                id: "3".to_string(),
                custom_field_data: JSON {
                    mikrotik_credentials: Some("site".to_string()),
                    ..Default::default()
                },
            },
        ],
        wireless_lan_group_list: vec![
            WirelessLanGroupRecord {
                id: "5".to_string(),
                custom_fields: JSON {
                    controller: Some(100),
                    wlan_mgmt: Some(30),
                    ..Default::default()
                },
                wireless_lans: vec![
                    WirelessLanRecord {
                        id: "9".to_string(),
                        vlan: Some(id("31")),
                        auth_type: Some("wpa-personal".to_string()),
                        auth_psk: "SECRET-REDACTED".to_string(),
                        ssid: "office".to_string(),
                    },
                    WirelessLanRecord {
                        id: "7".to_string(),
                        vlan: Some(id("31")),
                        auth_type: Some("open".to_string()),
                        auth_psk: String::new(),
                        ssid: "guests".to_string(),
                    },
                    WirelessLanRecord {
                        id: "8".to_string(),
                        vlan: None,
                        auth_type: Some("wep".to_string()),
                        auth_psk: String::new(),
                        ssid: "old".to_string(),
                    },
                ],
            },
            WirelessLanGroupRecord {
                id: "6".to_string(),
                custom_fields: JSON::default(),
                wireless_lans: vec![],
            },
        ],
        device_list: vec![
            DeviceRecord {
                id: "100".to_string(),
                name: Some("Core Router".to_string()),
                tenant: Some(id("2")),
                location: Some(PlaceRecord { tenant: None }),
                site: PlaceRecord { tenant: Some(id("3")) },
                primary_ip4: Some(id("1001")),
                primary_ip6: None,
                interfaces: vec![
                    InterfaceRecord {
                        id: "10".to_string(),
                        name: "ether1".to_string(),
                        label: "Uplink".to_string(),
                        type_: "1000base-t".to_string(),
                        ip_addresses: vec![id("1001"), id("x")],
                        tags: vec![
                            TagRecord { slug: "ospf".to_string() },
                            TagRecord { slug: "dhcp".to_string() },
                        ],
                        untagged_vlan: Some(id("30")),
                        tagged_vlans: vec![id("31"), id("none")],
                        bridge: Some(id("12")),
                        poe_mode: Some("pse".to_string()),
                    },
                    InterfaceRecord {
                        id: "11".to_string(),
                        name: "lo".to_string(),
                        type_: "virtual".to_string(),
                        ip_addresses: vec![id("bad"), id("1002"), id("1003")],
                        ..Default::default()
                    },
                    InterfaceRecord {
                        id: "12".to_string(),
                        name: "bridge".to_string(),
                        type_: "bridge".to_string(),
                        tags: vec![TagRecord { slug: "dhcp-client".to_string() }],
                        poe_mode: Some("pd".to_string()),
                        ..Default::default()
                    },
                    InterfaceRecord {
                        id: "not a number".to_string(),
                        name: "ether9".to_string(),
                        ..Default::default()
                    },
                ],
                rearports: vec![],
                frontports: vec![],
                platform: Some(PlatformRecord { name: "routeros".to_string() }),
                serial: "ABC123".to_string(),
                custom_field_data: JSON::default(),
            },
            DeviceRecord {
                id: "101".to_string(),
                name: None,
                tenant: Some(id("1")),
                site: PlaceRecord { tenant: Some(id("3")) },
                interfaces: vec![InterfaceRecord {
                    id: "20".to_string(),
                    name: "wifi1".to_string(),
                    type_: "ieee802.11ac".to_string(),
                    untagged_vlan: Some(id("30")),
                    ..Default::default()
                }],
                rearports: vec![RearPortRecord { id: "40".to_string(), name: "R1".to_string() }],
                frontports: vec![
                    FrontPortRecord {
                        id: "50".to_string(),
                        name: "F1".to_string(),
                        rear_port: id("40"),
                    },
                    FrontPortRecord {
                        id: "51".to_string(),
                        name: "F2".to_string(),
                        rear_port: id("41"),
                    },
                ],
                platform: Some(PlatformRecord { name: "other".to_string() }),
                serial: String::new(),
                custom_field_data: JSON { wlan_group: Some(5), ..Default::default() },
                ..Default::default()
            },
            DeviceRecord { id: "?".to_string(), ..Default::default() },
        ],
        l2vpn_list: vec![
            L2vpnRecord {
                id: "70".to_string(),
                type_: "vxlan".to_string(),
                identifier: Some(5000),
                name: "Office".to_string(),
                terminations: vec![
                    AssignedObject::VLANType(id("31")),
                    AssignedObject::InterfaceType(id("20")),
                    AssignedObject::InterfaceType(id("10")),
                    AssignedObject::VMInterfaceType,
                    AssignedObject::VLANType(id("30")),
                ],
            },
            L2vpnRecord {
                id: "71".to_string(),
                type_: "vpls".to_string(),
                identifier: Some(1),
                ..Default::default()
            },
            L2vpnRecord { id: "72".to_string(), type_: "vxlan".to_string(), ..Default::default() },
        ],
        vlan_group_list: vec![VlanGroupRecord {
            id: "3".to_string(),
            vlans: vec![
                VlanRecord { id: "31".to_string(), name: "office".to_string(), vid: 20 },
                VlanRecord { id: "30".to_string(), name: "mgmt".to_string(), vid: 10 },
                VlanRecord { id: "30".to_string(), name: "mgmt again".to_string(), vid: 65546 },
            ],
        }],
        cable_list: vec![
            CableRecord {
                id: "90".to_string(),
                a_terminations: vec![
                    CableConnectionTermination::InterfaceType { id: "10".to_string() },
                    CableConnectionTermination::PowerPortType,
                ],
                b_terminations: vec![
                    CableConnectionTermination::FrontPortType { id: "50".to_string() },
                    CableConnectionTermination::RearPortType { id: "99".to_string() },
                ],
            },
            CableRecord {
                id: "91".to_string(),
                a_terminations: vec![CableConnectionTermination::RearPortType {
                    id: "40".to_string(),
                }],
                b_terminations: vec![CableConnectionTermination::InterfaceType {
                    id: "10".to_string(),
                }],
            },
        ],
        prefix_list: vec![
            PrefixRecord { id: "200".to_string(), prefix: "10.0.0.0/8".to_string() },
            PrefixRecord { id: "201".to_string(), prefix: "10.1.0.0/16".to_string() },
            PrefixRecord { id: "202".to_string(), prefix: "10.1.2.0/24".to_string() },
            PrefixRecord { id: "203".to_string(), prefix: "10.2.3.0/24".to_string() },
            PrefixRecord { id: "204".to_string(), prefix: "192.168.0.0/16".to_string() },
            PrefixRecord { id: "205".to_string(), prefix: "fd00::/16".to_string() },
            PrefixRecord { id: "206".to_string(), prefix: "fd00:1::/32".to_string() },
            PrefixRecord { id: "207".to_string(), prefix: "not a prefix".to_string() },
        ],
        ip_range_list: vec![
            IpRangeRecord {
                id: "300".to_string(),
                role: Some(RoleRecord { slug: "dhcp".to_string() }),
                start_address: "10.1.2.100/24".to_string(),
                end_address: "10.1.2.200/24".to_string(),
            },
            IpRangeRecord {
                id: "301".to_string(),
                role: None,
                start_address: "10.1.2.250/24".to_string(),
                end_address: "10.1.3.10/24".to_string(),
            },
            IpRangeRecord {
                id: "302".to_string(),
                role: Some(RoleRecord { slug: "static".to_string() }),
                start_address: "172.16.0.1/24".to_string(),
                end_address: "172.16.0.9/24".to_string(),
            },
        ],
        ip_address_list: vec![
            IpAddressRecord { id: "1001".to_string(), address: "10.1.2.1/24".to_string() },
            IpAddressRecord { id: "1002".to_string(), address: "10.255.0.1/32".to_string() },
            IpAddressRecord { id: "1004".to_string(), address: "fd00:1::5/32".to_string() },
            IpAddressRecord { id: "1005".to_string(), address: "10.1.2.3".to_string() },
        ],
    }
}

#[test]
fn snapshot_devices_and_ports() {
    let t = build_topology(&inventory());
    let mut ids: Vec<u32> = t.devices.keys().copied().collect();
    ids.sort();
    assert_eq!(ids, vec![100, 101]);
    let core = &t.devices[&100];
    assert_eq!(core.name, "Core Router");
    assert_eq!(
        core.ports,
        vec![
            CablePort::Interface(InterfaceId(10)),
            CablePort::Interface(InterfaceId(11)),
            CablePort::Interface(InterfaceId(12)),
        ]
    );
    assert_eq!(core.primary_ip, Some(IpAddressId(1001)));
    assert_eq!(core.primary_ip_v4, Some(IpAddressId(1001)));
    assert_eq!(core.primary_ip_v6, None);
    assert_eq!(core.loopback_ip, Some(IpAddressId(1002)));
    assert_eq!(core.credentials, Some("site".to_string()));
    assert!(core.has_routeros);
    assert_eq!(core.serial, Some("ABC123".to_string()));
    assert_eq!(core.wlan_controller_of, Some(WlanGroupId(5)));
    assert_eq!(core.wlan_ap_of, None);
    assert!(core.vlans.is_empty());
    let ap = &t.devices[&101];
    assert_eq!(ap.name, "");
    assert_eq!(ap.credentials, Some("office".to_string()));
    assert!(!ap.has_routeros);
    assert_eq!(ap.serial, None);
    assert_eq!(ap.wlan_ap_of, Some(WlanGroupId(5)));
    assert_eq!(ap.vlans, vec![VlanId(30)]);
    assert_eq!(
        ap.ports,
        vec![
            CablePort::Interface(InterfaceId(20)),
            CablePort::RearPort(RearPortId(40)),
            CablePort::FrontPort(FrontPortId(50)),
            CablePort::FrontPort(FrontPortId(51)),
        ]
    );
    let uplink = &t.interfaces[&10];
    assert_eq!(uplink.name, "ether1");
    assert_eq!(uplink.label, "Uplink");
    assert_eq!(uplink.device, DeviceId(100));
    assert_eq!(uplink.external, Some(PhysicalPortId::Ethernet(1)));
    assert_eq!(uplink.port_type, Some(PortType::Ethernet));
    assert_eq!(uplink.vlan, Some(VlanId(30)));
    assert_eq!(uplink.tagged_vlans, vec![VlanId(31)]);
    assert_eq!(uplink.ips, vec![IpAddressId(1001)]);
    assert!(uplink.use_ospf);
    assert!(uplink.enable_dhcp_server);
    assert!(!uplink.enable_dhcp_client);
    assert_eq!(uplink.bridge, Some(InterfaceId(12)));
    assert!(uplink.enable_poe);
    assert_eq!(uplink.cable, Some(CableId(91)));
    let bridge = &t.interfaces[&12];
    assert_eq!(bridge.port_type, Some(PortType::Bridge));
    assert!(bridge.enable_dhcp_client);
    assert!(!bridge.enable_poe);
    assert_eq!(bridge.external, None);
    assert_eq!(t.interfaces[&11].external, Some(PhysicalPortId::Loopback));
    assert_eq!(t.interfaces[&11].port_type, Some(PortType::Loopback));
    assert_eq!(t.interfaces[&20].port_type, Some(PortType::Wireless));
    assert_eq!(t.interfaces.len(), 4);
    assert_eq!(t.rear_ports[&40].front_port, Some(FrontPortId(50)));
    assert_eq!(t.rear_ports[&40].cable, Some(CableId(91)));
    assert_eq!(t.rear_ports[&40].name, "R1");
    assert_eq!(t.front_ports[&50].rear_port, Some(RearPortId(40)));
    assert_eq!(t.front_ports[&50].cable, Some(CableId(90)));
    assert_eq!(t.front_ports[&51].rear_port, Some(RearPortId(41)));
    assert_eq!(t.front_ports[&51].cable, None);
    assert_eq!(t.cables[&90].port_a, vec![CablePort::Interface(InterfaceId(10))]);
    assert_eq!(
        t.cables[&90].port_b,
        vec![CablePort::FrontPort(FrontPortId(50)), CablePort::RearPort(RearPortId(99))]
    );
}

#[test]
fn snapshot_vlans_and_wireless() {
    let t = build_topology(&inventory());
    assert_eq!(t.wlan_groups.len(), 1);
    let group = &t.wlan_groups[&5];
    assert_eq!(group.controller, DeviceId(100));
    assert_eq!(group.mgmt_vlan, Some(VlanId(30)));
    assert_eq!(group.aps, vec![DeviceId(101)]);
    assert_eq!(group.wlans, vec![WlanId(7), WlanId(9)]);
    assert_eq!(t.wlans.len(), 2);
    assert_eq!(t.wlans[&7].wlan_auth, WlanAuth::Open(WlanOpenSettings { use_owe: true }));
    assert_eq!(
        t.wlans[&9].wlan_auth,
        WlanAuth::Wpa(WlanWpaSettings { key: "SECRET-REDACTED".to_string() })
    );
    assert_eq!(t.wlans[&9].ssid, "office");
    assert_eq!(t.wlans[&9].vlan, Some(VlanId(31)));
    assert_eq!(t.wlans[&9].wlan_group, WlanGroupId(5));
    assert_eq!(t.vxlans.len(), 1);
    let vxlan = &t.vxlans[&70];
    assert_eq!(vxlan.name, "Office");
    assert_eq!(vxlan.vni, 5000);
    assert_eq!(vxlan.interface_terminations, vec![InterfaceId(10), InterfaceId(20)]);
    assert_eq!(vxlan.vlan_terminations, vec![VlanId(30), VlanId(31)]);
    assert_eq!(t.vlan_groups[&3].vlans, vec![VlanId(30), VlanId(31)]);
    let office = &t.vlans[&31];
    assert_eq!(office.name, "office");
    assert_eq!(office.vlan_id, 20);
    assert_eq!(office.group, VlanGroupId(3));
    assert_eq!(office.vxlan, Some(VxlanId(70)));
    assert_eq!(office.wlans, vec![WlanId(7), WlanId(9)]);
    assert!(office.terminations.is_empty());
    let mgmt = &t.vlans[&30];
    assert_eq!(mgmt.name, "mgmt again");
    assert_eq!(mgmt.vlan_id, 10);
    assert!(mgmt.terminations.is_empty());
    assert!(mgmt.wlans.is_empty());
}

#[test]
fn snapshot_prefixes_ranges_and_addresses() {
    let t = build_topology(&inventory());
    assert_eq!(t.ip_prefixes.len(), 7);
    assert_eq!(t.ip_prefixes[&200].parent, None);
    assert_eq!(t.ip_prefixes[&200].children, vec![IpPrefixId(201), IpPrefixId(203)]);
    assert_eq!(t.ip_prefixes[&201].parent, Some(IpPrefixId(200)));
    assert_eq!(t.ip_prefixes[&201].children, vec![IpPrefixId(202)]);
    assert_eq!(t.ip_prefixes[&202].parent, Some(IpPrefixId(201)));
    assert_eq!(t.ip_prefixes[&203].parent, Some(IpPrefixId(200)));
    assert_eq!(t.ip_prefixes[&204].parent, None);
    assert_eq!(t.ip_prefixes[&205].children, vec![IpPrefixId(206)]);
    assert_eq!(t.ip_prefixes[&206].parent, Some(IpPrefixId(205)));
    assert_eq!(t.ip_prefixes[&202].prefix, net4(10, 1, 2, 0, 24));
    assert_eq!(t.ip_prefixes[&202].ranges, vec![IpRangeId(300)]);
    assert_eq!(t.ip_prefixes[&202].addresses, vec![IpAddressId(1001)]);
    assert_eq!(t.ip_prefixes[&206].addresses, vec![IpAddressId(1004)]);
    assert_eq!(t.ip_ranges.len(), 2);
    let range = &t.ip_ranges[&300];
    assert!(range.is_dhcp);
    assert_eq!(range.net, net4(10, 1, 2, 0, 24));
    assert_eq!(range.start, IpAddr::V4(Ipv4Addr::new(10, 1, 2, 100)));
    assert_eq!(range.end, IpAddr::V4(Ipv4Addr::new(10, 1, 2, 200)));
    assert_eq!(range.prefix, Some(IpPrefixId(202)));
    assert!(!t.ip_ranges[&302].is_dhcp);
    assert_eq!(t.ip_ranges[&302].prefix, None);
    assert_eq!(t.ip_addresses.len(), 3);
    let address = &t.ip_addresses[&1001];
    assert_eq!(address.ip, net4(10, 1, 2, 1, 24));
    assert_eq!(address.interface, Some(InterfaceId(10)));
    assert_eq!(address.prefix, Some(IpPrefixId(202)));
    assert_eq!(t.ip_addresses[&1002].interface, Some(InterfaceId(11)));
    assert_eq!(t.ip_addresses[&1002].prefix, None);
    assert_eq!(t.ip_addresses[&1004].interface, None);
    assert_eq!(
        t.ip_addresses[&1004].ip,
        IpNet::V6(Ipv6Net::new(Ipv6Addr(0xfd00_0001 << 96 | 5), 32).unwrap())
    );
}

#[test]
fn empty_inventory_gives_an_empty_snapshot() {
    let t = build_topology(&FetchTopology::default());
    assert!(t.devices.is_empty());
    assert!(t.interfaces.is_empty());
    assert!(t.ip_prefixes.is_empty());
    assert!(t.list_devices().is_empty());
}

#[test]
fn numbers_from_text() {
    assert_eq!(parse_id("0"), Some(0));
    assert_eq!(parse_id("42"), Some(42));
    assert_eq!(parse_id("+42"), Some(42));
    assert_eq!(parse_id("007"), Some(7));
    assert_eq!(parse_id("4294967295"), Some(u32::MAX));
    assert_eq!(parse_id("4294967296"), None);
    assert_eq!(parse_id("99999999999999999999999"), None);
    assert_eq!(parse_id(""), None);
    assert_eq!(parse_id("+"), None);
    assert_eq!(parse_id("-1"), None);
    assert_eq!(parse_id("-0"), None);
    assert_eq!(parse_id("1 "), None);
    assert_eq!(parse_id("12a"), None);
    assert_eq!(parse_id("++1"), None);
    assert_eq!(parse_id("٣"), None);
}

#[test]
fn networks_from_text() {
    assert_eq!(parse_ip_net("10.1.2.3/24"), Some(net4(10, 1, 2, 3, 24)));
    assert_eq!(parse_ip_net("0.0.0.0/0"), Some(net4(0, 0, 0, 0, 0)));
    assert_eq!(
        parse_ip_net("2001:db8::1/64"),
        Some(IpNet::V6(Ipv6Net::new(Ipv6Addr(0x2001_0db8 << 96 | 1), 64).unwrap()))
    );
    assert_eq!(parse_ip_net("10.1.2.3"), None);
    assert_eq!(parse_ip_net("10.1.2.3/33"), None);
    assert_eq!(parse_ip_net("10.1.2/24"), None);
    assert_eq!(parse_ip_net(""), None);
    assert_eq!(parse_ip_net("::/129"), None);
}

#[test]
fn parents_are_the_nearest_networks_above() {
    let idx = vec![
        (net4(10, 0, 0, 0, 8), IpPrefixId(1)),
        (net4(10, 1, 0, 0, 16), IpPrefixId(2)),
        (net4(10, 1, 0, 0, 16), IpPrefixId(3)),
        (net4(0, 0, 0, 0, 0), IpPrefixId(4)),
    ];
    assert_eq!(find_parent(&idx, net4(10, 1, 2, 0, 24)), Some(IpPrefixId(3)));
    assert_eq!(find_parent(&idx, net4(10, 1, 0, 0, 16)), Some(IpPrefixId(1)));
    assert_eq!(find_parent(&idx, net4(10, 0, 0, 0, 8)), Some(IpPrefixId(4)));
    assert_eq!(find_parent(&idx, net4(11, 0, 0, 0, 8)), Some(IpPrefixId(4)));
    assert_eq!(find_parent(&idx, net4(0, 0, 0, 0, 0)), None);
    assert_eq!(find_parent(&idx[..3].to_vec(), net4(192, 168, 0, 0, 24)), None);
}

#[test]
fn cable_ends() {
    assert_eq!(
        termination_2_cable_port(&CableConnectionTermination::InterfaceType { id: "5".to_string() }),
        Some(CablePort::Interface(InterfaceId(5)))
    );
    assert_eq!(
        termination_2_cable_port(&CableConnectionTermination::FrontPortType { id: "6".to_string() }),
        Some(CablePort::FrontPort(FrontPortId(6)))
    );
    assert_eq!(
        termination_2_cable_port(&CableConnectionTermination::RearPortType { id: "7".to_string() }),
        Some(CablePort::RearPort(RearPortId(7)))
    );
    assert_eq!(
        termination_2_cable_port(&CableConnectionTermination::RearPortType { id: "x".to_string() }),
        None
    );
    for other in [
        CableConnectionTermination::CircuitTerminationType,
        CableConnectionTermination::ConsolePortType,
        CableConnectionTermination::ConsoleServerPortType,
        CableConnectionTermination::PowerFeedType,
        CableConnectionTermination::PowerOutletType,
        CableConnectionTermination::PowerPortType,
    ] {
        assert_eq!(termination_2_cable_port(&other), None);
    }
}

#[test]
fn a_port_that_the_records_name_twice_is_listed_once() {
    let mut records = inventory();
    let first = records.device_list[0].interfaces[0].clone();
    records.device_list[0].interfaces.push(first);
    let again = build_topology(&records);
    let once = build_topology(&inventory());
    for (id, device) in &again.devices {
        let mut ports = device.ports.clone();
        ports.sort();
        ports.dedup();
        assert_eq!(ports.len(), device.ports.len());
        assert_eq!(device.ports.len(), once.devices[id].ports.len());
    }
}
