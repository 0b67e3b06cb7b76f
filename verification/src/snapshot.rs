//! The snapshot as the specifications see it: every name as its
//! characters and every list as a sequence.

use crate::ip::IpNet;
use crate::topology::Cable;
use crate::topology::CablePort;
use crate::topology::Device;
use crate::topology::DeviceId;
use crate::topology::FrontPort;
use crate::topology::FrontPortId;
use crate::topology::Interface;
use crate::topology::InterfaceId;
use crate::topology::IpAddressData;
use crate::topology::IpAddressId;
use crate::topology::IpPrefixData;
use crate::topology::IpPrefixId;
use crate::topology::IpRangeData;
use crate::topology::IpRangeId;
use crate::topology::CableId;
use crate::topology::PhysicalPortId;
use crate::topology::PortType;
use crate::topology::RearPort;
use crate::topology::RearPortId;
use crate::topology::Topology;
use crate::topology::VlanData;
use crate::topology::VlanGroupData;
use crate::topology::VlanGroupId;
use crate::topology::VlanId;
use crate::topology::VxlanData;
use crate::topology::VxlanId;
use crate::topology::WlanAuth;
use crate::topology::WlanData;
use crate::topology::WlanGroupData;
use crate::topology::WlanGroupId;
use crate::topology::WlanId;
use vstd::prelude::*;

verus! {

/// The name of an entity that may have none.
pub open spec fn text_of(s: Option<String>) -> Option<Seq<char>> {
    match s {
        Some(s) => Some(s@),
        None => None,
    }
}

pub struct DeviceView {
    pub name: Seq<char>,
    pub ports: Seq<CablePort>,
    pub primary_ip: Option<IpAddressId>,
    pub primary_ip_v4: Option<IpAddressId>,
    pub primary_ip_v6: Option<IpAddressId>,
    pub loopback_ip: Option<IpAddressId>,
    pub credentials: Option<Seq<char>>,
    pub has_routeros: bool,
    pub serial: Option<Seq<char>>,
    pub wlan_controller_of: Option<WlanGroupId>,
    pub wlan_ap_of: Option<WlanGroupId>,
    pub vlans: Seq<VlanId>,
}

impl View for Device {
    type V = DeviceView;

    open spec fn view(&self) -> DeviceView {
        DeviceView {
            name: self.name@,
            ports: self.ports@,
            primary_ip: self.primary_ip,
            primary_ip_v4: self.primary_ip_v4,
            primary_ip_v6: self.primary_ip_v6,
            loopback_ip: self.loopback_ip,
            credentials: text_of(self.credentials),
            has_routeros: self.has_routeros,
            serial: text_of(self.serial),
            wlan_controller_of: self.wlan_controller_of,
            wlan_ap_of: self.wlan_ap_of,
            vlans: self.vlans@,
        }
    }
}

pub struct InterfaceView {
    pub name: Seq<char>,
    pub label: Seq<char>,
    pub device: DeviceId,
    pub external: Option<PhysicalPortId>,
    pub port_type: Option<PortType>,
    pub vlan: Option<VlanId>,
    pub tagged_vlans: Seq<VlanId>,
    pub ips: Seq<IpAddressId>,
    pub use_ospf: bool,
    pub enable_dhcp_client: bool,
    pub enable_dhcp_server: bool,
    pub bridge: Option<InterfaceId>,
    pub cable: Option<CableId>,
    pub enable_poe: bool,
}

impl View for Interface {
    type V = InterfaceView;

    open spec fn view(&self) -> InterfaceView {
        InterfaceView {
            name: self.name@,
            label: self.label@,
            device: self.device,
            external: self.external,
            port_type: self.port_type,
            vlan: self.vlan,
            tagged_vlans: self.tagged_vlans@,
            ips: self.ips@,
            use_ospf: self.use_ospf,
            enable_dhcp_client: self.enable_dhcp_client,
            enable_dhcp_server: self.enable_dhcp_server,
            bridge: self.bridge,
            cable: self.cable,
            enable_poe: self.enable_poe,
        }
    }
}

pub struct FrontPortView {
    pub name: Seq<char>,
    pub device: DeviceId,
    pub rear_port: Option<RearPortId>,
    pub cable: Option<CableId>,
}

impl View for FrontPort {
    type V = FrontPortView;

    open spec fn view(&self) -> FrontPortView {
        FrontPortView {
            name: self.name@,
            device: self.device,
            rear_port: self.rear_port,
            cable: self.cable,
        }
    }
}

pub struct RearPortView {
    pub name: Seq<char>,
    pub device: DeviceId,
    pub front_port: Option<FrontPortId>,
    pub cable: Option<CableId>,
}

impl View for RearPort {
    type V = RearPortView;

    open spec fn view(&self) -> RearPortView {
        RearPortView {
            name: self.name@,
            device: self.device,
            front_port: self.front_port,
            cable: self.cable,
        }
    }
}

pub struct CableView {
    pub port_a: Seq<CablePort>,
    pub port_b: Seq<CablePort>,
}

impl View for Cable {
    type V = CableView;

    open spec fn view(&self) -> CableView {
        CableView { port_a: self.port_a@, port_b: self.port_b@ }
    }
}

pub struct VxlanDataView {
    pub name: Seq<char>,
    pub vni: u32,
    pub interface_terminations: Seq<InterfaceId>,
    pub vlan_terminations: Seq<VlanId>,
}

impl View for VxlanData {
    type V = VxlanDataView;

    open spec fn view(&self) -> VxlanDataView {
        VxlanDataView {
            name: self.name@,
            vni: self.vni,
            interface_terminations: self.interface_terminations@,
            vlan_terminations: self.vlan_terminations@,
        }
    }
}

pub struct VlanDataView {
    pub name: Seq<char>,
    pub vlan_id: u16,
    pub group: VlanGroupId,
    pub terminations: Seq<InterfaceId>,
    pub vxlan: Option<VxlanId>,
    pub wlans: Seq<WlanId>,
}

impl View for VlanData {
    type V = VlanDataView;

    open spec fn view(&self) -> VlanDataView {
        VlanDataView {
            name: self.name@,
            vlan_id: self.vlan_id,
            group: self.group,
            terminations: self.terminations@,
            vxlan: self.vxlan,
            wlans: self.wlans@,
        }
    }
}

pub struct WlanGroupDataView {
    pub mgmt_vlan: Option<VlanId>,
    pub controller: DeviceId,
    pub aps: Seq<DeviceId>,
    pub wlans: Seq<WlanId>,
}

impl View for WlanGroupData {
    type V = WlanGroupDataView;

    open spec fn view(&self) -> WlanGroupDataView {
        WlanGroupDataView {
            mgmt_vlan: self.mgmt_vlan,
            controller: self.controller,
            aps: self.aps@,
            wlans: self.wlans@,
        }
    }
}

pub struct VlanGroupDataView {
    pub vlans: Seq<VlanId>,
}

impl View for VlanGroupData {
    type V = VlanGroupDataView;

    open spec fn view(&self) -> VlanGroupDataView {
        VlanGroupDataView { vlans: self.vlans@ }
    }
}

/// How a wireless network is secured.
pub enum WlanAuthView {
    Wpa { key: Seq<char> },
    Open { use_owe: bool },
}

impl View for WlanAuth {
    type V = WlanAuthView;

    open spec fn view(&self) -> WlanAuthView {
        match self {
            WlanAuth::Wpa(w) => WlanAuthView::Wpa { key: w.key@ },
            WlanAuth::Open(o) => WlanAuthView::Open { use_owe: o.use_owe },
        }
    }
}

pub struct WlanDataView {
    pub ssid: Seq<char>,
    pub vlan: Option<VlanId>,
    pub wlan_auth: WlanAuthView,
    pub wlan_group: WlanGroupId,
}

impl View for WlanData {
    type V = WlanDataView;

    open spec fn view(&self) -> WlanDataView {
        WlanDataView {
            ssid: self.ssid@,
            vlan: self.vlan,
            wlan_auth: self.wlan_auth@,
            wlan_group: self.wlan_group,
        }
    }
}

pub struct IpPrefixDataView {
    pub prefix: IpNet,
    pub addresses: Seq<IpAddressId>,
    pub children: Seq<IpPrefixId>,
    pub parent: Option<IpPrefixId>,
    pub ranges: Seq<IpRangeId>,
}

impl View for IpPrefixData {
    type V = IpPrefixDataView;

    open spec fn view(&self) -> IpPrefixDataView {
        IpPrefixDataView {
            prefix: self.prefix,
            addresses: self.addresses@,
            children: self.children@,
            parent: self.parent,
            ranges: self.ranges@,
        }
    }
}

/// The entries of a table as the specifications see them.
pub open spec fn table_view<T: View>(m: Map<u32, T>) -> Map<u32, T::V> {
    Map::new(|k: u32| m.contains_key(k), |k: u32| m[k]@)
}

/// A snapshot as the specifications see it.
pub struct TopologyView {
    pub devices: Map<u32, DeviceView>,
    pub interfaces: Map<u32, InterfaceView>,
    pub front_ports: Map<u32, FrontPortView>,
    pub rear_ports: Map<u32, RearPortView>,
    pub cables: Map<u32, CableView>,
    pub vxlans: Map<u32, VxlanDataView>,
    pub wlan_groups: Map<u32, WlanGroupDataView>,
    pub wlans: Map<u32, WlanDataView>,
    pub vlan_groups: Map<u32, VlanGroupDataView>,
    pub vlans: Map<u32, VlanDataView>,
    pub ip_addresses: Map<u32, IpAddressData>,
    pub ip_prefixes: Map<u32, IpPrefixDataView>,
    pub ip_ranges: Map<u32, IpRangeData>,
}

impl View for Topology {
    type V = TopologyView;

    open spec fn view(&self) -> TopologyView {
        TopologyView {
            devices: table_view(self.devices@),
            interfaces: table_view(self.interfaces@),
            front_ports: table_view(self.front_ports@),
            rear_ports: table_view(self.rear_ports@),
            cables: table_view(self.cables@),
            vxlans: table_view(self.vxlans@),
            wlan_groups: table_view(self.wlan_groups@),
            wlans: table_view(self.wlans@),
            vlan_groups: table_view(self.vlan_groups@),
            vlans: table_view(self.vlans@),
            ip_addresses: self.ip_addresses@,
            ip_prefixes: table_view(self.ip_prefixes@),
            ip_ranges: self.ip_ranges@,
        }
    }
}

/// Putting an entry into a table puts what the specifications see of it
/// into what they see of the table.
pub proof fn lemma_table_insert<T: View>(m: Map<u32, T>, k: u32, v: T)
    ensures
        table_view(m.insert(k, v)) == table_view(m).insert(k, v@),
{
    assert(table_view(m.insert(k, v)) =~= table_view(m).insert(k, v@));
}

} // verus!
