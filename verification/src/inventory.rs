//! The records of the inventory as they come from the inventory service.
//!
//! Ids come as text. A record whose id is not a number is left out of the
//! snapshot.

use vstd::prelude::*;

verus! {

/// A reference to a record by its id.
#[derive(Debug, Clone, PartialEq, Eq, Default)]
pub struct IdRef {
    pub id: String,
}

/// The custom fields of a record.
#[derive(Debug, Clone, PartialEq, Eq, Default)]
pub struct JSON {
    pub mikrotik_credentials: Option<String>,
    pub wlan_group: Option<u32>,
    pub wlan_mgmt: Option<u32>,
    pub controller: Option<u32>,
}

#[derive(Debug, Clone, PartialEq, Eq, Default)]
pub struct TenantRecord {
    pub id: String,
    pub custom_field_data: JSON,
}

#[derive(Debug, Clone, PartialEq, Eq, Default)]
pub struct WirelessLanRecord {
    pub id: String,
    pub vlan: Option<IdRef>,
    pub auth_type: Option<String>,
    pub auth_psk: String,
    pub ssid: String,
}

#[derive(Debug, Clone, PartialEq, Eq, Default)]
pub struct WirelessLanGroupRecord {
    pub id: String,
    pub custom_fields: JSON,
    pub wireless_lans: Vec<WirelessLanRecord>,
}

#[derive(Debug, Clone, PartialEq, Eq, Default)]
pub struct TagRecord {
    pub slug: String,
}

#[derive(Debug, Clone, PartialEq, Eq, Default)]
pub struct InterfaceRecord {
    pub id: String,
    pub name: String,
    pub label: String,
    pub type_: String,
    pub ip_addresses: Vec<IdRef>,
    pub tags: Vec<TagRecord>,
    pub untagged_vlan: Option<IdRef>,
    pub tagged_vlans: Vec<IdRef>,
    pub bridge: Option<IdRef>,
    pub poe_mode: Option<String>,
}

#[derive(Debug, Clone, PartialEq, Eq, Default)]
pub struct RearPortRecord {
    pub id: String,
    pub name: String,
}

#[derive(Debug, Clone, PartialEq, Eq, Default)]
pub struct FrontPortRecord {
    pub id: String,
    pub name: String,
    pub rear_port: IdRef,
}

/// A place that may belong to a tenant.
#[derive(Debug, Clone, PartialEq, Eq, Default)]
pub struct PlaceRecord {
    pub tenant: Option<IdRef>,
}

#[derive(Debug, Clone, PartialEq, Eq, Default)]
pub struct PlatformRecord {
    pub name: String,
}

#[derive(Debug, Clone, PartialEq, Eq, Default)]
pub struct DeviceRecord {
    pub id: String,
    pub name: Option<String>,
    pub tenant: Option<IdRef>,
    pub location: Option<PlaceRecord>,
    pub site: PlaceRecord,
    pub primary_ip4: Option<IdRef>,
    pub primary_ip6: Option<IdRef>,
    pub interfaces: Vec<InterfaceRecord>,
    pub rearports: Vec<RearPortRecord>,
    pub frontports: Vec<FrontPortRecord>,
    pub platform: Option<PlatformRecord>,
    pub serial: String,
    pub custom_field_data: JSON,
}

/// What a layer 2 VPN ends on.
#[derive(Debug, Clone, PartialEq, Eq)]
pub enum AssignedObject {
    InterfaceType(IdRef),
    VLANType(IdRef),
    VMInterfaceType,
}

#[derive(Debug, Clone, PartialEq, Eq, Default)]
pub struct L2vpnRecord {
    pub id: String,
    pub type_: String,
    pub identifier: Option<i64>,
    pub name: String,
    pub terminations: Vec<AssignedObject>,
}

#[derive(Debug, Clone, PartialEq, Eq, Default)]
pub struct VlanRecord {
    pub id: String,
    pub name: String,
    pub vid: i64,
}

#[derive(Debug, Clone, PartialEq, Eq, Default)]
pub struct VlanGroupRecord {
    pub id: String,
    pub vlans: Vec<VlanRecord>,
}

/// What a cable ends in.
#[derive(Debug, Clone, PartialEq, Eq)]
pub enum CableConnectionTermination {
    CircuitTerminationType,
    ConsolePortType,
    ConsoleServerPortType,
    FrontPortType { id: String },
    InterfaceType { id: String },
    PowerFeedType,
    PowerOutletType,
    PowerPortType,
    RearPortType { id: String },
}

#[derive(Debug, Clone, PartialEq, Eq, Default)]
pub struct CableRecord {
    pub id: String,
    pub a_terminations: Vec<CableConnectionTermination>,
    pub b_terminations: Vec<CableConnectionTermination>,
}

#[derive(Debug, Clone, PartialEq, Eq, Default)]
pub struct PrefixRecord {
    pub id: String,
    pub prefix: String,
}

#[derive(Debug, Clone, PartialEq, Eq, Default)]
pub struct RoleRecord {
    pub slug: String,
}

#[derive(Debug, Clone, PartialEq, Eq, Default)]
pub struct IpRangeRecord {
    pub id: String,
    pub role: Option<RoleRecord>,
    pub start_address: String,
    pub end_address: String,
}

#[derive(Debug, Clone, PartialEq, Eq, Default)]
pub struct IpAddressRecord {
    pub id: String,
    pub address: String,
}

/// Everything that the inventory service tells.
#[derive(Debug, Clone, PartialEq, Eq, Default)]
pub struct FetchTopology {
    pub tenant_list: Vec<TenantRecord>,
    pub wireless_lan_group_list: Vec<WirelessLanGroupRecord>,
    pub device_list: Vec<DeviceRecord>,
    pub l2vpn_list: Vec<L2vpnRecord>,
    pub vlan_group_list: Vec<VlanGroupRecord>,
    pub cable_list: Vec<CableRecord>,
    pub prefix_list: Vec<PrefixRecord>,
    pub ip_range_list: Vec<IpRangeRecord>,
    pub ip_address_list: Vec<IpAddressRecord>,
}

} // verus!
