//! Handles on the entities of a snapshot.
//!
//! A handle is a snapshot together with an id. It answers for an id that
//! the snapshot does not hold as for an entity with nothing in it.

use crate::ip::IpAddr;
use crate::ip::IpNet;
use crate::topology::Cable;
use crate::topology::CableId;
use crate::topology::CablePort;
use crate::topology::Device;
use crate::topology::DeviceId;
use crate::topology::FrontPort;
use crate::topology::FrontPortId;
use crate::topology::Interface;
use crate::topology::InterfaceId;
use crate::topology::IpAddressData;
use crate::topology::IpAddressId;
use crate::topology::IpPrefixData;
use crate::topology::IpPrefixId;
use crate::topology::IpRangeData;
use crate::topology::IpRangeId;
use crate::topology::PhysicalPortId;
use crate::topology::RearPort;
use crate::topology::RearPortId;
use crate::topology::Topology;
use crate::topology::VlanData;
use crate::topology::VlanId;
use crate::topology::VxlanData;
use crate::topology::VxlanId;
use crate::topology::WlanData;
use crate::topology::WlanGroupData;
use crate::topology::WlanGroupId;
use crate::topology::WlanId;
use vstd::prelude::*;
use vstd::std_specs::hash::*;
use vstd::std_specs::iter::IteratorSpec;
use vstd::string::*;

verus! {

broadcast use vstd::std_specs::hash::group_hash_axioms;

#[derive(Clone, Copy, Debug)]
pub struct DeviceAccess<'a> {
    pub topology: &'a Topology,
    pub id: DeviceId,
}

#[derive(Clone, Copy, Debug)]
pub struct InterfaceAccess<'a> {
    pub topology: &'a Topology,
    pub id: InterfaceId,
}

#[derive(Clone, Copy, Debug)]
pub struct FrontPortAccess<'a> {
    pub topology: &'a Topology,
    pub id: FrontPortId,
}

#[derive(Clone, Copy, Debug)]
pub struct RearPortAccess<'a> {
    pub topology: &'a Topology,
    pub id: RearPortId,
}

#[derive(Clone, Copy, Debug)]
pub struct CableAccess<'a> {
    pub topology: &'a Topology,
    pub id: CableId,
}

#[derive(Clone, Copy, Debug)]
pub struct VlanAccess<'a> {
    pub topology: &'a Topology,
    pub id: VlanId,
}

#[derive(Clone, Copy, Debug)]
pub struct VxlanAccess<'a> {
    pub topology: &'a Topology,
    pub id: VxlanId,
}

#[derive(Clone, Copy, Debug)]
pub struct WlanAccess<'a> {
    pub topology: &'a Topology,
    pub id: WlanId,
}

#[derive(Clone, Copy, Debug)]
pub struct WlanGroupAccess<'a> {
    pub topology: &'a Topology,
    pub id: WlanGroupId,
}

#[derive(Clone, Copy, Debug)]
pub struct IpAddressAccess<'a> {
    pub topology: &'a Topology,
    pub id: IpAddressId,
}

#[derive(Clone, Copy, Debug)]
pub struct IpPrefixAccess<'a> {
    pub topology: &'a Topology,
    pub id: IpPrefixId,
}

#[derive(Clone, Copy, Debug)]
pub struct IpRangeAccess<'a> {
    pub topology: &'a Topology,
    pub id: IpRangeId,
}

/// The ids of the interfaces among the ports, in their order.
pub open spec fn interface_ids(ports: Seq<CablePort>) -> Seq<InterfaceId>
    decreases ports.len(),
{
    if ports.len() == 0 {
        Seq::empty()
    } else {
        match ports.last() {
            CablePort::Interface(id) => interface_ids(ports.drop_last()).push(id),
            _ => interface_ids(ports.drop_last()),
        }
    }
}

impl Topology {
    pub open spec fn spec_device(&self, id: DeviceId) -> Option<Device> {
        if self.devices@.contains_key(id.0) {
            Some(self.devices@[id.0])
        } else {
            None
        }
    }

    pub open spec fn spec_interface(&self, id: InterfaceId) -> Option<Interface> {
        if self.interfaces@.contains_key(id.0) {
            Some(self.interfaces@[id.0])
        } else {
            None
        }
    }

    pub open spec fn spec_front_port(&self, id: FrontPortId) -> Option<FrontPort> {
        if self.front_ports@.contains_key(id.0) {
            Some(self.front_ports@[id.0])
        } else {
            None
        }
    }

    pub open spec fn spec_rear_port(&self, id: RearPortId) -> Option<RearPort> {
        if self.rear_ports@.contains_key(id.0) {
            Some(self.rear_ports@[id.0])
        } else {
            None
        }
    }

    pub open spec fn spec_cable(&self, id: CableId) -> Option<Cable> {
        if self.cables@.contains_key(id.0) {
            Some(self.cables@[id.0])
        } else {
            None
        }
    }

    pub open spec fn spec_vlan(&self, id: VlanId) -> Option<VlanData> {
        if self.vlans@.contains_key(id.0) {
            Some(self.vlans@[id.0])
        } else {
            None
        }
    }

    pub open spec fn spec_vxlan(&self, id: VxlanId) -> Option<VxlanData> {
        if self.vxlans@.contains_key(id.0) {
            Some(self.vxlans@[id.0])
        } else {
            None
        }
    }

    pub open spec fn spec_wlan(&self, id: WlanId) -> Option<WlanData> {
        if self.wlans@.contains_key(id.0) {
            Some(self.wlans@[id.0])
        } else {
            None
        }
    }

    pub open spec fn spec_wlan_group(&self, id: WlanGroupId) -> Option<WlanGroupData> {
        if self.wlan_groups@.contains_key(id.0) {
            Some(self.wlan_groups@[id.0])
        } else {
            None
        }
    }

    pub open spec fn spec_ip_address(&self, id: IpAddressId) -> Option<IpAddressData> {
        if self.ip_addresses@.contains_key(id.0) {
            Some(self.ip_addresses@[id.0])
        } else {
            None
        }
    }

    pub open spec fn spec_ip_prefix(&self, id: IpPrefixId) -> Option<IpPrefixData> {
        if self.ip_prefixes@.contains_key(id.0) {
            Some(self.ip_prefixes@[id.0])
        } else {
            None
        }
    }

    pub open spec fn spec_ip_range(&self, id: IpRangeId) -> Option<IpRangeData> {
        if self.ip_ranges@.contains_key(id.0) {
            Some(self.ip_ranges@[id.0])
        } else {
            None
        }
    }

    /// The ids of the interfaces of a device, in the order of its ports.
    pub open spec fn spec_interfaces_of(&self, id: DeviceId) -> Seq<InterfaceId> {
        match self.spec_device(id) {
            Some(d) => interface_ids(d.ports@),
            None => Seq::empty(),
        }
    }

    /// The handle on a device, where the snapshot holds it.
    pub fn get_device_by_id(&self, id: &DeviceId) -> (r: Option<DeviceAccess<'_>>)
        ensures
            r is Some <==> self.spec_device(*id) is Some,
            r matches Some(a) ==> a.id == *id && *a.topology == *self,
    {
        if self.devices.contains_key(&id.0) {
            Some(DeviceAccess { topology: self, id: *id })
        } else {
            None
        }
    }

    /// Handles on all devices, each once, in no particular order.
    pub fn list_devices(&self) -> (r: Vec<DeviceAccess<'_>>)
        ensures
            r@.len() == self.devices@.dom().len(),
            forall|i: int|
                0 <= i < r@.len() ==> *(#[trigger] r@[i]).topology == *self && self.spec_device(
                    r@[i].id,
                ) is Some,
            forall|i: int, j: int| 0 <= i < j < r@.len() ==> r@[i].id != r@[j].id,
            forall|id: DeviceId|
                self.spec_device(id) is Some ==> exists|i: int|
                    0 <= i < r@.len() && (#[trigger] r@[i]).id == id,
    {
        let mut out: Vec<DeviceAccess<'_>> = Vec::new();
        let keys = self.devices.keys();
        let ghost all = keys.remaining().unref();
        proof {
            assert(all.to_set() == self.devices@.dom());
        }
        for key in it: keys
            invariant
                all == it.seq().unref(),
                all.no_duplicates(),
                all.to_set() == self.devices@.dom(),
                all.len() == self.devices@.dom().len(),
                out@.len() == it.index(),
                forall|i: int|
                    0 <= i < out@.len() ==> *(#[trigger] out@[i]).topology == *self
                        && out@[i].id.0 == all[i],
        {
            out.push(DeviceAccess { topology: self, id: DeviceId(*key) });
        }
        proof {
            assert forall|i: int| 0 <= i < out@.len() implies self.spec_device(
                (#[trigger] out@[i]).id,
            ) is Some by {
                assert(all.to_set().contains(all[i]));
            }
            assert forall|id: DeviceId| self.spec_device(id) is Some implies exists|i: int|
                0 <= i < out@.len() && (#[trigger] out@[i]).id == id by {
                assert(all.to_set().contains(id.0));
                let i = choose|i: int| 0 <= i < all.len() && all[i] == id.0;
                assert(out@[i].id == id);
            }
        }
        out
    }
}

impl<'a> DeviceAccess<'a> {
    pub open spec fn spec_data(&self) -> Option<Device> {
        self.topology.spec_device(self.id)
    }

    fn data(&self) -> (r: Option<&'a Device>)
        ensures
            r is Some <==> self.spec_data() is Some,
            r matches Some(d) ==> *d == self.spec_data()->0,
    {
        self.topology.devices.get(&self.id.0)
    }

    pub fn id(&self) -> (r: DeviceId)
        ensures
            r == self.id,
    {
        self.id
    }

    /// The name of the device; empty for a device that the snapshot does not hold.
    pub fn name(&self) -> (r: &'a str)
        ensures
            r@ == (match self.spec_data() {
                Some(d) => d.name@,
                None => Seq::empty(),
            }),
    {
        match self.data() {
            Some(d) => d.name.as_str(),
            None => {
                proof {
                    reveal_strlit("");
                }
                ""
            },
        }
    }

    pub fn serial(&self) -> (r: Option<&'a str>)
        ensures
            r is Some <==> self.spec_data() is Some && self.spec_data()->0.serial is Some,
            r matches Some(s) ==> s@ == self.spec_data()->0.serial->0@,
    {
        match self.data() {
            Some(d) => match &d.serial {
                Some(s) => Some(s.as_str()),
                None => None,
            },
            None => None,
        }
    }

    pub open spec fn spec_primary_ip(&self) -> Option<IpAddressId> {
        match self.spec_data() {
            Some(d) => d.primary_ip,
            None => None,
        }
    }

    pub open spec fn spec_primary_ip_v4(&self) -> Option<IpAddressId> {
        match self.spec_data() {
            Some(d) => d.primary_ip_v4,
            None => None,
        }
    }

    pub open spec fn spec_primary_ip_v6(&self) -> Option<IpAddressId> {
        match self.spec_data() {
            Some(d) => d.primary_ip_v6,
            None => None,
        }
    }

    pub open spec fn spec_loopback_ip(&self) -> Option<IpAddressId> {
        match self.spec_data() {
            Some(d) => d.loopback_ip,
            None => None,
        }
    }

    pub open spec fn spec_wlan_ap_of(&self) -> Option<WlanGroupId> {
        match self.spec_data() {
            Some(d) => d.wlan_ap_of,
            None => None,
        }
    }

    pub open spec fn spec_wlan_controller_of(&self) -> Option<WlanGroupId> {
        match self.spec_data() {
            Some(d) => d.wlan_controller_of,
            None => None,
        }
    }

    pub fn primary_ip(&self) -> (r: Option<IpAddressAccess<'a>>)
        ensures
            r is Some <==> self.spec_primary_ip() is Some,
            r matches Some(a) ==> a.id == self.spec_primary_ip()->0 && a.topology == self.topology,
    {
        match self.data() {
            Some(d) => match d.primary_ip {
                Some(id) => Some(IpAddressAccess { topology: self.topology, id }),
                None => None,
            },
            None => None,
        }
    }

    pub fn primary_ip_v4(&self) -> (r: Option<IpAddressAccess<'a>>)
        ensures
            r is Some <==> self.spec_primary_ip_v4() is Some,
            r matches Some(a) ==> a.id == self.spec_primary_ip_v4()->0 && a.topology
                == self.topology,
    {
        match self.data() {
            Some(d) => match d.primary_ip_v4 {
                Some(id) => Some(IpAddressAccess { topology: self.topology, id }),
                None => None,
            },
            None => None,
        }
    }

    pub fn primary_ip_v6(&self) -> (r: Option<IpAddressAccess<'a>>)
        ensures
            r is Some <==> self.spec_primary_ip_v6() is Some,
            r matches Some(a) ==> a.id == self.spec_primary_ip_v6()->0 && a.topology
                == self.topology,
    {
        match self.data() {
            Some(d) => match d.primary_ip_v6 {
                Some(id) => Some(IpAddressAccess { topology: self.topology, id }),
                None => None,
            },
            None => None,
        }
    }

    pub fn loopback_ip(&self) -> (r: Option<IpAddressAccess<'a>>)
        ensures
            r is Some <==> self.spec_loopback_ip() is Some,
            r matches Some(a) ==> a.id == self.spec_loopback_ip()->0 && a.topology
                == self.topology,
    {
        match self.data() {
            Some(d) => match d.loopback_ip {
                Some(id) => Some(IpAddressAccess { topology: self.topology, id }),
                None => None,
            },
            None => None,
        }
    }

    pub fn has_routeros(&self) -> (r: bool)
        ensures
            r == (self.spec_data() is Some && self.spec_data()->0.has_routeros),
    {
        match self.data() {
            Some(d) => d.has_routeros,
            None => false,
        }
    }

    pub fn credentials(&self) -> (r: Option<&'a str>)
        ensures
            r is Some <==> self.spec_data() is Some && self.spec_data()->0.credentials is Some,
            r matches Some(s) ==> s@ == self.spec_data()->0.credentials->0@,
    {
        match self.data() {
            Some(d) => match &d.credentials {
                Some(s) => Some(s.as_str()),
                None => None,
            },
            None => None,
        }
    }

    /// Handles on the interfaces of the device, in the order of its ports.
    pub fn interfaces(&self) -> (r: Vec<InterfaceAccess<'a>>)
        ensures
            r@.len() == self.topology.spec_interfaces_of(self.id).len(),
            forall|i: int|
                0 <= i < r@.len() ==> (#[trigger] r@[i]).topology == self.topology && r@[i].id
                    == self.topology.spec_interfaces_of(self.id)[i],
    {
        let mut out: Vec<InterfaceAccess<'a>> = Vec::new();
        match self.data() {
            Some(d) => {
                let mut i: usize = 0;
                while i < d.ports.len()
                    invariant
                        i <= d.ports.len(),
                        out@.len() == interface_ids(d.ports@.take(i as int)).len(),
                        forall|k: int|
                            0 <= k < out@.len() ==> (#[trigger] out@[k]).topology == self.topology
                                && out@[k].id == interface_ids(d.ports@.take(i as int))[k],
                    decreases d.ports.len() - i,
                {
                    proof {
                        assert(d.ports@.take(i as int + 1).drop_last() =~= d.ports@.take(i as int));
                    }
                    match d.ports[i] {
                        CablePort::Interface(id) => {
                            out.push(InterfaceAccess { topology: self.topology, id });
                        },
                        _ => {},
                    }
                    i += 1;
                }
                proof {
                    assert(d.ports@.take(d.ports.len() as int) =~= d.ports@);
                }
            },
            None => {},
        }
        out
    }

    pub fn wlan_controller_of(&self) -> (r: Option<WlanGroupAccess<'a>>)
        ensures
            r is Some <==> self.spec_wlan_controller_of() is Some,
            r matches Some(a) ==> a.id == self.spec_wlan_controller_of()->0 && a.topology
                == self.topology,
    {
        match self.data() {
            Some(d) => match d.wlan_controller_of {
                Some(id) => Some(WlanGroupAccess { topology: self.topology, id }),
                None => None,
            },
            None => None,
        }
    }

    pub fn wlan_ap_of(&self) -> (r: Option<WlanGroupAccess<'a>>)
        ensures
            r is Some <==> self.spec_wlan_ap_of() is Some,
            r matches Some(a) ==> a.id == self.spec_wlan_ap_of()->0 && a.topology
                == self.topology,
    {
        match self.data() {
            Some(d) => match d.wlan_ap_of {
                Some(id) => Some(WlanGroupAccess { topology: self.topology, id }),
                None => None,
            },
            None => None,
        }
    }

    /// Handles on the VLANs that the device is a member of beyond those of
    /// its interfaces.
    pub fn vlans(&self) -> (r: Vec<VlanAccess<'a>>)
        ensures
            r@.len() == (match self.spec_data() {
                Some(d) => d.vlans@.len(),
                None => 0,
            }),
            forall|i: int|
                0 <= i < r@.len() ==> (#[trigger] r@[i]).topology == self.topology && r@[i].id
                    == self.spec_data()->0.vlans@[i],
    {
        match self.data() {
            Some(d) => vlan_handles(self.topology, &d.vlans),
            None => Vec::new(),
        }
    }
}

/// A handle for each id.
pub(crate) fn vlan_handles<'a>(topology: &'a Topology, ids: &Vec<VlanId>) -> (r: Vec<
    VlanAccess<'a>,
>)
    ensures
        r@.len() == ids@.len(),
        forall|i: int|
            0 <= i < r@.len() ==> (#[trigger] r@[i]).topology == topology && r@[i].id == ids@[i],
{
    let mut out: Vec<VlanAccess<'a>> = Vec::new();
    let mut i: usize = 0;
    while i < ids.len()
        invariant
            i <= ids.len(),
            out@.len() == i,
            forall|k: int|
                0 <= k < out@.len() ==> (#[trigger] out@[k]).topology == topology && out@[k].id
                    == ids@[k],
        decreases ids.len() - i,
    {
        out.push(VlanAccess { topology, id: ids[i] });
        i += 1;
    }
    out
}

impl<'a> InterfaceAccess<'a> {
    pub open spec fn spec_data(&self) -> Option<Interface> {
        self.topology.spec_interface(self.id)
    }

    fn data(&self) -> (r: Option<&'a Interface>)
        ensures
            r is Some <==> self.spec_data() is Some,
            r matches Some(d) ==> *d == self.spec_data()->0,
    {
        self.topology.interfaces.get(&self.id.0)
    }

    pub fn id(&self) -> (r: InterfaceId)
        ensures
            r == self.id,
    {
        self.id
    }

    pub open spec fn spec_name(&self) -> Seq<char> {
        match self.spec_data() {
            Some(d) => d.name@,
            None => Seq::empty(),
        }
    }

    /// The name of the interface; empty for one that the snapshot does not hold.
    pub fn name(&self) -> (r: &'a str)
        ensures
            r@ == self.spec_name(),
    {
        match self.data() {
            Some(d) => d.name.as_str(),
            None => {
                proof {
                    reveal_strlit("");
                }
                ""
            },
        }
    }

    pub open spec fn spec_cable(&self) -> Option<CableId> {
        match self.spec_data() {
            Some(d) => d.cable,
            None => None,
        }
    }

    pub fn cable(&self) -> (r: Option<CableAccess<'a>>)
        ensures
            r is Some <==> self.spec_cable() is Some,
            r matches Some(a) ==> a.id == self.spec_cable()->0 && a.topology == self.topology,
    {
        match self.data() {
            Some(d) => match d.cable {
                Some(id) => Some(CableAccess { topology: self.topology, id }),
                None => None,
            },
            None => None,
        }
    }

    /// The label of the interface, where it has one that is not empty.
    pub open spec fn spec_label(&self) -> Option<Seq<char>> {
        match self.spec_data() {
            Some(d) => if d.label@.len() > 0 {
                Some(d.label@)
            } else {
                None
            },
            None => None,
        }
    }

    pub fn label(&self) -> (r: Option<&'a str>)
        ensures
            r is Some <==> self.spec_label() is Some,
            r matches Some(l) ==> l@ == self.spec_label()->0,
    {
        match self.data() {
            Some(d) => if d.label.as_str().unicode_len() > 0 {
                Some(d.label.as_str())
            } else {
                None
            },
            None => None,
        }
    }

    pub open spec fn spec_use_ospf(&self) -> bool {
        self.spec_data() is Some && self.spec_data()->0.use_ospf
    }

    pub fn use_ospf(&self) -> (r: bool)
        ensures
            r == self.spec_use_ospf(),
    {
        match self.data() {
            Some(d) => d.use_ospf,
            None => false,
        }
    }

    pub open spec fn spec_enable_dhcp_client(&self) -> bool {
        self.spec_data() is Some && self.spec_data()->0.enable_dhcp_client
    }

    pub fn enable_dhcp_client(&self) -> (r: bool)
        ensures
            r == self.spec_enable_dhcp_client(),
    {
        match self.data() {
            Some(d) => d.enable_dhcp_client,
            None => false,
        }
    }

    pub open spec fn spec_enable_dhcp_server(&self) -> bool {
        self.spec_data() is Some && self.spec_data()->0.enable_dhcp_server
    }

    pub fn enable_dhcp_server(&self) -> (r: bool)
        ensures
            r == self.spec_enable_dhcp_server(),
    {
        match self.data() {
            Some(d) => d.enable_dhcp_server,
            None => false,
        }
    }

    pub open spec fn spec_external_port(&self) -> Option<PhysicalPortId> {
        match self.spec_data() {
            Some(d) => d.external,
            None => None,
        }
    }

    pub fn external_port(&self) -> (r: Option<PhysicalPortId>)
        ensures
            r == self.spec_external_port(),
    {
        match self.data() {
            Some(d) => d.external,
            None => None,
        }
    }

    pub fn is_ethernet_port(&self) -> (r: bool)
        ensures
            r == (self.spec_external_port() matches Some(p) && (p is Ethernet || p is SfpSfpPlus)),
    {
        match self.external_port() {
            Some(p) => p.is_ethernet(),
            None => false,
        }
    }

    pub fn device(&self) -> (r: Option<DeviceAccess<'a>>)
        ensures
            r is Some <==> self.spec_data() is Some,
            r matches Some(a) ==> a.id == self.spec_data()->0.device && a.topology
                == self.topology,
    {
        match self.data() {
            Some(d) => Some(DeviceAccess { topology: self.topology, id: d.device }),
            None => None,
        }
    }

    /// Handles on the addresses of the interface.
    pub fn ips(&self) -> (r: Vec<IpAddressAccess<'a>>)
        ensures
            r@.len() == (match self.spec_data() {
                Some(d) => d.ips@.len(),
                None => 0,
            }),
            forall|i: int|
                0 <= i < r@.len() ==> (#[trigger] r@[i]).topology == self.topology && r@[i].id
                    == self.spec_data()->0.ips@[i],
    {
        match self.data() {
            Some(d) => ip_address_handles(self.topology, &d.ips),
            None => Vec::new(),
        }
    }

    pub open spec fn spec_untagged_vlan(&self) -> Option<VlanId> {
        match self.spec_data() {
            Some(d) => d.vlan,
            None => None,
        }
    }

    pub fn untagged_vlan(&self) -> (r: Option<VlanAccess<'a>>)
        ensures
            r is Some <==> self.spec_untagged_vlan() is Some,
            r matches Some(a) ==> a.id == self.spec_untagged_vlan()->0 && a.topology
                == self.topology,
    {
        match self.data() {
            Some(d) => match d.vlan {
                Some(id) => Some(VlanAccess { topology: self.topology, id }),
                None => None,
            },
            None => None,
        }
    }

    pub open spec fn spec_tagged_vlans(&self) -> Seq<VlanId> {
        match self.spec_data() {
            Some(d) => d.tagged_vlans@,
            None => Seq::empty(),
        }
    }

    pub fn tagged_vlans(&self) -> (r: Vec<VlanAccess<'a>>)
        ensures
            r@.len() == self.spec_tagged_vlans().len(),
            forall|i: int|
                0 <= i < r@.len() ==> (#[trigger] r@[i]).topology == self.topology && r@[i].id
                    == self.spec_tagged_vlans()[i],
    {
        match self.data() {
            Some(d) => vlan_handles(self.topology, &d.tagged_vlans),
            None => Vec::new(),
        }
    }

    pub open spec fn spec_bridge(&self) -> Option<InterfaceId> {
        match self.spec_data() {
            Some(d) => d.bridge,
            None => None,
        }
    }

    pub fn bridge(&self) -> (r: Option<InterfaceAccess<'a>>)
        ensures
            r is Some <==> self.spec_bridge() is Some,
            r matches Some(a) ==> a.id == self.spec_bridge()->0 && a.topology == self.topology,
    {
        match self.data() {
            Some(d) => match d.bridge {
                Some(id) => Some(InterfaceAccess { topology: self.topology, id }),
                None => None,
            },
            None => None,
        }
    }

    pub open spec fn spec_enable_poe(&self) -> bool {
        self.spec_data() is Some && self.spec_data()->0.enable_poe
    }

    pub fn enable_poe(&self) -> (r: bool)
        ensures
            r == self.spec_enable_poe(),
    {
        match self.data() {
            Some(d) => d.enable_poe,
            None => false,
        }
    }
}

/// A handle for each id.
pub(crate) fn ip_address_handles<'a>(topology: &'a Topology, ids: &Vec<IpAddressId>) -> (r: Vec<
    IpAddressAccess<'a>,
>)
    ensures
        r@.len() == ids@.len(),
        forall|i: int|
            0 <= i < r@.len() ==> (#[trigger] r@[i]).topology == topology && r@[i].id == ids@[i],
{
    let mut out: Vec<IpAddressAccess<'a>> = Vec::new();
    let mut i: usize = 0;
    while i < ids.len()
        invariant
            i <= ids.len(),
            out@.len() == i,
            forall|k: int|
                0 <= k < out@.len() ==> (#[trigger] out@[k]).topology == topology && out@[k].id
                    == ids@[k],
        decreases ids.len() - i,
    {
        out.push(IpAddressAccess { topology, id: ids[i] });
        i += 1;
    }
    out
}

impl<'a> FrontPortAccess<'a> {
    pub open spec fn spec_data(&self) -> Option<FrontPort> {
        self.topology.spec_front_port(self.id)
    }

    fn data(&self) -> (r: Option<&'a FrontPort>)
        ensures
            r is Some <==> self.spec_data() is Some,
            r matches Some(d) ==> *d == self.spec_data()->0,
    {
        self.topology.front_ports.get(&self.id.0)
    }

    pub fn id(&self) -> (r: FrontPortId)
        ensures
            r == self.id,
    {
        self.id
    }

    pub fn name(&self) -> (r: Option<&'a str>)
        ensures
            r is Some <==> self.spec_data() is Some,
            r matches Some(s) ==> s@ == self.spec_data()->0.name@,
    {
        match self.data() {
            Some(d) => Some(d.name.as_str()),
            None => None,
        }
    }

    pub fn device(&self) -> (r: Option<DeviceAccess<'a>>)
        ensures
            r is Some <==> self.spec_data() is Some,
            r matches Some(a) ==> a.id == self.spec_data()->0.device && a.topology
                == self.topology,
    {
        match self.data() {
            Some(d) => Some(DeviceAccess { topology: self.topology, id: d.device }),
            None => None,
        }
    }

    pub open spec fn spec_cable(&self) -> Option<CableId> {
        match self.spec_data() {
            Some(d) => d.cable,
            None => None,
        }
    }

    pub fn cable(&self) -> (r: Option<CableAccess<'a>>)
        ensures
            r is Some <==> self.spec_cable() is Some,
            r matches Some(a) ==> a.id == self.spec_cable()->0 && a.topology == self.topology,
    {
        match self.data() {
            Some(d) => match d.cable {
                Some(id) => Some(CableAccess { topology: self.topology, id }),
                None => None,
            },
            None => None,
        }
    }

    pub open spec fn spec_rear_port(&self) -> Option<RearPortId> {
        match self.spec_data() {
            Some(d) => d.rear_port,
            None => None,
        }
    }

    pub fn rear_port(&self) -> (r: Option<RearPortAccess<'a>>)
        ensures
            r is Some <==> self.spec_rear_port() is Some,
            r matches Some(a) ==> a.id == self.spec_rear_port()->0 && a.topology
                == self.topology,
    {
        match self.data() {
            Some(d) => match d.rear_port {
                Some(id) => Some(RearPortAccess { topology: self.topology, id }),
                None => None,
            },
            None => None,
        }
    }
}

impl<'a> RearPortAccess<'a> {
    pub open spec fn spec_data(&self) -> Option<RearPort> {
        self.topology.spec_rear_port(self.id)
    }

    fn data(&self) -> (r: Option<&'a RearPort>)
        ensures
            r is Some <==> self.spec_data() is Some,
            r matches Some(d) ==> *d == self.spec_data()->0,
    {
        self.topology.rear_ports.get(&self.id.0)
    }

    pub fn id(&self) -> (r: RearPortId)
        ensures
            r == self.id,
    {
        self.id
    }

    pub fn name(&self) -> (r: Option<&'a str>)
        ensures
            r is Some <==> self.spec_data() is Some,
            r matches Some(s) ==> s@ == self.spec_data()->0.name@,
    {
        match self.data() {
            Some(d) => Some(d.name.as_str()),
            None => None,
        }
    }

    pub fn device(&self) -> (r: Option<DeviceAccess<'a>>)
        ensures
            r is Some <==> self.spec_data() is Some,
            r matches Some(a) ==> a.id == self.spec_data()->0.device && a.topology
                == self.topology,
    {
        match self.data() {
            Some(d) => Some(DeviceAccess { topology: self.topology, id: d.device }),
            None => None,
        }
    }

    pub open spec fn spec_front_port(&self) -> Option<FrontPortId> {
        match self.spec_data() {
            Some(d) => d.front_port,
            None => None,
        }
    }

    pub fn front_port(&self) -> (r: Option<FrontPortAccess<'a>>)
        ensures
            r is Some <==> self.spec_front_port() is Some,
            r matches Some(a) ==> a.id == self.spec_front_port()->0 && a.topology
                == self.topology,
    {
        match self.data() {
            Some(d) => match d.front_port {
                Some(id) => Some(FrontPortAccess { topology: self.topology, id }),
                None => None,
            },
            None => None,
        }
    }

    pub open spec fn spec_cable(&self) -> Option<CableId> {
        match self.spec_data() {
            Some(d) => d.cable,
            None => None,
        }
    }

    pub fn cable(&self) -> (r: Option<CableAccess<'a>>)
        ensures
            r is Some <==> self.spec_cable() is Some,
            r matches Some(a) ==> a.id == self.spec_cable()->0 && a.topology == self.topology,
    {
        match self.data() {
            Some(d) => match d.cable {
                Some(id) => Some(CableAccess { topology: self.topology, id }),
                None => None,
            },
            None => None,
        }
    }
}

impl<'a> VlanAccess<'a> {
    pub open spec fn spec_data(&self) -> Option<VlanData> {
        self.topology.spec_vlan(self.id)
    }

    fn data(&self) -> (r: Option<&'a VlanData>)
        ensures
            r is Some <==> self.spec_data() is Some,
            r matches Some(d) ==> *d == self.spec_data()->0,
    {
        self.topology.vlans.get(&self.id.0)
    }

    pub fn name(&self) -> (r: Option<&'a str>)
        ensures
            r is Some <==> self.spec_data() is Some,
            r matches Some(s) ==> s@ == self.spec_data()->0.name@,
    {
        match self.data() {
            Some(d) => Some(d.name.as_str()),
            None => None,
        }
    }

    /// The tag of the VLAN in the inventory.
    pub open spec fn spec_vlan_id(&self) -> Option<u16> {
        match self.spec_data() {
            Some(d) => Some(d.vlan_id),
            None => None,
        }
    }

    pub fn vlan_id(&self) -> (r: Option<u16>)
        ensures
            r == self.spec_vlan_id(),
    {
        match self.data() {
            Some(d) => Some(d.vlan_id),
            None => None,
        }
    }

    pub open spec fn spec_vxlan(&self) -> Option<VxlanId> {
        match self.spec_data() {
            Some(d) => d.vxlan,
            None => None,
        }
    }

    pub fn vxlan(&self) -> (r: Option<VxlanAccess<'a>>)
        ensures
            r is Some <==> self.spec_vxlan() is Some,
            r matches Some(a) ==> a.id == self.spec_vxlan()->0 && a.topology == self.topology,
    {
        match self.data() {
            Some(d) => match d.vxlan {
                Some(id) => Some(VxlanAccess { topology: self.topology, id }),
                None => None,
            },
            None => None,
        }
    }

    pub open spec fn spec_wlans(&self) -> Seq<WlanId> {
        match self.spec_data() {
            Some(d) => d.wlans@,
            None => Seq::empty(),
        }
    }

    pub fn wlan(&self) -> (r: Vec<WlanAccess<'a>>)
        ensures
            r@.len() == self.spec_wlans().len(),
            forall|i: int|
                0 <= i < r@.len() ==> (#[trigger] r@[i]).topology == self.topology && r@[i].id
                    == self.spec_wlans()[i],
    {
        match self.data() {
            Some(d) => wlan_handles(self.topology, &d.wlans),
            None => Vec::new(),
        }
    }
}

/// A handle for each id.
pub(crate) fn wlan_handles<'a>(topology: &'a Topology, ids: &Vec<WlanId>) -> (r: Vec<
    WlanAccess<'a>,
>)
    ensures
        r@.len() == ids@.len(),
        forall|i: int|
            0 <= i < r@.len() ==> (#[trigger] r@[i]).topology == topology && r@[i].id == ids@[i],
{
    let mut out: Vec<WlanAccess<'a>> = Vec::new();
    let mut i: usize = 0;
    while i < ids.len()
        invariant
            i <= ids.len(),
            out@.len() == i,
            forall|k: int|
                0 <= k < out@.len() ==> (#[trigger] out@[k]).topology == topology && out@[k].id
                    == ids@[k],
        decreases ids.len() - i,
    {
        out.push(WlanAccess { topology, id: ids[i] });
        i += 1;
    }
    out
}

impl<'a> WlanAccess<'a> {
    pub open spec fn spec_data(&self) -> Option<WlanData> {
        self.topology.spec_wlan(self.id)
    }

    fn data(&self) -> (r: Option<&'a WlanData>)
        ensures
            r is Some <==> self.spec_data() is Some,
            r matches Some(d) ==> *d == self.spec_data()->0,
    {
        self.topology.wlans.get(&self.id.0)
    }

    pub open spec fn spec_vlan(&self) -> Option<VlanId> {
        match self.spec_data() {
            Some(d) => d.vlan,
            None => None,
        }
    }

    pub fn vlan(&self) -> (r: Option<VlanAccess<'a>>)
        ensures
            r is Some <==> self.spec_vlan() is Some,
            r matches Some(a) ==> a.id == self.spec_vlan()->0 && a.topology == self.topology,
    {
        match self.data() {
            Some(d) => match d.vlan {
                Some(id) => Some(VlanAccess { topology: self.topology, id }),
                None => None,
            },
            None => None,
        }
    }

    pub fn wlan_group(&self) -> (r: Option<WlanGroupAccess<'a>>)
        ensures
            r is Some <==> self.spec_data() is Some,
            r matches Some(a) ==> a.id == self.spec_data()->0.wlan_group && a.topology
                == self.topology,
    {
        match self.data() {
            Some(d) => Some(WlanGroupAccess { topology: self.topology, id: d.wlan_group }),
            None => None,
        }
    }
}

impl<'a> WlanGroupAccess<'a> {
    pub open spec fn spec_data(&self) -> Option<WlanGroupData> {
        self.topology.spec_wlan_group(self.id)
    }

    fn data(&self) -> (r: Option<&'a WlanGroupData>)
        ensures
            r is Some <==> self.spec_data() is Some,
            r matches Some(d) ==> *d == self.spec_data()->0,
    {
        self.topology.wlan_groups.get(&self.id.0)
    }

    pub fn controller(&self) -> (r: Option<DeviceAccess<'a>>)
        ensures
            r is Some <==> self.spec_data() is Some,
            r matches Some(a) ==> a.id == self.spec_data()->0.controller && a.topology
                == self.topology,
    {
        match self.data() {
            Some(d) => Some(DeviceAccess { topology: self.topology, id: d.controller }),
            None => None,
        }
    }

    pub open spec fn spec_aps(&self) -> Seq<DeviceId> {
        match self.spec_data() {
            Some(d) => d.aps@,
            None => Seq::empty(),
        }
    }

    pub fn aps(&self) -> (r: Vec<DeviceAccess<'a>>)
        ensures
            r@.len() == self.spec_aps().len(),
            forall|i: int|
                0 <= i < r@.len() ==> (#[trigger] r@[i]).topology == self.topology && r@[i].id
                    == self.spec_aps()[i],
    {
        let mut out: Vec<DeviceAccess<'a>> = Vec::new();
        match self.data() {
            Some(d) => {
                let mut i: usize = 0;
                while i < d.aps.len()
                    invariant
                        i <= d.aps.len(),
                        out@.len() == i,
                        forall|k: int|
                            0 <= k < out@.len() ==> (#[trigger] out@[k]).topology == self.topology
                                && out@[k].id == d.aps@[k],
                    decreases d.aps.len() - i,
                {
                    out.push(DeviceAccess { topology: self.topology, id: d.aps[i] });
                    i += 1;
                }
            },
            None => {},
        }
        out
    }

    pub open spec fn spec_mgmt_vlan(&self) -> Option<VlanId> {
        match self.spec_data() {
            Some(d) => d.mgmt_vlan,
            None => None,
        }
    }

    pub fn mgmt_vlan(&self) -> (r: Option<VlanAccess<'a>>)
        ensures
            r is Some <==> self.spec_mgmt_vlan() is Some,
            r matches Some(a) ==> a.id == self.spec_mgmt_vlan()->0 && a.topology
                == self.topology,
    {
        match self.data() {
            Some(d) => match d.mgmt_vlan {
                Some(id) => Some(VlanAccess { topology: self.topology, id }),
                None => None,
            },
            None => None,
        }
    }

    pub open spec fn spec_wlans(&self) -> Seq<WlanId> {
        match self.spec_data() {
            Some(d) => d.wlans@,
            None => Seq::empty(),
        }
    }

    pub fn wlan(&self) -> (r: Vec<WlanAccess<'a>>)
        ensures
            r@.len() == self.spec_wlans().len(),
            forall|i: int|
                0 <= i < r@.len() ==> (#[trigger] r@[i]).topology == self.topology && r@[i].id
                    == self.spec_wlans()[i],
    {
        match self.data() {
            Some(d) => wlan_handles(self.topology, &d.wlans),
            None => Vec::new(),
        }
    }
}

impl<'a> IpAddressAccess<'a> {
    pub open spec fn spec_data(&self) -> Option<IpAddressData> {
        self.topology.spec_ip_address(self.id)
    }

    fn data(&self) -> (r: Option<&'a IpAddressData>)
        ensures
            r is Some <==> self.spec_data() is Some,
            r matches Some(d) ==> *d == self.spec_data()->0,
    {
        self.topology.ip_addresses.get(&self.id.0)
    }

    pub open spec fn spec_net(&self) -> Option<IpNet> {
        match self.spec_data() {
            Some(d) => Some(d.ip),
            None => None,
        }
    }

    pub open spec fn spec_addr(&self) -> Option<IpAddr> {
        match self.spec_data() {
            Some(d) => Some(d.ip.spec_addr()),
            None => None,
        }
    }

    /// The address, without its prefix length.
    pub fn addr(&self) -> (r: Option<IpAddr>)
        ensures
            r == self.spec_addr(),
    {
        match self.data() {
            Some(d) => Some(d.ip.addr()),
            None => None,
        }
    }

    /// The address with its prefix length.
    pub fn net(&self) -> (r: Option<IpNet>)
        ensures
            r == self.spec_net(),
    {
        match self.data() {
            Some(d) => Some(d.ip),
            None => None,
        }
    }

    pub open spec fn spec_prefix(&self) -> Option<IpPrefixId> {
        match self.spec_data() {
            Some(d) => d.prefix,
            None => None,
        }
    }

    pub fn prefix(&self) -> (r: Option<IpPrefixAccess<'a>>)
        ensures
            r is Some <==> self.spec_prefix() is Some,
            r matches Some(a) ==> a.id == self.spec_prefix()->0 && a.topology == self.topology,
    {
        match self.data() {
            Some(d) => match d.prefix {
                Some(id) => Some(IpPrefixAccess { topology: self.topology, id }),
                None => None,
            },
            None => None,
        }
    }

    pub fn interface(&self) -> (r: Option<InterfaceAccess<'a>>)
        ensures
            r is Some <==> self.spec_data() is Some && self.spec_data()->0.interface is Some,
            r matches Some(a) ==> a.id == self.spec_data()->0.interface->0 && a.topology
                == self.topology,
    {
        match self.data() {
            Some(d) => match d.interface {
                Some(id) => Some(InterfaceAccess { topology: self.topology, id }),
                None => None,
            },
            None => None,
        }
    }
}

impl<'a> IpPrefixAccess<'a> {
    pub open spec fn spec_data(&self) -> Option<IpPrefixData> {
        self.topology.spec_ip_prefix(self.id)
    }

    fn data(&self) -> (r: Option<&'a IpPrefixData>)
        ensures
            r is Some <==> self.spec_data() is Some,
            r matches Some(d) ==> *d == self.spec_data()->0,
    {
        self.topology.ip_prefixes.get(&self.id.0)
    }

    pub fn id(&self) -> (r: IpPrefixId)
        ensures
            r == self.id,
    {
        self.id
    }

    pub fn parent(&self) -> (r: Option<IpPrefixAccess<'a>>)
        ensures
            r is Some <==> self.spec_data() is Some && self.spec_data()->0.parent is Some,
            r matches Some(a) ==> a.id == self.spec_data()->0.parent->0 && a.topology
                == self.topology,
    {
        match self.data() {
            Some(d) => match d.parent {
                Some(id) => Some(IpPrefixAccess { topology: self.topology, id }),
                None => None,
            },
            None => None,
        }
    }

    pub open spec fn spec_children(&self) -> Seq<IpPrefixId> {
        match self.spec_data() {
            Some(d) => d.children@,
            None => Seq::empty(),
        }
    }

    pub open spec fn spec_ips(&self) -> Seq<IpAddressId> {
        match self.spec_data() {
            Some(d) => d.addresses@,
            None => Seq::empty(),
        }
    }

    pub open spec fn spec_ranges(&self) -> Seq<IpRangeId> {
        match self.spec_data() {
            Some(d) => d.ranges@,
            None => Seq::empty(),
        }
    }

    pub open spec fn spec_prefix(&self) -> Option<IpNet> {
        match self.spec_data() {
            Some(d) => Some(d.prefix),
            None => None,
        }
    }

    pub fn children(&self) -> (r: Vec<IpPrefixAccess<'a>>)
        ensures
            r@.len() == self.spec_children().len(),
            forall|i: int|
                0 <= i < r@.len() ==> (#[trigger] r@[i]).topology == self.topology && r@[i].id
                    == self.spec_children()[i],
    {
        let mut out: Vec<IpPrefixAccess<'a>> = Vec::new();
        match self.data() {
            Some(d) => {
                let mut i: usize = 0;
                while i < d.children.len()
                    invariant
                        i <= d.children.len(),
                        out@.len() == i,
                        forall|k: int|
                            0 <= k < out@.len() ==> (#[trigger] out@[k]).topology == self.topology
                                && out@[k].id == d.children@[k],
                    decreases d.children.len() - i,
                {
                    out.push(IpPrefixAccess { topology: self.topology, id: d.children[i] });
                    i += 1;
                }
            },
            None => {},
        }
        out
    }

    pub fn ips(&self) -> (r: Vec<IpAddressAccess<'a>>)
        ensures
            r@.len() == self.spec_ips().len(),
            forall|i: int|
                0 <= i < r@.len() ==> (#[trigger] r@[i]).topology == self.topology && r@[i].id
                    == self.spec_ips()[i],
    {
        match self.data() {
            Some(d) => ip_address_handles(self.topology, &d.addresses),
            None => Vec::new(),
        }
    }

    pub fn ranges(&self) -> (r: Vec<IpRangeAccess<'a>>)
        ensures
            r@.len() == self.spec_ranges().len(),
            forall|i: int|
                0 <= i < r@.len() ==> (#[trigger] r@[i]).topology == self.topology && r@[i].id
                    == self.spec_ranges()[i],
    {
        let mut out: Vec<IpRangeAccess<'a>> = Vec::new();
        match self.data() {
            Some(d) => {
                let mut i: usize = 0;
                while i < d.ranges.len()
                    invariant
                        i <= d.ranges.len(),
                        out@.len() == i,
                        forall|k: int|
                            0 <= k < out@.len() ==> (#[trigger] out@[k]).topology == self.topology
                                && out@[k].id == d.ranges@[k],
                    decreases d.ranges.len() - i,
                {
                    out.push(IpRangeAccess { topology: self.topology, id: d.ranges[i] });
                    i += 1;
                }
            },
            None => {},
        }
        out
    }

    pub fn prefix(&self) -> (r: Option<IpNet>)
        ensures
            r == self.spec_prefix(),
    {
        match self.data() {
            Some(d) => Some(d.prefix),
            None => None,
        }
    }
}

impl<'a> IpRangeAccess<'a> {
    pub open spec fn spec_data(&self) -> Option<IpRangeData> {
        self.topology.spec_ip_range(self.id)
    }

    fn data(&self) -> (r: Option<&'a IpRangeData>)
        ensures
            r is Some <==> self.spec_data() is Some,
            r matches Some(d) ==> *d == self.spec_data()->0,
    {
        self.topology.ip_ranges.get(&self.id.0)
    }

    pub fn is_dhcp(&self) -> (r: bool)
        ensures
            r == (self.spec_data() is Some && self.spec_data()->0.is_dhcp),
    {
        match self.data() {
            Some(d) => d.is_dhcp,
            None => false,
        }
    }

    pub fn start(&self) -> (r: Option<IpAddr>)
        ensures
            r is Some <==> self.spec_data() is Some,
            r matches Some(a) ==> a == self.spec_data()->0.start,
    {
        match self.data() {
            Some(d) => Some(d.start),
            None => None,
        }
    }

    pub fn end(&self) -> (r: Option<IpAddr>)
        ensures
            r is Some <==> self.spec_data() is Some,
            r matches Some(a) ==> a == self.spec_data()->0.end,
    {
        match self.data() {
            Some(d) => Some(d.end),
            None => None,
        }
    }

    pub fn net(&self) -> (r: Option<IpNet>)
        ensures
            r is Some <==> self.spec_data() is Some,
            r matches Some(a) ==> a == self.spec_data()->0.net,
    {
        match self.data() {
            Some(d) => Some(d.net),
            None => None,
        }
    }
}

impl<'a> VxlanAccess<'a> {
    pub open spec fn spec_data(&self) -> Option<VxlanData> {
        self.topology.spec_vxlan(self.id)
    }

    pub fn data(&self) -> (r: Option<&'a VxlanData>)
        ensures
            r is Some <==> self.spec_data() is Some,
            r matches Some(d) ==> *d == self.spec_data()->0,
    {
        self.topology.vxlans.get(&self.id.0)
    }

    pub fn id(&self) -> (r: VxlanId)
        ensures
            r == self.id,
    {
        self.id
    }

    pub open spec fn spec_name(&self) -> Option<Seq<char>> {
        match self.spec_data() {
            Some(d) => Some(d.name@),
            None => None,
        }
    }

    pub fn name(&self) -> (r: Option<&'a str>)
        ensures
            r is Some <==> self.spec_name() is Some,
            r matches Some(s) ==> s@ == self.spec_name()->0,
    {
        match self.data() {
            Some(d) => Some(d.name.as_str()),
            None => None,
        }
    }

    pub open spec fn spec_vni(&self) -> Option<u32> {
        match self.spec_data() {
            Some(d) => Some(d.vni),
            None => None,
        }
    }

    pub fn vni(&self) -> (r: Option<u32>)
        ensures
            r == self.spec_vni(),
    {
        match self.data() {
            Some(d) => Some(d.vni),
            None => None,
        }
    }

    pub open spec fn spec_interface_terminations(&self) -> Seq<InterfaceId> {
        match self.spec_data() {
            Some(d) => d.interface_terminations@,
            None => Seq::empty(),
        }
    }

    pub open spec fn spec_vlan_terminations(&self) -> Seq<VlanId> {
        match self.spec_data() {
            Some(d) => d.vlan_terminations@,
            None => Seq::empty(),
        }
    }

    pub fn interface_terminations(&self) -> (r: Vec<InterfaceAccess<'a>>)
        ensures
            r@.len() == self.spec_interface_terminations().len(),
            forall|i: int|
                0 <= i < r@.len() ==> (#[trigger] r@[i]).topology == self.topology && r@[i].id
                    == self.spec_interface_terminations()[i],
    {
        let mut out: Vec<InterfaceAccess<'a>> = Vec::new();
        match self.data() {
            Some(d) => {
                let mut i: usize = 0;
                while i < d.interface_terminations.len()
                    invariant
                        i <= d.interface_terminations.len(),
                        out@.len() == i,
                        forall|k: int|
                            0 <= k < out@.len() ==> (#[trigger] out@[k]).topology == self.topology
                                && out@[k].id == d.interface_terminations@[k],
                    decreases d.interface_terminations.len() - i,
                {
                    out.push(
                        InterfaceAccess { topology: self.topology, id: d.interface_terminations[i] },
                    );
                    i += 1;
                }
            },
            None => {},
        }
        out
    }

    pub fn vlan_terminations(&self) -> (r: Vec<VlanAccess<'a>>)
        ensures
            r@.len() == self.spec_vlan_terminations().len(),
            forall|i: int|
                0 <= i < r@.len() ==> (#[trigger] r@[i]).topology == self.topology && r@[i].id
                    == self.spec_vlan_terminations()[i],
    {
        match self.data() {
            Some(d) => vlan_handles(self.topology, &d.vlan_terminations),
            None => Vec::new(),
        }
    }
}

} // verus!
