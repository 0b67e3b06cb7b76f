//! The target configuration of a device and the single settings that the
//! synthesis makes in it.

use crate::error::SetupError;
use crate::error::SetupErrorView;
use crate::ip::IpAddr;
use crate::ip::IpNet;
use crate::ip::Ipv4Net;
use crate::ip::Ipv6Net;
use crate::model::Bridge;
use crate::model::BridgePort;
use crate::model::BridgePortView;
use crate::model::BridgeView;
use crate::model::BridgeVlan;
use crate::model::BridgeVlanView;
use crate::model::DhcpClient;
use crate::model::DhcpClientView;
use crate::model::DhcpServer;
use crate::model::DhcpServerNetwork;
use crate::model::DhcpServerNetworkView;
use crate::model::DhcpServerView;
use crate::model::EthernetPort;
use crate::model::EthernetPortView;
use crate::model::Ipv4Address;
use crate::model::Ipv4AddressView;
use crate::model::Ipv4Pool;
use crate::model::Ipv4PoolView;
use crate::model::Ipv6Address;
use crate::model::Ipv6AddressView;
use crate::model::MappedPlane;
use crate::model::MappedPlaneView;
use crate::model::OspfArea;
use crate::model::OspfAreaView;
use crate::model::OspfInstance;
use crate::model::OspfInstanceView;
use crate::model::OspfInterfaceTemplate;
use crate::model::OspfInterfaceTemplateView;
use crate::model::PoeOut;
use crate::model::VlanInterface;
use crate::model::VlanInterfaceView;
use crate::model::Vxlan;
use crate::model::VxlanView;
use crate::model::VxlanVtep;
use crate::model::VxlanVtepView;
use crate::table::amended;
use crate::table::ensure;
use crate::table::ensured;
use crate::table::entry_views;
use crate::table::find;
use crate::table::lemma_position;
use crate::table::position;
use crate::table::put;
use crate::table::replace;
use crate::table::replaced;
use crate::text::append_decimal;
use crate::text::decimal;
use crate::text::push_char;
use crate::topology::PhysicalPortId;
use vstd::prelude::*;
use vstd::string::*;

verus! {

/// The configuration that a device is to have.
#[derive(Debug, Clone, PartialEq, Eq, Default)]
pub struct BaseDeviceDataTarget {
    /// The name of the device.
    pub identity: String,
    pub ethernet: Vec<EthernetPort>,
    pub bridge: Vec<Bridge>,
    pub bridge_port: Vec<BridgePort>,
    pub bridge_vlan: Vec<BridgeVlan>,
    pub ipv_4_address: Vec<Ipv4Address>,
    pub ipv_6_address: Vec<Ipv6Address>,
    pub vlan: Vec<VlanInterface>,
    pub vxlan: Vec<Vxlan>,
    pub vxlan_vteps: Vec<VxlanVtep>,
    pub ospf_instance: Vec<OspfInstance>,
    pub ospf_area: Vec<OspfArea>,
    pub ospf_interface: Vec<OspfInterfaceTemplate>,
    pub dhcp_v_4_client: Vec<DhcpClient>,
    pub dhcp_v_4_server: Vec<DhcpServer>,
    pub dhcp_v_4_server_network: Vec<DhcpServerNetwork>,
    pub ipv_4_pool: Vec<Ipv4Pool>,
}

/// A target configuration as the specifications see it.
pub struct TargetView {
    pub identity: Seq<char>,
    pub ethernet: Seq<EthernetPortView>,
    pub bridge: Seq<BridgeView>,
    pub bridge_port: Seq<BridgePortView>,
    pub bridge_vlan: Seq<BridgeVlanView>,
    pub ipv_4_address: Seq<Ipv4AddressView>,
    pub ipv_6_address: Seq<Ipv6AddressView>,
    pub vlan: Seq<VlanInterfaceView>,
    pub vxlan: Seq<VxlanView>,
    pub vxlan_vteps: Seq<VxlanVtepView>,
    pub ospf_instance: Seq<OspfInstanceView>,
    pub ospf_area: Seq<OspfAreaView>,
    pub ospf_interface: Seq<OspfInterfaceTemplateView>,
    pub dhcp_v_4_client: Seq<DhcpClientView>,
    pub dhcp_v_4_server: Seq<DhcpServerView>,
    pub dhcp_v_4_server_network: Seq<DhcpServerNetworkView>,
    pub ipv_4_pool: Seq<Ipv4PoolView>,
}

impl View for BaseDeviceDataTarget {
    type V = TargetView;

    open spec fn view(&self) -> TargetView {
        TargetView {
            identity: self.identity@,
            ethernet: entry_views(self.ethernet@),
            bridge: entry_views(self.bridge@),
            bridge_port: entry_views(self.bridge_port@),
            bridge_vlan: entry_views(self.bridge_vlan@),
            ipv_4_address: entry_views(self.ipv_4_address@),
            ipv_6_address: entry_views(self.ipv_6_address@),
            vlan: entry_views(self.vlan@),
            vxlan: entry_views(self.vxlan@),
            vxlan_vteps: entry_views(self.vxlan_vteps@),
            ospf_instance: entry_views(self.ospf_instance@),
            ospf_area: entry_views(self.ospf_area@),
            ospf_interface: entry_views(self.ospf_interface@),
            dhcp_v_4_client: entry_views(self.dhcp_v_4_client@),
            dhcp_v_4_server: entry_views(self.dhcp_v_4_server@),
            dhcp_v_4_server_network: entry_views(self.dhcp_v_4_server_network@),
            ipv_4_pool: entry_views(self.ipv_4_pool@),
        }
    }
}

/// The name of the loopback interface.
pub open spec fn loopback_name() -> Seq<char> {
    "lo"@
}

/// The configuration with the address on the interface `if_name`.
pub open spec fn with_ip_address(t: TargetView, ip: IpNet, if_name: Seq<char>) -> TargetView {
    match ip {
        IpNet::V4(address) => TargetView {
            ipv_4_address: amended::<Ipv4Address>(
                t.ipv_4_address,
                Ipv4AddressView { address, interface: Seq::empty() },
                |v: Ipv4AddressView| Ipv4AddressView { address: v.address, interface: if_name },
            ),
            ..t
        },
        IpNet::V6(address) => TargetView {
            ipv_6_address: amended::<Ipv6Address>(
                t.ipv_6_address,
                Ipv6AddressView { address, interface: Seq::empty() },
                |v: Ipv6AddressView| Ipv6AddressView { address: v.address, interface: if_name },
            ),
            ..t
        },
    }
}

/// The configuration with the single address `address` on the loopback
/// interface, in the place of what was set for that address before.
pub open spec fn with_loopback(t: TargetView, address: IpNet) -> TargetView {
    match address {
        IpNet::V4(address) => TargetView {
            ipv_4_address: replaced::<Ipv4Address>(
                t.ipv_4_address,
                Ipv4AddressView { address, interface: loopback_name() },
            ),
            ..t
        },
        IpNet::V6(address) => TargetView {
            ipv_6_address: replaced::<Ipv6Address>(
                t.ipv_6_address,
                Ipv6AddressView { address, interface: loopback_name() },
            ),
            ..t
        },
    }
}

/// The DHCP client that is set up on an interface.
pub open spec fn dhcp_client_on(if_name: Seq<char>) -> DhcpClientView {
    DhcpClientView {
        interface: if_name,
        add_default_route: true,
        default_route_distance: Some(10u8),
        use_peer_dns: true,
        use_peer_ntp: false,
    }
}

/// The configuration with a DHCP client on the interface `if_name`, where
/// it had none.
pub open spec fn with_dhcp_client(t: TargetView, if_name: Seq<char>) -> TargetView {
    TargetView {
        dhcp_v_4_client: ensured::<DhcpClient>(t.dhcp_v_4_client, dhcp_client_on(if_name)),
        ..t
    }
}

/// The name of the interface that stands for a plane: the name of the VLAN
/// interface for a tagged plane, which is the name of the interface below
/// it, a hyphen and the tag.
pub open spec fn mapped_name(plane: MappedPlaneView) -> Seq<char> {
    match plane {
        MappedPlaneView::Tagged { if_name, vid } => if_name + seq!['-'] + decimal(vid as nat),
        MappedPlaneView::Untagged(name) => name,
    }
}

/// The configuration with the interface that stands for a plane: for a
/// tagged plane, the VLAN interface is added where there was none of its
/// name.
pub open spec fn with_mapped_plane(t: TargetView, plane: MappedPlaneView) -> TargetView {
    match plane {
        MappedPlaneView::Tagged { if_name, vid } => TargetView {
            vlan: ensured::<VlanInterface>(
                t.vlan,
                VlanInterfaceView { name: mapped_name(plane), interface: if_name, vlan_id: vid },
            ),
            ..t
        },
        MappedPlaneView::Untagged(_) => t,
    }
}

/// The ethernet ports with the port `port` named `name`. A port that the
/// device does not list under a name of its own stays out; a port that it
/// should list and does not is an error.
pub open spec fn renamed(ethernet: Seq<EthernetPortView>, port: PhysicalPortId, name: Seq<char>) -> Result<
    Seq<EthernetPortView>,
    SetupErrorView,
> {
    match port.spec_default_name() {
        Some(default_name) => {
            let at = position::<EthernetPort>(ethernet, default_name);
            if at < ethernet.len() {
                Ok(ethernet.update(at, EthernetPortView { name, ..ethernet[at] }))
            } else {
                Err(SetupErrorView::PortNotFound(port))
            }
        },
        None => Ok(ethernet),
    }
}

/// The ethernet ports with the port `port` feeding power or not.
pub open spec fn powered(ethernet: Seq<EthernetPortView>, port: PhysicalPortId, on: bool) -> Result<
    Seq<EthernetPortView>,
    SetupErrorView,
> {
    match port.spec_default_name() {
        Some(default_name) => {
            let at = position::<EthernetPort>(ethernet, default_name);
            if at < ethernet.len() {
                Ok(
                    ethernet.update(
                        at,
                        EthernetPortView {
                            poe_out: Some(
                                if on {
                                    PoeOut::AutoOn
                                } else {
                                    PoeOut::Off
                                },
                            ),
                            ..ethernet[at]
                        },
                    ),
                )
            } else {
                Err(SetupErrorView::PortNotFound(port))
            }
        },
        None => Ok(ethernet),
    }
}

/// A port with nothing set but its default name, to look for the port of
/// that name.
fn probe_port(default_name: String) -> (r: EthernetPort)
    ensures
        r@.default_name == default_name@,
{
    EthernetPort {
        default_name,
        name: String::new(),
        l2mtu: 0,
        advertise: crate::model::Advertise::Upto1G,
        poe_capable: false,
        poe_out: None,
    }
}

impl BaseDeviceDataTarget {
    /// A configuration with the ethernet ports `ethernet` and nothing else.
    pub fn with_ports(ethernet: Vec<EthernetPort>) -> (r: Self)
        ensures
            r@ == empty_target(entry_views(ethernet@)),
    {
        let r = BaseDeviceDataTarget {
            identity: String::new(),
            ethernet,
            bridge: Vec::new(),
            bridge_port: Vec::new(),
            bridge_vlan: Vec::new(),
            ipv_4_address: Vec::new(),
            ipv_6_address: Vec::new(),
            vlan: Vec::new(),
            vxlan: Vec::new(),
            vxlan_vteps: Vec::new(),
            ospf_instance: Vec::new(),
            ospf_area: Vec::new(),
            ospf_interface: Vec::new(),
            dhcp_v_4_client: Vec::new(),
            dhcp_v_4_server: Vec::new(),
            dhcp_v_4_server_network: Vec::new(),
            ipv_4_pool: Vec::new(),
        };
        proof {
            let e = empty_target(entry_views(ethernet@));
            assert(r@.bridge =~= e.bridge);
            assert(r@.bridge_port =~= e.bridge_port);
            assert(r@.bridge_vlan =~= e.bridge_vlan);
            assert(r@.ipv_4_address =~= e.ipv_4_address);
            assert(r@.ipv_6_address =~= e.ipv_6_address);
            assert(r@.vlan =~= e.vlan);
            assert(r@.vxlan =~= e.vxlan);
            assert(r@.vxlan_vteps =~= e.vxlan_vteps);
            assert(r@.ospf_instance =~= e.ospf_instance);
            assert(r@.ospf_area =~= e.ospf_area);
            assert(r@.ospf_interface =~= e.ospf_interface);
            assert(r@.dhcp_v_4_client =~= e.dhcp_v_4_client);
            assert(r@.dhcp_v_4_server =~= e.dhcp_v_4_server);
            assert(r@.dhcp_v_4_server_network =~= e.dhcp_v_4_server_network);
            assert(r@.ipv_4_pool =~= e.ipv_4_pool);
        }
        r
    }

    /// Names the device.
    pub fn set_identity(&mut self, name: &str)
        ensures
            final(self)@ == (TargetView { identity: name@, ..old(self)@ }),
    {
        self.identity = String::from_str(name);
    }

    /// Names the ethernet port `port`.
    pub fn rename_port(self, port: PhysicalPortId, name: &str) -> (r: Result<Self, SetupError>)
        ensures
            match renamed(self@.ethernet, port, name@) {
                Ok(ethernet) => r matches Ok(t) && t@ == (TargetView { ethernet, ..self@ }),
                Err(e) => r matches Err(f) && f@ == e,
            },
    {
        let mut t = self;
        match port.default_name() {
            Some(default_name) => {
                let probe = probe_port(default_name);
                let at = find(&t.ethernet, &probe);
                if at < t.ethernet.len() {
                    let entry = EthernetPort {
                        default_name: t.ethernet[at].default_name.clone(),
                        name: String::from_str(name),
                        l2mtu: t.ethernet[at].l2mtu,
                        advertise: t.ethernet[at].advertise,
                        poe_capable: t.ethernet[at].poe_capable,
                        poe_out: t.ethernet[at].poe_out,
                    };
                    put(&mut t.ethernet, at, entry);
                    Ok(t)
                } else {
                    Err(SetupError::PortNotFound(port))
                }
            },
            None => Ok(t),
        }
    }

    /// Has the ethernet port `port` feed power, or not.
    pub fn set_poe(self, port: PhysicalPortId, on: bool) -> (r: Result<Self, SetupError>)
        ensures
            match powered(self@.ethernet, port, on) {
                Ok(ethernet) => r matches Ok(t) && t@ == (TargetView { ethernet, ..self@ }),
                Err(e) => r matches Err(f) && f@ == e,
            },
    {
        let mut t = self;
        match port.default_name() {
            Some(default_name) => {
                let probe = probe_port(default_name);
                let at = find(&t.ethernet, &probe);
                if at < t.ethernet.len() {
                    let entry = EthernetPort {
                        default_name: t.ethernet[at].default_name.clone(),
                        name: t.ethernet[at].name.clone(),
                        l2mtu: t.ethernet[at].l2mtu,
                        advertise: t.ethernet[at].advertise,
                        poe_capable: t.ethernet[at].poe_capable,
                        poe_out: Some(
                            if on {
                                PoeOut::AutoOn
                            } else {
                                PoeOut::Off
                            },
                        ),
                    };
                    put(&mut t.ethernet, at, entry);
                    Ok(t)
                } else {
                    Err(SetupError::PortNotFound(port))
                }
            },
            None => Ok(t),
        }
    }

    /// Puts the address on the interface `if_name`.
    pub fn set_ip_address(&mut self, ip: IpNet, if_name: &str)
        ensures
            final(self)@ == with_ip_address(old(self)@, ip, if_name@),
    {
        match ip {
            IpNet::V4(address) => {
                let at = ensure(
                    &mut self.ipv_4_address,
                    Ipv4Address { address, interface: String::new() },
                );
                put(
                    &mut self.ipv_4_address,
                    at,
                    Ipv4Address { address, interface: String::from_str(if_name) },
                );
                proof {
                    lemma_position::<Ipv4Address>(entry_views(old(self).ipv_4_address@), address);
                    lemma_position::<Ipv4Address>(
                        ensured::<Ipv4Address>(
                            entry_views(old(self).ipv_4_address@),
                            Ipv4AddressView { address, interface: Seq::empty() },
                        ),
                        address,
                    );
                }
            },
            IpNet::V6(address) => {
                let at = ensure(
                    &mut self.ipv_6_address,
                    Ipv6Address { address, interface: String::new() },
                );
                put(
                    &mut self.ipv_6_address,
                    at,
                    Ipv6Address { address, interface: String::from_str(if_name) },
                );
                proof {
                    lemma_position::<Ipv6Address>(
                        ensured::<Ipv6Address>(
                            entry_views(old(self).ipv_6_address@),
                            Ipv6AddressView { address, interface: Seq::empty() },
                        ),
                        address,
                    );
                }
            },
        }
    }

    /// Puts the single address `loopback_ip` on the loopback interface.
    pub fn set_loopback_ip(&mut self, loopback_ip: IpAddr)
        ensures
            final(self)@ == with_loopback(old(self)@, loopback_ip.spec_host()),
    {
        match loopback_ip {
            IpAddr::V4(a) => {
                let address = Ipv4Net::host(a);
                replace(
                    &mut self.ipv_4_address,
                    Ipv4Address { address, interface: String::from_str("lo") },
                );
            },
            IpAddr::V6(a) => {
                let address = Ipv6Net::host(a);
                replace(
                    &mut self.ipv_6_address,
                    Ipv6Address { address, interface: String::from_str("lo") },
                );
            },
        }
    }

    /// Sets up a DHCP client on the interface `if_name`, where it has none.
    pub fn enable_dhcp_client(&mut self, if_name: String)
        ensures
            final(self)@ == with_dhcp_client(old(self)@, if_name@),
    {
        ensure(
            &mut self.dhcp_v_4_client,
            DhcpClient {
                interface: if_name,
                add_default_route: true,
                default_route_distance: Some(10),
                use_peer_dns: true,
                use_peer_ntp: false,
            },
        );
    }

    /// The name of the interface that stands for a plane, which for a
    /// tagged plane is added as a VLAN interface where there was none of its
    /// name.
    pub fn if_of_mapped_plane(&mut self, plane: &MappedPlane) -> (r: String)
        ensures
            r@ == mapped_name(plane@),
            final(self)@ == with_mapped_plane(old(self)@, plane@),
    {
        match plane {
            MappedPlane::Tagged { if_name, vid } => {
                let mut name = if_name.clone();
                push_char(&mut name, '-');
                append_decimal(&mut name, *vid as u64);
                ensure(
                    &mut self.vlan,
                    VlanInterface { name: name.clone(), interface: if_name.clone(), vlan_id: *vid },
                );
                name
            },
            MappedPlane::Untagged(if_name) => if_name.clone(),
        }
    }
}

/// A configuration with the ethernet ports `ethernet` and nothing else.
pub open spec fn empty_target(ethernet: Seq<EthernetPortView>) -> TargetView {
    TargetView {
        identity: Seq::empty(),
        ethernet,
        bridge: Seq::empty(),
        bridge_port: Seq::empty(),
        bridge_vlan: Seq::empty(),
        ipv_4_address: Seq::empty(),
        ipv_6_address: Seq::empty(),
        vlan: Seq::empty(),
        vxlan: Seq::empty(),
        vxlan_vteps: Seq::empty(),
        ospf_instance: Seq::empty(),
        ospf_area: Seq::empty(),
        ospf_interface: Seq::empty(),
        dhcp_v_4_client: Seq::empty(),
        dhcp_v_4_server: Seq::empty(),
        dhcp_v_4_server_network: Seq::empty(),
        ipv_4_pool: Seq::empty(),
    }
}

} // verus!
