//! The resources of a target configuration.
//!
//! An entry holds the settings that the synthesis decides. A setting that
//! is `None` was not decided, and stays as the device has it by default.

use crate::ip::IpAddr;
use crate::ip::Ipv4Addr;
use crate::ip::Ipv4Net;
use crate::ip::Ipv6Net;
use crate::table::Keyed;
use crate::text::same_text;
use crate::text::views;
use vstd::prelude::*;

verus! {

/// The spanning tree protocol of a bridge.
#[derive(Debug, Clone, Copy, PartialEq, Eq, Structural, Hash)]
pub enum ProtocolMode {
    Disabled,
    Rstp,
    Stp,
    Mstp,
}

/// The frames that a bridge port admits.
#[derive(Debug, Clone, Copy, PartialEq, Eq, Structural, Hash)]
pub enum VlanFrameTypes {
    AdmitAll,
    AdmitOnlyUntaggedAndPriorityTagged,
    AdmitOnlyVlanTagged,
}

/// Whether an ethernet port feeds power.
#[derive(Debug, Clone, Copy, PartialEq, Eq, Structural, Hash)]
pub enum PoeOut {
    AutoOn,
    ForcedOn,
    Off,
}

/// The version of an OSPF instance.
#[derive(Debug, Clone, Copy, PartialEq, Eq, Structural, Hash)]
pub enum OspfVersion {
    V2,
    V3,
}

/// A kind of route that an OSPF instance passes on.
#[derive(Debug, Clone, Copy, PartialEq, Eq, Structural, Hash)]
pub enum Redistribute {
    Connected,
    Static,
}

/// The speeds that a kind of ethernet port offers.
#[derive(Debug, Clone, Copy, PartialEq, Eq, Structural, Hash)]
pub enum Advertise {
    Upto100M,
    Upto1G,
    Upto1GFull,
    Upto1GSfp,
    Upto10G,
    Upto10GFull,
}

/// The tags of an entry of the VLAN table of a bridge.
#[derive(Debug, Clone, Copy, PartialEq, Eq, Structural, Hash)]
pub enum VlanIds {
    Single(u16),
    Range { start: u16, end: u16 },
}

/// The interface that stands for a plane on the device.
#[derive(Debug, Clone, PartialEq, Eq)]
pub enum MappedPlane {
    /// The VLAN `vid` on the interface `if_name`.
    Tagged { if_name: String, vid: u16 },
    /// The interface of this name itself.
    Untagged(String),
}

pub enum MappedPlaneView {
    Tagged { if_name: Seq<char>, vid: u16 },
    Untagged(Seq<char>),
}

impl View for MappedPlane {
    type V = MappedPlaneView;

    open spec fn view(&self) -> MappedPlaneView {
        match self {
            MappedPlane::Tagged { if_name, vid } => MappedPlaneView::Tagged {
                if_name: if_name@,
                vid: *vid,
            },
            MappedPlane::Untagged(n) => MappedPlaneView::Untagged(n@),
        }
    }
}

/// An ethernet port of the device.
#[derive(Debug, Clone, PartialEq, Eq)]
pub struct EthernetPort {
    /// The name under which the device lists the port.
    pub default_name: String,
    pub name: String,
    pub l2mtu: u16,
    pub advertise: Advertise,
    /// Whether the port can feed power.
    pub poe_capable: bool,
    pub poe_out: Option<PoeOut>,
}

pub struct EthernetPortView {
    pub default_name: Seq<char>,
    pub name: Seq<char>,
    pub l2mtu: u16,
    pub advertise: Advertise,
    pub poe_capable: bool,
    pub poe_out: Option<PoeOut>,
}

impl View for EthernetPort {
    type V = EthernetPortView;

    open spec fn view(&self) -> EthernetPortView {
        EthernetPortView {
            default_name: self.default_name@,
            name: self.name@,
            l2mtu: self.l2mtu,
            advertise: self.advertise,
            poe_capable: self.poe_capable,
            poe_out: self.poe_out,
        }
    }
}

impl Keyed for EthernetPort {
    type Key = Seq<char>;

    open spec fn key(v: EthernetPortView) -> Seq<char> {
        v.default_name
    }

    fn same_key(&self, other: &Self) -> (r: bool) {
        same_text(&self.default_name, &other.default_name)
    }
}

#[derive(Debug, Clone, PartialEq, Eq)]
pub struct Bridge {
    pub name: String,
    pub vlan_filtering: Option<bool>,
    pub ingress_filtering: Option<bool>,
    pub protocol_mode: Option<ProtocolMode>,
}

pub struct BridgeView {
    pub name: Seq<char>,
    pub vlan_filtering: Option<bool>,
    pub ingress_filtering: Option<bool>,
    pub protocol_mode: Option<ProtocolMode>,
}

impl View for Bridge {
    type V = BridgeView;

    open spec fn view(&self) -> BridgeView {
        BridgeView {
            name: self.name@,
            vlan_filtering: self.vlan_filtering,
            ingress_filtering: self.ingress_filtering,
            protocol_mode: self.protocol_mode,
        }
    }
}

impl Keyed for Bridge {
    type Key = Seq<char>;

    open spec fn key(v: BridgeView) -> Seq<char> {
        v.name
    }

    fn same_key(&self, other: &Self) -> (r: bool) {
        same_text(&self.name, &other.name)
    }
}

#[derive(Debug, Clone, PartialEq, Eq)]
pub struct BridgePort {
    pub bridge: String,
    pub interface: String,
    pub ingress_filtering: Option<bool>,
    pub frame_types: Option<VlanFrameTypes>,
    pub pvid: Option<u16>,
}

pub struct BridgePortView {
    pub bridge: Seq<char>,
    pub interface: Seq<char>,
    pub ingress_filtering: Option<bool>,
    pub frame_types: Option<VlanFrameTypes>,
    pub pvid: Option<u16>,
}

impl View for BridgePort {
    type V = BridgePortView;

    open spec fn view(&self) -> BridgePortView {
        BridgePortView {
            bridge: self.bridge@,
            interface: self.interface@,
            ingress_filtering: self.ingress_filtering,
            frame_types: self.frame_types,
            pvid: self.pvid,
        }
    }
}

impl Keyed for BridgePort {
    type Key = (Seq<char>, Seq<char>);

    open spec fn key(v: BridgePortView) -> (Seq<char>, Seq<char>) {
        (v.bridge, v.interface)
    }

    fn same_key(&self, other: &Self) -> (r: bool) {
        same_text(&self.bridge, &other.bridge) && same_text(&self.interface, &other.interface)
    }
}

/// An entry of the VLAN table of a bridge: the ports that carry the tags
/// tagged and untagged. The synthesis adds a port to a list where the list
/// does not hold it yet.
#[derive(Debug, Clone, PartialEq, Eq)]
pub struct BridgeVlan {
    pub bridge: String,
    pub tagged: Vec<String>,
    pub untagged: Vec<String>,
    pub vlan_ids: VlanIds,
}

pub struct BridgeVlanView {
    pub bridge: Seq<char>,
    pub tagged: Seq<Seq<char>>,
    pub untagged: Seq<Seq<char>>,
    pub vlan_ids: VlanIds,
}

impl View for BridgeVlan {
    type V = BridgeVlanView;

    open spec fn view(&self) -> BridgeVlanView {
        BridgeVlanView {
            bridge: self.bridge@,
            tagged: views(self.tagged@),
            untagged: views(self.untagged@),
            vlan_ids: self.vlan_ids,
        }
    }
}

/// Whether two lists of names hold the same names in the same order.
pub fn same_texts(a: &Vec<String>, b: &Vec<String>) -> (r: bool)
    ensures
        r == (views(a@) == views(b@)),
{
    if a.len() != b.len() {
        proof {
            assert(views(a@).len() != views(b@).len());
        }
        return false;
    }
    let mut i: usize = 0;
    while i < a.len()
        invariant
            i <= a.len(),
            a.len() == b.len(),
            forall|j: int| 0 <= j < i ==> a@[j]@ == b@[j]@,
        decreases a.len() - i,
    {
        if !same_text(&a[i], &b[i]) {
            proof {
                assert(views(a@)[i as int] == a@[i as int]@);
                assert(views(b@)[i as int] == b@[i as int]@);
            }
            return false;
        }
        i += 1;
    }
    proof {
        assert(views(a@) =~= views(b@));
    }
    true
}

impl Keyed for BridgeVlan {
    type Key = BridgeVlanView;

    open spec fn key(v: BridgeVlanView) -> BridgeVlanView {
        v
    }

    fn same_key(&self, other: &Self) -> (r: bool) {
        same_text(&self.bridge, &other.bridge) && same_texts(&self.tagged, &other.tagged)
            && same_texts(&self.untagged, &other.untagged) && self.vlan_ids == other.vlan_ids
    }
}

#[derive(Debug, Clone, PartialEq, Eq)]
pub struct Ipv4Address {
    pub address: Ipv4Net,
    pub interface: String,
}

pub struct Ipv4AddressView {
    pub address: Ipv4Net,
    pub interface: Seq<char>,
}

impl View for Ipv4Address {
    type V = Ipv4AddressView;

    open spec fn view(&self) -> Ipv4AddressView {
        Ipv4AddressView { address: self.address, interface: self.interface@ }
    }
}

impl Keyed for Ipv4Address {
    type Key = Ipv4Net;

    open spec fn key(v: Ipv4AddressView) -> Ipv4Net {
        v.address
    }

    fn same_key(&self, other: &Self) -> (r: bool) {
        self.address == other.address
    }
}

#[derive(Debug, Clone, PartialEq, Eq)]
pub struct Ipv6Address {
    pub address: Ipv6Net,
    pub interface: String,
}

pub struct Ipv6AddressView {
    pub address: Ipv6Net,
    pub interface: Seq<char>,
}

impl View for Ipv6Address {
    type V = Ipv6AddressView;

    open spec fn view(&self) -> Ipv6AddressView {
        Ipv6AddressView { address: self.address, interface: self.interface@ }
    }
}

impl Keyed for Ipv6Address {
    type Key = Ipv6Net;

    open spec fn key(v: Ipv6AddressView) -> Ipv6Net {
        v.address
    }

    fn same_key(&self, other: &Self) -> (r: bool) {
        self.address == other.address
    }
}

/// A VLAN interface: the VLAN `vlan_id` on the interface `interface`.
#[derive(Debug, Clone, PartialEq, Eq)]
pub struct VlanInterface {
    pub name: String,
    pub interface: String,
    pub vlan_id: u16,
}

pub struct VlanInterfaceView {
    pub name: Seq<char>,
    pub interface: Seq<char>,
    pub vlan_id: u16,
}

impl View for VlanInterface {
    type V = VlanInterfaceView;

    open spec fn view(&self) -> VlanInterfaceView {
        VlanInterfaceView { name: self.name@, interface: self.interface@, vlan_id: self.vlan_id }
    }
}

impl Keyed for VlanInterface {
    type Key = Seq<char>;

    open spec fn key(v: VlanInterfaceView) -> Seq<char> {
        v.name
    }

    fn same_key(&self, other: &Self) -> (r: bool) {
        same_text(&self.name, &other.name)
    }
}

#[derive(Debug, Clone, PartialEq, Eq)]
pub struct Vxlan {
    pub name: String,
    pub vni: u32,
}

pub struct VxlanView {
    pub name: Seq<char>,
    pub vni: u32,
}

impl View for Vxlan {
    type V = VxlanView;

    open spec fn view(&self) -> VxlanView {
        VxlanView { name: self.name@, vni: self.vni }
    }
}

impl Keyed for Vxlan {
    type Key = Seq<char>;

    open spec fn key(v: VxlanView) -> Seq<char> {
        v.name
    }

    fn same_key(&self, other: &Self) -> (r: bool) {
        same_text(&self.name, &other.name)
    }
}

/// A remote end of a VXLAN.
#[derive(Debug, Clone, PartialEq, Eq)]
pub struct VxlanVtep {
    pub interface: String,
    pub remote_ip: IpAddr,
}

pub struct VxlanVtepView {
    pub interface: Seq<char>,
    pub remote_ip: IpAddr,
}

impl View for VxlanVtep {
    type V = VxlanVtepView;

    open spec fn view(&self) -> VxlanVtepView {
        VxlanVtepView { interface: self.interface@, remote_ip: self.remote_ip }
    }
}

impl Keyed for VxlanVtep {
    type Key = VxlanVtepView;

    open spec fn key(v: VxlanVtepView) -> VxlanVtepView {
        v
    }

    fn same_key(&self, other: &Self) -> (r: bool) {
        same_text(&self.interface, &other.interface) && self.remote_ip == other.remote_ip
    }
}

#[derive(Debug, Clone, PartialEq, Eq)]
pub struct OspfInstance {
    pub name: String,
    pub version: Option<OspfVersion>,
    pub router_id: Option<String>,
    pub redistribute: Vec<Redistribute>,
}

pub struct OspfInstanceView {
    pub name: Seq<char>,
    pub version: Option<OspfVersion>,
    pub router_id: Option<Seq<char>>,
    pub redistribute: Seq<Redistribute>,
}

impl View for OspfInstance {
    type V = OspfInstanceView;

    open spec fn view(&self) -> OspfInstanceView {
        OspfInstanceView {
            name: self.name@,
            version: self.version,
            router_id: match self.router_id {
                Some(r) => Some(r@),
                None => None,
            },
            redistribute: self.redistribute@,
        }
    }
}

impl Keyed for OspfInstance {
    type Key = Seq<char>;

    open spec fn key(v: OspfInstanceView) -> Seq<char> {
        v.name
    }

    fn same_key(&self, other: &Self) -> (r: bool) {
        same_text(&self.name, &other.name)
    }
}

#[derive(Debug, Clone, PartialEq, Eq)]
pub struct OspfArea {
    pub name: String,
    pub instance: Option<String>,
}

pub struct OspfAreaView {
    pub name: Seq<char>,
    pub instance: Option<Seq<char>>,
}

impl View for OspfArea {
    type V = OspfAreaView;

    open spec fn view(&self) -> OspfAreaView {
        OspfAreaView {
            name: self.name@,
            instance: match self.instance {
                Some(i) => Some(i@),
                None => None,
            },
        }
    }
}

impl Keyed for OspfArea {
    type Key = Seq<char>;

    open spec fn key(v: OspfAreaView) -> Seq<char> {
        v.name
    }

    fn same_key(&self, other: &Self) -> (r: bool) {
        same_text(&self.name, &other.name)
    }
}

/// The interfaces of an OSPF area. The synthesis adds an interface where
/// the list does not hold it yet.
#[derive(Debug, Clone, PartialEq, Eq)]
pub struct OspfInterfaceTemplate {
    pub area: String,
    pub interfaces: Vec<String>,
    pub use_bfd: Option<bool>,
}

pub struct OspfInterfaceTemplateView {
    pub area: Seq<char>,
    pub interfaces: Seq<Seq<char>>,
    pub use_bfd: Option<bool>,
}

impl View for OspfInterfaceTemplate {
    type V = OspfInterfaceTemplateView;

    open spec fn view(&self) -> OspfInterfaceTemplateView {
        OspfInterfaceTemplateView {
            area: self.area@,
            interfaces: views(self.interfaces@),
            use_bfd: self.use_bfd,
        }
    }
}

impl Keyed for OspfInterfaceTemplate {
    type Key = Seq<char>;

    open spec fn key(v: OspfInterfaceTemplateView) -> Seq<char> {
        v.area
    }

    fn same_key(&self, other: &Self) -> (r: bool) {
        same_text(&self.area, &other.area)
    }
}

#[derive(Debug, Clone, PartialEq, Eq)]
pub struct DhcpClient {
    pub interface: String,
    pub add_default_route: bool,
    pub default_route_distance: Option<u8>,
    pub use_peer_dns: bool,
    pub use_peer_ntp: bool,
}

pub struct DhcpClientView {
    pub interface: Seq<char>,
    pub add_default_route: bool,
    pub default_route_distance: Option<u8>,
    pub use_peer_dns: bool,
    pub use_peer_ntp: bool,
}

impl View for DhcpClient {
    type V = DhcpClientView;

    open spec fn view(&self) -> DhcpClientView {
        DhcpClientView {
            interface: self.interface@,
            add_default_route: self.add_default_route,
            default_route_distance: self.default_route_distance,
            use_peer_dns: self.use_peer_dns,
            use_peer_ntp: self.use_peer_ntp,
        }
    }
}

impl Keyed for DhcpClient {
    type Key = Seq<char>;

    open spec fn key(v: DhcpClientView) -> Seq<char> {
        v.interface
    }

    fn same_key(&self, other: &Self) -> (r: bool) {
        same_text(&self.interface, &other.interface)
    }
}

#[derive(Debug, Clone, PartialEq, Eq)]
pub struct DhcpServer {
    pub name: String,
    pub interface: Option<String>,
    pub address_pool: Option<String>,
}

pub struct DhcpServerView {
    pub name: Seq<char>,
    pub interface: Option<Seq<char>>,
    pub address_pool: Option<Seq<char>>,
}

impl View for DhcpServer {
    type V = DhcpServerView;

    open spec fn view(&self) -> DhcpServerView {
        DhcpServerView {
            name: self.name@,
            interface: match self.interface {
                Some(i) => Some(i@),
                None => None,
            },
            address_pool: match self.address_pool {
                Some(p) => Some(p@),
                None => None,
            },
        }
    }
}

impl Keyed for DhcpServer {
    type Key = Seq<char>;

    open spec fn key(v: DhcpServerView) -> Seq<char> {
        v.name
    }

    fn same_key(&self, other: &Self) -> (r: bool) {
        same_text(&self.name, &other.name)
    }
}

/// What a DHCP server tells the clients of a network: the gateways and
/// the name servers. The synthesis adds an address to a list where the list
/// does not hold it yet.
#[derive(Debug, Clone, PartialEq, Eq)]
pub struct DhcpServerNetwork {
    pub address: Ipv4Net,
    pub gateway: Vec<Ipv4Addr>,
    pub dns_server: Vec<Ipv4Addr>,
}

pub struct DhcpServerNetworkView {
    pub address: Ipv4Net,
    pub gateway: Seq<Ipv4Addr>,
    pub dns_server: Seq<Ipv4Addr>,
}

impl View for DhcpServerNetwork {
    type V = DhcpServerNetworkView;

    open spec fn view(&self) -> DhcpServerNetworkView {
        DhcpServerNetworkView {
            address: self.address,
            gateway: self.gateway@,
            dns_server: self.dns_server@,
        }
    }
}

impl Keyed for DhcpServerNetwork {
    type Key = Ipv4Net;

    open spec fn key(v: DhcpServerNetworkView) -> Ipv4Net {
        v.address
    }

    fn same_key(&self, other: &Self) -> (r: bool) {
        self.address == other.address
    }
}

/// A range of addresses, both ends included.
#[derive(Debug, Clone, Copy, PartialEq, Eq, Structural, Hash)]
pub struct AddressRange {
    pub start: Ipv4Addr,
    pub end: Ipv4Addr,
}

/// The ranges of addresses that a DHCP server hands out.
#[derive(Debug, Clone, PartialEq, Eq)]
pub struct Ipv4Pool {
    pub name: String,
    pub ranges: Vec<AddressRange>,
}

pub struct Ipv4PoolView {
    pub name: Seq<char>,
    pub ranges: Seq<AddressRange>,
}

impl View for Ipv4Pool {
    type V = Ipv4PoolView;

    open spec fn view(&self) -> Ipv4PoolView {
        Ipv4PoolView { name: self.name@, ranges: self.ranges@ }
    }
}

impl Keyed for Ipv4Pool {
    type Key = Seq<char>;

    open spec fn key(v: Ipv4PoolView) -> Seq<char> {
        v.name
    }

    fn same_key(&self, other: &Self) -> (r: bool) {
        same_text(&self.name, &other.name)
    }
}

} // verus!
