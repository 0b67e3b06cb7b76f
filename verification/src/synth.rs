//! The target configuration of a device, from the snapshot.

use crate::access::DeviceAccess;
use crate::access::InterfaceAccess;
use crate::addressing::with_addresses;
use crate::bridging::port_name;
use crate::bridging::with_l2;
use crate::bridging::SwitchVlanConcept;
use crate::error::SetupError;
use crate::error::SetupErrorView;
use crate::hw_facts::EthernetNamePattern;
use crate::hw_facts::EthernetPortSpec;
use crate::ip::IpAddr;
use crate::l2::plane_views;
use crate::l2::spec_planes;
use crate::l2::L2PlaneView;
use crate::l2::L2Setup;
use crate::model::EthernetPort;
use crate::model::EthernetPortView;
use crate::naming::EndpointNameGenerator;
use crate::plane_laws::lemma_planes_ethernet;
use crate::routing::with_ospf;
use crate::table::entry_views;
use crate::target::empty_target;
use crate::target::powered;
use crate::target::with_loopback;
use crate::target::BaseDeviceDataTarget;
use crate::target::TargetView;
use crate::topology::DeviceId;
use crate::topology::InterfaceId;
use crate::topology::PhysicalPortId;
use crate::topology::Topology;
use crate::wireless::with_wlan_ap;
use vstd::prelude::*;
use vstd::string::*;

verus! {

/// The ethernet ports after each of the first `n` interfaces that is on a
/// hardware port has had its port feed power, or not, as the inventory asks.
pub open spec fn with_poe(
    ethernet: Seq<EthernetPortView>,
    topology: &Topology,
    interfaces: Seq<InterfaceId>,
    n: int,
) -> Result<Seq<EthernetPortView>, SetupErrorView>
    decreases n,
{
    if n <= 0 {
        Ok(ethernet)
    } else {
        match with_poe(ethernet, topology, interfaces, n - 1) {
            Ok(before) => match topology.spec_interface(interfaces[n - 1]) {
                Some(d) => match d.external {
                    Some(port) => powered(before, port, d.enable_poe),
                    None => Ok(before),
                },
                None => Ok(before),
            },
            Err(e) => Err(e),
        }
    }
}

/// The address that the inventory has as the loopback address of a device.
pub open spec fn loopback_of(topology: &Topology, device: DeviceId) -> Option<IpAddr> {
    match topology.spec_device(device) {
        Some(d) => match d.loopback_ip {
            Some(id) => match topology.spec_ip_address(id) {
                Some(a) => Some(a.ip.spec_addr()),
                None => None,
            },
            None => None,
        },
        None => None,
    }
}

/// The name of a device; empty for one that the snapshot does not hold.
pub open spec fn device_name(topology: &Topology, device: DeviceId) -> Seq<char> {
    match topology.spec_device(device) {
        Some(d) => d.name@,
        None => Seq::empty(),
    }
}

/// The planes of a device, its ports named after what they are cabled to.
pub open spec fn device_planes(topology: &Topology, device: DeviceId) -> Result<
    Seq<L2PlaneView>,
    SetupError,
> {
    spec_planes(topology, device, L2Setup::names_of(topology, EndpointNameGenerator))
}

/// The target configuration of the device `device`, set up on top of `t`:
/// its name and loopback address, its planes wired up, power on its ports,
/// the addressing of its planes, OSPF and the transport of its wireless
/// networks. The first step that fails gives the error.
pub open spec fn generated(t: TargetView, topology: &Topology, device: DeviceId) -> Result<
    TargetView,
    SetupErrorView,
> {
    let named = TargetView { identity: device_name(topology, device), ..t };
    let looped = match loopback_of(topology, device) {
        Some(a) => with_loopback(named, a.spec_host()),
        None => named,
    };
    match device_planes(topology, device) {
        Ok(planes) => match with_l2(looped, planes) {
            Ok((wired, mapped)) => match with_poe(
                wired.ethernet,
                topology,
                topology.spec_interfaces_of(device),
                topology.spec_interfaces_of(device).len() as int,
            ) {
                Ok(ethernet) => match with_addresses(
                    TargetView { ethernet, ..wired },
                    topology,
                    mapped,
                ) {
                    Ok(addressed) => Ok(
                        with_wlan_ap(with_ospf(addressed, topology, device, mapped), topology, device),
                    ),
                    Err(e) => Err(e),
                },
                Err(e) => Err(e),
            },
            Err(e) => Err(e),
        },
        Err(e) => Err(e@),
    }
}

proof fn lemma_with_poe_err(
    ethernet: Seq<EthernetPortView>,
    topology: &Topology,
    interfaces: Seq<InterfaceId>,
    n: int,
)
    requires
        0 <= n <= interfaces.len(),
        with_poe(ethernet, topology, interfaces, n) is Err,
    ensures
        with_poe(ethernet, topology, interfaces, interfaces.len() as int) == with_poe(
            ethernet,
            topology,
            interfaces,
            n,
        ),
    decreases interfaces.len() - n,
{
    if n < interfaces.len() {
        lemma_with_poe_err(ethernet, topology, interfaces, n + 1);
    }
}

impl EthernetPort {
    /// The port that the device lists under `default_name`, with what the
    /// hardware offers and nothing set.
    pub fn from_spec(spec: &EthernetPortSpec, default_name: &str) -> (r: EthernetPort)
        ensures
            r@ == (EthernetPortView {
                default_name: default_name@,
                name: default_name@,
                l2mtu: spec.l2mtu,
                advertise: spec.advertise,
                poe_capable: spec.poe,
                poe_out: None,
            }),
    {
        EthernetPort {
            default_name: String::from_str(default_name),
            name: String::from_str(default_name),
            l2mtu: spec.l2mtu,
            advertise: spec.advertise,
            poe_capable: spec.poe,
            poe_out: None,
        }
    }
}

impl EthernetPortSpec {
    /// The hardware port that the inventory knows the port as, for the
    /// kinds of port that it knows.
    pub fn physical_port(&self) -> (r: Option<PhysicalPortId>)
        ensures
            r == (match self.pattern {
                EthernetNamePattern::Ether => Some(PhysicalPortId::Ethernet(self.index)),
                EthernetNamePattern::SfpSfpPlus => Some(PhysicalPortId::SfpSfpPlus(self.index)),
                _ => None,
            }),
    {
        match self.pattern {
            EthernetNamePattern::Ether => Some(PhysicalPortId::Ethernet(self.index)),
            EthernetNamePattern::SfpSfpPlus => Some(PhysicalPortId::SfpSfpPlus(self.index)),
            _ => None,
        }
    }
}

impl BaseDeviceDataTarget {
    /// A configuration for a device of the model `model` with the ethernet
    /// ports `ethernet` and nothing else. A model without ports is an error.
    pub fn new(model: &str, ethernet: Vec<EthernetPort>) -> (r: Result<Self, SetupError>)
        ensures
            ethernet@.len() > 0 ==> (r matches Ok(t) && t@ == empty_target(entry_views(ethernet@))),
            ethernet@.len() == 0 ==> (r matches Err(e) && e@ == SetupErrorView::NoPortsFound(
                model@,
            )),
    {
        if ethernet.len() == 0 {
            Err(SetupError::NoPortsFound(String::from_str(model)))
        } else {
            Ok(Self::with_ports(ethernet))
        }
    }

    /// A configuration for a device that was asked for its model:
    /// `model` is what it answered, `None` where it has no such record, and
    /// `ethernet` the ethernet ports of that model. A device without the
    /// record is an error, and so is a model without ports.
    pub fn detect_device(model: Option<&str>, ethernet: Vec<EthernetPort>) -> (r: Result<
        Self,
        SetupError,
    >)
        ensures
            match model {
                None => r matches Err(e) && e@ == SetupErrorView::RouterboardNotDefined,
                Some(m) => if ethernet@.len() > 0 {
                    r matches Ok(t) && t@ == empty_target(entry_views(ethernet@))
                } else {
                    r matches Err(e) && e@ == SetupErrorView::NoPortsFound(m@)
                },
            },
    {
        match model {
            None => Err(SetupError::RouterboardNotDefined),
            Some(m) => Self::new(m, ethernet),
        }
    }

    /// Sets up the configuration of `device` on top of this one.
    pub fn generate_from(self, device: &DeviceAccess<'_>) -> (r: Result<Self, SetupError>)
        ensures
            match generated(self@, device.topology, device.id) {
                Ok(target) => r matches Ok(t) && t@ == target,
                Err(e) => r matches Err(f) && f@ == e,
            },
    {
        let topology = device.topology;
        let mut t = self;
        t.set_identity(device.name());
        let loopback = match device.loopback_ip() {
            Some(ip) => ip.addr(),
            None => None,
        };
        match loopback {
            Some(a) => {
                t.set_loopback_ip(a);
            },
            None => {},
        }
        let mut generator = EndpointNameGenerator;
        let l2 = match L2Setup::new(device, &mut generator) {
            Ok(l2) => l2,
            Err(e) => {
                return Err(e);
            },
        };
        proof {
            lemma_planes_ethernet(
                topology,
                device.id,
                L2Setup::names_of(topology, EndpointNameGenerator),
            );
            let planes = plane_views(l2.planes@);
            assert forall|i: int, j: int|
                0 <= i < planes.len() && 0 <= j < planes[i].ports.len() implies port_name(
                #[trigger] planes[i].ports[j],
            ) is Some by {
                assert(!(planes[i].ports[j] is VxLan));
            }
        }
        let (wired, mapped) = match t.setup_l2(&l2, SwitchVlanConcept::OneBridge) {
            Ok(done) => done,
            Err(e) => {
                return Err(e);
            },
        };
        let mut t = wired;
        let interfaces = device.interfaces();
        let ghost ids = topology.spec_interfaces_of(device.id);
        let ghost start = t@;
        let ghost wanted = generated(self@, device.topology, device.id);
        let mut i: usize = 0;
        proof {
            assert(with_poe(start.ethernet, topology, ids, ids.len() as int) matches Err(e)
                ==> wanted == Err::<TargetView, SetupErrorView>(e));
        }
        while i < interfaces.len()
            invariant
                i <= interfaces.len(),
                wanted == generated(self@, device.topology, device.id),
                with_poe(start.ethernet, topology, ids, ids.len() as int) matches Err(e) ==> wanted
                    == Err::<TargetView, SetupErrorView>(e),
                interfaces@.len() == ids.len(),
                forall|k: int|
                    0 <= k < interfaces@.len() ==> (#[trigger] interfaces@[k]).topology == topology
                        && interfaces@[k].id == ids[k],
                with_poe(start.ethernet, topology, ids, i as int) == Ok::<
                    Seq<EthernetPortView>,
                    SetupErrorView,
                >(t@.ethernet),
                t@ == (TargetView { ethernet: t@.ethernet, ..start }),
            decreases interfaces.len() - i,
        {
            let port = &interfaces[i];
            proof {
                assert(*port == InterfaceAccess { topology, id: ids[i as int] });
            }
            match port.external_port() {
                Some(port_id) => {
                    match t.set_poe(port_id, port.enable_poe()) {
                        Ok(next) => {
                            t = next;
                        },
                        Err(e) => {
                            proof {
                                lemma_with_poe_err(start.ethernet, topology, ids, i as int + 1);
                            }
                            return Err(e);
                        },
                    }
                },
                None => {},
            }
            i += 1;
        }
        let mut t = match t.setup_ip_addresses(topology, &mapped) {
            Ok(t) => t,
            Err(e) => {
                return Err(e);
            },
        };
        t.setup_ospf(device, &mapped);
        t.setup_wlan_ap(device);
        Ok(t)
    }
}

/// A device without an interface that asks for OSPF gets no OSPF: the
/// instances, areas and interface templates stay as they were.
pub proof fn lemma_no_ospf_without_interfaces(
    t: TargetView,
    topology: &Topology,
    device: DeviceId,
    mapped: Seq<(InterfaceId, crate::model::MappedPlaneView)>,
)
    requires
        forall|i: int|
            0 <= i < mapped.len() ==> !(InterfaceAccess {
                topology,
                id: (#[trigger] mapped[i]).0,
            }).spec_use_ospf(),
    ensures
        with_ospf(t, topology, device, mapped) == t,
{
    lemma_no_ospf_ports(t, topology, mapped, mapped.len() as int);
}

proof fn lemma_no_ospf_ports(
    t: TargetView,
    topology: &Topology,
    mapped: Seq<(InterfaceId, crate::model::MappedPlaneView)>,
    n: int,
)
    requires
        n <= mapped.len(),
        forall|i: int|
            0 <= i < mapped.len() ==> !(InterfaceAccess {
                topology,
                id: (#[trigger] mapped[i]).0,
            }).spec_use_ospf(),
    ensures
        crate::routing::ospf_ports(t, topology, mapped, n) == (t, Seq::<Seq<char>>::empty()),
    decreases n,
{
    if n > 0 {
        lemma_no_ospf_ports(t, topology, mapped, n - 1);
        assert(!(InterfaceAccess { topology, id: mapped[n - 1].0 }).spec_use_ospf());
    }
}

} // verus!
