//! OSPF on the planes of a device.
//!
//! A device with a primary IPv4 address and at least one plane whose
//! interface asks for OSPF gets an instance of each of the versions 2 and 3
//! that pass on connected and static routes, a backbone area for each, and
//! the interfaces of those planes in both areas.

use crate::access::DeviceAccess;
use crate::access::InterfaceAccess;
use crate::bridging::Mapped;
use crate::bridging::mapped_on;
use crate::bridging::mapped_views;
use crate::bridging::with_name;
use crate::model::MappedPlaneView;
use crate::model::OspfArea;
use crate::model::OspfAreaView;
use crate::model::OspfInstance;
use crate::model::OspfInstanceView;
use crate::model::OspfInterfaceTemplate;
use crate::model::OspfInterfaceTemplateView;
use crate::model::OspfVersion;
use crate::model::Redistribute;
use crate::table::amended;
use crate::table::ensure;
use crate::table::ensured;
use crate::table::entry_views;
use crate::table::lemma_position;
use crate::table::put;
use crate::target::mapped_name;
use crate::target::with_mapped_plane;
use crate::target::BaseDeviceDataTarget;
use crate::target::TargetView;
use crate::text::copy_names;
use crate::text::contains_text;
use crate::text::views;
use crate::topology::DeviceId;
use crate::topology::InterfaceId;
use crate::topology::Topology;
use crate::wireless::router_address_of;
use vstd::prelude::*;
use vstd::string::*;

verus! {

/// The routes that the instances pass on.
pub open spec fn redistributed() -> Seq<Redistribute> {
    seq![Redistribute::Connected, Redistribute::Static]
}

/// The instances with the instance `name` of the version `version` under
/// the router id `router_id`.
pub open spec fn with_instance(
    instances: Seq<OspfInstanceView>,
    name: Seq<char>,
    version: OspfVersion,
    router_id: Seq<char>,
) -> Seq<OspfInstanceView> {
    amended::<OspfInstance>(
        instances,
        OspfInstanceView { name, version: None, router_id: None, redistribute: Seq::empty() },
        |i: OspfInstanceView|
            OspfInstanceView {
                version: Some(version),
                router_id: Some(router_id),
                redistribute: redistributed(),
                ..i
            },
    )
}

/// The areas with the area `name` in the instance `instance`.
pub open spec fn with_area(areas: Seq<OspfAreaView>, name: Seq<char>, instance: Seq<char>) -> Seq<
    OspfAreaView,
> {
    amended::<OspfArea>(
        areas,
        OspfAreaView { name, instance: None },
        |a: OspfAreaView| OspfAreaView { instance: Some(instance), ..a },
    )
}

/// The interface templates with the interfaces `ports` in the area `area`.
pub open spec fn with_template(
    templates: Seq<OspfInterfaceTemplateView>,
    area: Seq<char>,
    ports: Seq<Seq<char>>,
) -> Seq<OspfInterfaceTemplateView> {
    amended::<OspfInterfaceTemplate>(
        templates,
        OspfInterfaceTemplateView { area, interfaces: Seq::empty(), use_bfd: None },
        |x: OspfInterfaceTemplateView|
            OspfInterfaceTemplateView { interfaces: ports, use_bfd: Some(false), ..x },
    )
}

/// The configuration with OSPF under the router id `router_id` on the
/// interfaces `ports`.
pub open spec fn with_ospf_routing(t: TargetView, router_id: Seq<char>, ports: Seq<Seq<char>>) -> TargetView {
    TargetView {
        ospf_instance: with_instance(
            with_instance(t.ospf_instance, "default-v2"@, OspfVersion::V2, router_id),
            "default-v3"@,
            OspfVersion::V3,
            router_id,
        ),
        ospf_area: with_area(
            with_area(t.ospf_area, "backbone-v2"@, "default-v2"@),
            "backbone-v3"@,
            "default-v3"@,
        ),
        ospf_interface: with_template(
            with_template(t.ospf_interface, "backbone-v2"@, ports),
            "backbone-v3"@,
            ports,
        ),
        ..t
    }
}

/// The configuration with the interfaces that stand for those of the
/// first `n` planes whose interface asks for OSPF, and the names of those
/// interfaces, each once.
pub open spec fn ospf_ports(
    t: TargetView,
    topology: &Topology,
    mapped: Seq<(InterfaceId, MappedPlaneView)>,
    n: int,
) -> (TargetView, Seq<Seq<char>>)
    decreases n,
{
    if n <= 0 {
        (t, Seq::empty())
    } else {
        let (before, names) = ospf_ports(t, topology, mapped, n - 1);
        let (interface, plane) = mapped[n - 1];
        if (InterfaceAccess { topology, id: interface }).spec_use_ospf() {
            (with_mapped_plane(before, plane), with_name(names, mapped_name(plane)))
        } else {
            (before, names)
        }
    }
}

/// The configuration with OSPF for the device, where it has a primary
/// IPv4 address and a plane whose interface asks for OSPF.
pub open spec fn with_ospf(
    t: TargetView,
    topology: &Topology,
    device: DeviceId,
    mapped: Seq<(InterfaceId, MappedPlaneView)>,
) -> TargetView {
    match router_address_of(topology, device) {
        Some(address) => {
            let (named, ports) = ospf_ports(t, topology, mapped, mapped.len() as int);
            if ports.len() == 0 {
                named
            } else {
                with_ospf_routing(named, address.spec_text(), ports)
            }
        },
        None => t,
    }
}

impl BaseDeviceDataTarget {
    fn set_instance(&mut self, name: &str, version: OspfVersion, router_id: &String)
        ensures
            final(self)@ == (TargetView {
                ospf_instance: with_instance(old(self)@.ospf_instance, name@, version, router_id@),
                ..old(self)@
            }),
    {
        let at = ensure(
            &mut self.ospf_instance,
            OspfInstance {
                name: String::from_str(name),
                version: None,
                router_id: None,
                redistribute: Vec::new(),
            },
        );
        proof {
            lemma_position::<OspfInstance>(
                ensured::<OspfInstance>(
                    entry_views(old(self).ospf_instance@),
                    OspfInstanceView {
                        name: name@,
                        version: None,
                        router_id: None,
                        redistribute: Seq::empty(),
                    },
                ),
                name@,
            );
        }
        let mut redistribute: Vec<Redistribute> = Vec::new();
        redistribute.push(Redistribute::Connected);
        redistribute.push(Redistribute::Static);
        proof {
            assert(redistribute@ =~= redistributed());
        }
        put(
            &mut self.ospf_instance,
            at,
            OspfInstance {
                name: String::from_str(name),
                version: Some(version),
                router_id: Some(router_id.clone()),
                redistribute,
            },
        );
    }

    fn set_area(&mut self, name: &str, instance: &str)
        ensures
            final(self)@ == (TargetView {
                ospf_area: with_area(old(self)@.ospf_area, name@, instance@),
                ..old(self)@
            }),
    {
        let at = ensure(&mut self.ospf_area, OspfArea { name: String::from_str(name), instance: None });
        proof {
            lemma_position::<OspfArea>(
                ensured::<OspfArea>(
                    entry_views(old(self).ospf_area@),
                    OspfAreaView { name: name@, instance: None },
                ),
                name@,
            );
        }
        put(
            &mut self.ospf_area,
            at,
            OspfArea { name: String::from_str(name), instance: Some(String::from_str(instance)) },
        );
    }

    fn set_template(&mut self, area: &str, ports: &Vec<String>)
        ensures
            final(self)@ == (TargetView {
                ospf_interface: with_template(old(self)@.ospf_interface, area@, views(ports@)),
                ..old(self)@
            }),
    {
        let fresh = OspfInterfaceTemplate {
            area: String::from_str(area),
            interfaces: Vec::new(),
            use_bfd: None,
        };
        proof {
            assert(views(fresh.interfaces@) =~= Seq::<Seq<char>>::empty());
        }
        let at = ensure(&mut self.ospf_interface, fresh);
        proof {
            lemma_position::<OspfInterfaceTemplate>(
                ensured::<OspfInterfaceTemplate>(
                    entry_views(old(self).ospf_interface@),
                    OspfInterfaceTemplateView {
                        area: area@,
                        interfaces: Seq::empty(),
                        use_bfd: None,
                    },
                ),
                area@,
            );
        }
        put(
            &mut self.ospf_interface,
            at,
            OspfInterfaceTemplate {
                area: String::from_str(area),
                interfaces: copy_names(ports),
                use_bfd: Some(false),
            },
        );
    }

    /// Sets up OSPF under the router id `router_id` on the interfaces
    /// `ports`.
    pub fn setup_ospf_routing(&mut self, router_id: &String, ports: &Vec<String>)
        ensures
            final(self)@ == with_ospf_routing(old(self)@, router_id@, views(ports@)),
    {
        self.set_instance("default-v2", OspfVersion::V2, router_id);
        self.set_instance("default-v3", OspfVersion::V3, router_id);
        self.set_area("backbone-v2", "default-v2");
        self.set_area("backbone-v3", "default-v3");
        self.set_template("backbone-v2", ports);
        self.set_template("backbone-v3", ports);
    }

    /// Sets up OSPF for the device on the interfaces that stand for the
    /// planes whose interface asks for it.
    pub fn setup_ospf<'a>(&mut self, device: &DeviceAccess<'a>, planes: &Vec<Mapped<'a>>)
        requires
            mapped_on(planes@, device.topology),
        ensures
            final(self)@ == with_ospf(old(self)@, device.topology, device.id, mapped_views(planes@)),
    {
        let t = device.topology;
        let router_id = match device.primary_ip_v4() {
            Some(ip) => ip.addr(),
            None => None,
        };
        match router_id {
            Some(router_id) => {
                let ghost all = mapped_views(planes@);
                let mut ports: Vec<String> = Vec::new();
                let mut i: usize = 0;
                proof {
                    assert(views(ports@) =~= Seq::<Seq<char>>::empty());
                }
                while i < planes.len()
                    invariant
                        i <= planes.len(),
                        all == mapped_views(planes@),
                        mapped_on(planes@, t),
                        (self@, views(ports@)) == ospf_ports(old(self)@, t, all, i as int),
                    decreases planes.len() - i,
                {
                    let interface = &planes[i].interface;
                    proof {
                        assert(all[i as int] == (interface.id, planes@[i as int].plane@));
                        assert(planes@[i as int].interface.topology == t);
                        assert(*interface == InterfaceAccess { topology: t, id: interface.id });
                    }
                    if interface.use_ospf() {
                        let name = self.if_of_mapped_plane(&planes[i].plane);
                        if !contains_text(&ports, &name) {
                            let ghost before = views(ports@);
                            ports.push(name);
                            proof {
                                assert(views(ports@) =~= before.push(
                                    mapped_name(planes@[i as int].plane@),
                                ));
                            }
                        }
                    }
                    i += 1;
                }
                if ports.len() > 0 {
                    let text = router_id.to_text();
                    self.setup_ospf_routing(&text, &ports);
                }
            },
            None => {},
        }
    }
}

} // verus!
