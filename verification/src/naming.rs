//! Names for the ports of a device.

use crate::access::InterfaceAccess;
use crate::cable::far_port_of;
use crate::cable::CablePortAccess;
use crate::cable::PathView;
use crate::error::SetupError;
use crate::l2::NameGenerator;
use crate::text::is_ascii_alphanumeric;
use crate::text::join;
use crate::text::joined;
use crate::text::push_char;
use crate::text::views;
use crate::topology::CablePort;
use crate::topology::PhysicalPortId;
use crate::topology::Topology;
use convert_case::Case;
use convert_case::Casing;
use vstd::prelude::*;
use vstd::string::*;

verus! {

/// What `convert_case` makes of a text in kebab case.
pub uninterp spec fn kebab_case(s: Seq<char>) -> Seq<char>;

/// `convert_case::Casing::to_case` with `Case::Kebab`: the words of the
/// text in lower case with hyphens between them.
#[verifier::external_body]
pub(crate) fn to_kebab(s: &str) -> (r: String)
    ensures
        r@ == kebab_case(s@),
{
    s.to_case(Case::Kebab)
}

/// What a label character becomes in a port name: a letter or digit
/// stays, a hyphen or full stop becomes a hyphen, an umlaut is written out,
/// and every other character is left out.
pub open spec fn label_char(c: char) -> Seq<char> {
    if is_ascii_alphanumeric(c) {
        seq![c]
    } else if c == '-' || c == '.' {
        seq!['-']
    } else if c == 'ä' {
        seq!['a', 'e']
    } else if c == 'ö' {
        seq!['o', 'e']
    } else if c == 'ü' {
        seq!['u', 'e']
    } else {
        Seq::empty()
    }
}

/// What a label becomes in a port name.
pub open spec fn label_text(label: Seq<char>) -> Seq<char>
    decreases label.len(),
{
    if label.len() == 0 {
        Seq::empty()
    } else {
        label_text(label.drop_last()) + label_char(label.last())
    }
}

/// What a name becomes where it has to stand in another name: each of `.`,
/// `/`, `+` and `:` becomes `_`.
pub open spec fn cleaned(name: Seq<char>) -> Seq<char> {
    Seq::new(
        name.len(),
        |i: int|
            if name[i] == '.' || name[i] == '/' || name[i] == '+' || name[i] == ':' {
                '_'
            } else {
                name[i]
            },
    )
}

/// The name with each of `.`, `/`, `+` and `:` turned into `_`.
pub fn cleanup_name(name: &str) -> (r: String)
    ensures
        r@ == cleaned(name@),
{
    let n = name.unicode_len();
    let mut out = String::new();
    let mut i: usize = 0;
    while i < n
        invariant
            n == name@.len(),
            i <= n,
            out@ == cleaned(name@).take(i as int),
        decreases n - i,
    {
        let c = name.get_char(i);
        let d = if c == '.' || c == '/' || c == '+' || c == ':' {
            '_'
        } else {
            c
        };
        push_char(&mut out, d);
        proof {
            assert(cleaned(name@).take(i as int).push(d) =~= cleaned(name@).take(i as int + 1));
        }
        i += 1;
    }
    proof {
        assert(cleaned(name@).take(n as int) =~= cleaned(name@));
    }
    out
}

fn is_alphanumeric(c: char) -> (r: bool)
    ensures
        r == is_ascii_alphanumeric(c),
{
    ('0' <= c && c <= '9') || ('a' <= c && c <= 'z') || ('A' <= c && c <= 'Z')
}

impl<'a> InterfaceAccess<'a> {
    /// The name of the port of the interface on its device: the short name
    /// of its hardware port, followed by a hyphen and its label where it has
    /// one. `None` for an interface that is on no hardware port.
    pub open spec fn spec_interface_name(&self) -> Option<Seq<char>> {
        match self.spec_external_port() {
            Some(port) => match self.spec_label() {
                Some(label) => Some(port.spec_short_name() + seq!['-'] + label_text(label)),
                None => Some(port.spec_short_name()),
            },
            None => None,
        }
    }

    /// The name of the port of the interface on its device.
    pub fn interface_name(&self) -> (r: Option<String>)
        ensures
            r is Some <==> self.spec_interface_name() is Some,
            r matches Some(s) ==> s@ == self.spec_interface_name()->0,
    {
        match self.external_port() {
            Some(port) => {
                let mut name = port.short_name();
                match self.label() {
                    Some(label) => {
                        push_char(&mut name, '-');
                        let ghost head = name@;
                        let n = label.unicode_len();
                        let mut i: usize = 0;
                        proof {
                            assert(label@.take(0) =~= Seq::<char>::empty());
                            assert(head + label_text(label@.take(0)) =~= head);
                        }
                        while i < n
                            invariant
                                n == label@.len(),
                                i <= n,
                                name@ == head + label_text(label@.take(i as int)),
                            decreases n - i,
                        {
                            let c = label.get_char(i);
                            let ghost before = name@;
                            proof {
                                assert(label@.take(i as int + 1).drop_last() =~= label@.take(
                                    i as int,
                                ));
                                assert(label@.take(i as int + 1).last() == c);
                            }
                            if is_alphanumeric(c) {
                                push_char(&mut name, c);
                            } else if c == '-' || c == '.' {
                                push_char(&mut name, '-');
                            } else if c == 'ä' {
                                push_char(&mut name, 'a');
                                push_char(&mut name, 'e');
                            } else if c == 'ö' {
                                push_char(&mut name, 'o');
                                push_char(&mut name, 'e');
                            } else if c == 'ü' {
                                push_char(&mut name, 'u');
                                push_char(&mut name, 'e');
                            }
                            proof {
                                assert(name@ =~= before + label_char(c));
                                assert(name@ =~= head + label_text(label@.take(i as int + 1)));
                            }
                            i += 1;
                        }
                        proof {
                            assert(label@.take(n as int) =~= label@);
                        }
                        Some(name)
                    },
                    None => Some(name),
                }
            },
            None => None,
        }
    }

    /// The handle on the interface as a port of a cable.
    pub fn cable_port(&self) -> (r: CablePortAccess<'a>)
        ensures
            r.spec_port() == CablePort::Interface(self.id),
            r.spec_topology() == self.topology,
    {
        CablePortAccess::Interface(*self)
    }

    /// The interfaces at the far ends of the cabling of this interface, one
    /// for each walk that ends in an interface.
    pub open spec fn spec_connected_interfaces(&self) -> Option<Seq<crate::topology::InterfaceId>> {
        match self.topology.spec_cable_paths(CablePort::Interface(self.id)) {
            Some(paths) => Some(far_interfaces(paths)),
            None => None,
        }
    }

    /// The interfaces at the far ends of the cabling of this interface.
    pub fn connected_interfaces(&self) -> (r: Result<
        Vec<InterfaceAccess<'a>>,
        crate::error::CyclicCablingError,
    >)
        ensures
            r is Ok <==> self.spec_connected_interfaces() is Some,
            r matches Ok(list) ==> {
                &&& list@.len() == self.spec_connected_interfaces()->0.len()
                &&& forall|i: int|
                    0 <= i < list@.len() ==> (#[trigger] list@[i]).id
                        == self.spec_connected_interfaces()->0[i] && list@[i].topology
                        == self.topology
            },
    {
        let paths = match self.cable_port().collect_cables() {
            Ok(paths) => paths,
            Err(e) => {
                return Err(e);
            },
        };
        let ghost all = crate::cable::path_views(paths@);
        let mut out: Vec<InterfaceAccess<'a>> = Vec::new();
        let mut i: usize = 0;
        proof {
            assert(all.take(0) =~= Seq::<PathView>::empty());
        }
        while i < paths.len()
            invariant
                i <= paths.len(),
                all == crate::cable::path_views(paths@),
                forall|k: int| 0 <= k < paths@.len() ==> (#[trigger] paths@[k]).on(self.topology),
                out@.len() == far_interfaces(all.take(i as int)).len(),
                forall|k: int|
                    0 <= k < out@.len() ==> (#[trigger] out@[k]).id == far_interfaces(
                        all.take(i as int),
                    )[k] && out@[k].topology == self.topology,
            decreases paths.len() - i,
        {
            proof {
                assert(all.take(i as int + 1).drop_last() =~= all.take(i as int));
                assert(all.take(i as int + 1).last() == paths@[i as int]@);
                assert(paths@[i as int].on(self.topology));
            }
            match paths[i].far_port() {
                CablePortAccess::Interface(a) => {
                    out.push(*a);
                },
                _ => {},
            }
            i += 1;
        }
        proof {
            assert(all.take(paths@.len() as int) =~= all);
        }
        Ok(out)
    }
}

/// The interfaces in which the walks ended, in the order of the walks.
pub open spec fn far_interfaces(paths: Seq<PathView>) -> Seq<crate::topology::InterfaceId>
    decreases paths.len(),
{
    if paths.len() == 0 {
        Seq::empty()
    } else {
        match far_port_of(paths.last()) {
            CablePort::Interface(id) => far_interfaces(paths.drop_last()).push(id),
            _ => far_interfaces(paths.drop_last()),
        }
    }
}

/// What the walks from a port came to.
pub enum FarEnds {
    /// There was no walk.
    Nowhere,
    /// Every walk ended at this port.
    Single(CablePort),
    /// The walks ended at more than one port.
    Multiple,
}

/// What the walks came to. No walk comes out where it began, so every
/// walk counts.
pub open spec fn far_ends(paths: Seq<PathView>) -> FarEnds
    decreases paths.len(),
{
    if paths.len() == 0 {
        FarEnds::Nowhere
    } else {
        let far = far_port_of(paths.last());
        match far_ends(paths.drop_last()) {
            FarEnds::Nowhere => FarEnds::Single(far),
            FarEnds::Single(p) => if p == far {
                FarEnds::Single(p)
            } else {
                FarEnds::Multiple
            },
            FarEnds::Multiple => FarEnds::Multiple,
        }
    }
}

/// What is known of the port at the far end of the cabling, each name
/// already in kebab case.
#[derive(Debug, Clone)]
pub struct FarEnd {
    /// The name of the device that the port is on.
    pub device: Option<String>,
    /// The hardware port, where the far end is an interface on one.
    pub port: Option<PhysicalPortId>,
    /// The name of the port.
    pub name: Option<String>,
}

/// What is known of the port at the far end, each name as its characters.
pub struct FarEndView {
    pub device: Option<Seq<char>>,
    pub port: Option<PhysicalPortId>,
    pub name: Option<Seq<char>>,
}

impl View for FarEnd {
    type V = FarEndView;

    open spec fn view(&self) -> FarEndView {
        FarEndView {
            device: match self.device {
                Some(d) => Some(d@),
                None => None,
            },
            port: self.port,
            name: match self.name {
                Some(n) => Some(n@),
                None => None,
            },
        }
    }
}

/// The parts of the name of a port that is cabled to `far`: the short name
/// of its own hardware port, the name of the far device, and the short name
/// of the far hardware port or else the name of the far port; the name of
/// the interface alone where there is none of these.
pub open spec fn name_parts(
    own: Option<PhysicalPortId>,
    far: Option<FarEndView>,
    own_name: Seq<char>,
) -> Seq<Seq<char>> {
    let first: Seq<Seq<char>> = match own {
        Some(p) => seq![p.spec_short_name()],
        None => Seq::empty(),
    };
    let rest: Seq<Seq<char>> = match far {
        Some(f) => (match f.device {
            Some(d) => seq![d],
            None => Seq::empty(),
        }) + (match f.port {
            Some(p) => seq![p.spec_short_name()],
            None => match f.name {
                Some(n) => seq![n],
                None => Seq::empty(),
            },
        }),
        None => Seq::empty(),
    };
    if first.len() + rest.len() == 0 {
        seq![own_name]
    } else {
        first + rest
    }
}

/// The name of a port that is cabled to `far`: its parts with hyphens
/// between them.
pub open spec fn endpoint_name(
    own: Option<PhysicalPortId>,
    far: Option<FarEndView>,
    own_name: Seq<char>,
) -> Seq<char> {
    joined(name_parts(own, far, own_name), seq!['-'])
}

/// The name of a port that is cabled to `far`.
pub fn compose_name(own: Option<PhysicalPortId>, far: Option<&FarEnd>, own_name: &str) -> (r:
    String)
    ensures
        r@ == endpoint_name(
            own,
            match far {
                Some(f) => Some(f@),
                None => None,
            },
            own_name@,
        ),
{
    let ghost far_view = match far {
        Some(f) => Some(f@),
        None => None,
    };
    let mut parts: Vec<String> = Vec::new();
    proof {
        assert(views(parts@) =~= Seq::<Seq<char>>::empty());
    }
    match own {
        Some(p) => {
            parts.push(p.short_name());
            proof {
                assert(views(parts@) =~= seq![p.spec_short_name()]);
            }
        },
        None => {},
    }
    let ghost first = views(parts@);
    match far {
        Some(f) => {
            match &f.device {
                Some(d) => {
                    parts.push(d.clone());
                    proof {
                        assert(views(parts@) =~= first + seq![d@]);
                    }
                },
                None => {
                    proof {
                        assert(first + Seq::<Seq<char>>::empty() =~= first);
                    }
                },
            }
            let ghost second = views(parts@);
            match f.port {
                Some(p) => {
                    parts.push(p.short_name());
                    proof {
                        assert(views(parts@) =~= second + seq![p.spec_short_name()]);
                    }
                },
                None => match &f.name {
                    Some(n) => {
                        parts.push(n.clone());
                        proof {
                            assert(views(parts@) =~= second + seq![n@]);
                        }
                    },
                    None => {
                        proof {
                            assert(second + Seq::<Seq<char>>::empty() =~= second);
                        }
                    },
                },
            }
        },
        None => {
            proof {
                assert(first + Seq::<Seq<char>>::empty() =~= first);
            }
        },
    }
    if parts.len() == 0 {
        parts.push(String::from_str(own_name));
        proof {
            assert(views(parts@) =~= seq![own_name@]);
        }
    }
    proof {
        reveal_strlit("-");
        assert(views(parts@) =~= name_parts(own, far_view, own_name@));
        assert("-"@ =~= seq!['-']);
    }
    join(&parts, "-")
}

/// What the snapshot knows of a port, each name in kebab case.
pub open spec fn far_end_of(t: &Topology, port: CablePort) -> FarEndView {
    let access = port_handle(t, port);
    FarEndView {
        device: match access.spec_device() {
            Some(d) => Some(
                kebab_case(
                    match t.spec_device(d) {
                        Some(data) => data.name@,
                        None => Seq::empty(),
                    },
                ),
            ),
            None => None,
        },
        port: match port {
            CablePort::Interface(id) => match t.spec_interface(id) {
                Some(data) => data.external,
                None => None,
            },
            _ => None,
        },
        name: match access.spec_name() {
            Some(n) => Some(kebab_case(n)),
            None => None,
        },
    }
}

/// The handle on a port.
pub open spec fn port_handle<'a>(t: &'a Topology, port: CablePort) -> CablePortAccess<'a> {
    match port {
        CablePort::Interface(id) => CablePortAccess::Interface(InterfaceAccess { topology: t, id }),
        CablePort::FrontPort(id) => CablePortAccess::FrontPort(
            crate::access::FrontPortAccess { topology: t, id },
        ),
        CablePort::RearPort(id) => CablePortAccess::RearPort(
            crate::access::RearPortAccess { topology: t, id },
        ),
    }
}

/// Names a port after what it is cabled to: the short name of its own
/// hardware port, then the device and the port at the far end of its
/// cabling, where all its cabling ends at one port.
#[derive(Debug, Copy, Clone)]
pub struct EndpointNameGenerator;

impl NameGenerator for EndpointNameGenerator {
    open spec fn spec_name(&self, interface: InterfaceAccess<'_>) -> Option<Seq<char>> {
        let start = CablePort::Interface(interface.id);
        match interface.topology.spec_cable_paths(start) {
            Some(paths) => Some(
                endpoint_name(
                    interface.spec_external_port(),
                    match far_ends(paths) {
                        FarEnds::Single(far) => Some(far_end_of(interface.topology, far)),
                        _ => None,
                    },
                    kebab_case(interface.spec_name()),
                ),
            ),
            None => None,
        }
    }

    fn generate_interface_name(&mut self, interface: &InterfaceAccess<'_>) -> (r: Result<
        String,
        SetupError,
    >) {
        let start = interface.cable_port();
        let paths = match start.collect_cables() {
            Ok(paths) => paths,
            Err(_) => {
                return Err(SetupError::CyclicCabling);
            },
        };
        let ghost t = interface.topology;
        let ghost all = crate::cable::path_views(paths@);
        let mut seen: u8 = 0;
        let mut single: Option<CablePortAccess<'_>> = None;
        let mut i: usize = 0;
        proof {
            assert(all.take(0) =~= Seq::<PathView>::empty());
        }
        while i < paths.len()
            invariant
                i <= paths.len(),
                t == interface.topology,
                start.spec_port() == CablePort::Interface(interface.id),
                all == crate::cable::path_views(paths@),
                forall|k: int| 0 <= k < paths@.len() ==> (#[trigger] paths@[k]).on(t),
                seen <= 2,
                single is Some <==> seen == 1,
                single matches Some(p) ==> p.spec_topology() == t,
                far_ends(all.take(i as int)) == (if seen == 0 {
                    FarEnds::Nowhere
                } else if seen == 1 {
                    FarEnds::Single(single->0.spec_port())
                } else {
                    FarEnds::Multiple
                }),
            decreases paths.len() - i,
        {
            proof {
                assert(all.take(i as int + 1).drop_last() =~= all.take(i as int));
                assert(all.take(i as int + 1).last() == paths@[i as int]@);
                assert(paths@[i as int].on(t));
            }
            let far = paths[i].far_port();
            if seen == 0 {
                seen = 1;
                single = Some(*far);
            } else if seen == 1 {
                let same = match &single {
                    Some(p) => p.port() == far.port(),
                    None => false,
                };
                if !same {
                    seen = 2;
                    single = None;
                }
            }
            i += 1;
        }
        proof {
            assert(all.take(paths@.len() as int) =~= all);
        }
        let own_name = to_kebab(interface.name());
        match single {
            Some(access) => {
                let device = match access.device() {
                    Some(d) => Some(to_kebab(d.name())),
                    None => None,
                };
                let port = match &access {
                    CablePortAccess::Interface(a) => a.external_port(),
                    _ => None,
                };
                let name = match access.name() {
                    Some(n) => Some(to_kebab(n)),
                    None => None,
                };
                let far = FarEnd { device, port, name };
                proof {
                    assert(port_handle(t, access.spec_port()) == access);
                    assert(far@ == far_end_of(t, access.spec_port()));
                }
                Ok(compose_name(interface.external_port(), Some(&far), own_name.as_str()))
            },
            None => Ok(compose_name(interface.external_port(), None, own_name.as_str())),
        }
    }
}

} // verus!
