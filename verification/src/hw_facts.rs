//! The ports that each known model of device has.

use crate::model::Advertise;
use vstd::prelude::*;
use vstd::string::*;

verus! {

/// How the ethernet ports of a kind are named.
#[derive(Debug, Clone, Copy, PartialEq, Eq, Structural, Hash)]
pub enum EthernetNamePattern {
    Ether,
    Combo,
    Sfp,
    SfpSfpPlus,
    QsfpPlus,
}

/// An ethernet port of a model: its kind, its number among the ports that
/// are counted with it, and what the hardware offers.
#[derive(Debug, Clone, Copy, PartialEq, Eq, Structural, Hash)]
pub struct EthernetPortSpec {
    pub pattern: EthernetNamePattern,
    /// The number of the port, from 1.
    pub index: u16,
    pub advertise: Advertise,
    pub l2mtu: u16,
    /// Whether the port can feed power.
    pub poe: bool,
}

/// A radio of a model: its number, from 1, and its largest frame.
#[derive(Debug, Clone, Copy, PartialEq, Eq, Structural, Hash)]
pub struct RadioSpec {
    pub index: u16,
    pub l2mtu: u16,
}

/// `count` ports of one kind, numbered from `first`.
pub open spec fn run(
    pattern: EthernetNamePattern,
    advertise: Advertise,
    l2mtu: u16,
    poe: bool,
    first: u16,
    count: u16,
) -> Seq<EthernetPortSpec> {
    Seq::new(
        count as nat,
        |i: int| EthernetPortSpec { pattern, index: (first + i) as u16, advertise, l2mtu, poe },
    )
}

/// `count` radios, numbered from 1.
pub open spec fn radios(l2mtu: u16, count: u16) -> Seq<RadioSpec> {
    Seq::new(count as nat, |i: int| RadioSpec { index: (1 + i) as u16, l2mtu })
}

/// The ethernet ports of a model, in the order in which the device lists
/// them; none for a model that is not known.
pub open spec fn ethernet_ports_of(model: Seq<char>) -> Seq<EthernetPortSpec> {
    if model == "RB750Gr3"@ {
        run(EthernetNamePattern::Ether, Advertise::Upto1G, 1596, false, 1, 5)
    } else if model == "CRS326-24G-2S+"@ {
        run(EthernetNamePattern::Ether, Advertise::Upto1G, 1592, false, 1, 24) + run(
            EthernetNamePattern::SfpSfpPlus,
            Advertise::Upto10G,
            1592,
            false,
            1,
            2,
        )
    } else if model == "CRS318-16P-2S+"@ {
        run(EthernetNamePattern::Ether, Advertise::Upto1G, 1592, false, 1, 16) + run(
            EthernetNamePattern::SfpSfpPlus,
            Advertise::Upto10G,
            1592,
            false,
            1,
            2,
        )
    } else if model == "C52iG-5HaxD2HaxD"@ {
        run(EthernetNamePattern::Ether, Advertise::Upto1G, 1568, true, 1, 1) + run(
            EthernetNamePattern::Ether,
            Advertise::Upto1G,
            1568,
            false,
            2,
            4,
        )
    } else if model == "CCR1009-7G-1C-1S+"@ {
        run(EthernetNamePattern::Ether, Advertise::Upto1GFull, 1580, false, 1, 7) + run(
            EthernetNamePattern::Combo,
            Advertise::Upto1GFull,
            1580,
            false,
            1,
            1,
        ) + run(EthernetNamePattern::SfpSfpPlus, Advertise::Upto10GFull, 1580, false, 1, 1)
    } else if model == "CRS354-48G-4S+2Q+"@ {
        run(EthernetNamePattern::Ether, Advertise::Upto1G, 1592, false, 1, 48) + run(
            EthernetNamePattern::Ether,
            Advertise::Upto100M,
            1592,
            false,
            49,
            1,
        ) + run(EthernetNamePattern::SfpSfpPlus, Advertise::Upto10G, 1592, false, 1, 4) + run(
            EthernetNamePattern::QsfpPlus,
            Advertise::Upto10G,
            1592,
            false,
            1,
            8,
        )
    } else if model == "CRS109-8G-1S-2HnD"@ {
        run(EthernetNamePattern::Ether, Advertise::Upto1G, 1588, false, 1, 8) + run(
            EthernetNamePattern::Sfp,
            Advertise::Upto1GSfp,
            1588,
            false,
            1,
            1,
        )
    } else {
        Seq::empty()
    }
}

/// The wifi radios of a model.
pub open spec fn wifi_ports_of(model: Seq<char>) -> Seq<RadioSpec> {
    if model == "C52iG-5HaxD2HaxD"@ {
        radios(1560, 2)
    } else {
        Seq::empty()
    }
}

/// The radios of the older kind of a model.
pub open spec fn wireless_ports_of(model: Seq<char>) -> Seq<RadioSpec> {
    if model == "CRS109-8G-1S-2HnD"@ {
        radios(1600, 1)
    } else {
        Seq::empty()
    }
}

fn push_run(
    out: &mut Vec<EthernetPortSpec>,
    pattern: EthernetNamePattern,
    advertise: Advertise,
    l2mtu: u16,
    poe: bool,
    first: u16,
    count: u16,
)
    requires
        first + count <= u16::MAX,
    ensures
        final(out)@ == old(out)@ + run(pattern, advertise, l2mtu, poe, first, count),
{
    let mut i: u16 = 0;
    proof {
        assert(old(out)@ + run(pattern, advertise, l2mtu, poe, first, count).take(0) =~= old(out)@);
    }
    while i < count
        invariant
            i <= count,
            first + count <= u16::MAX,
            out@ == old(out)@ + run(pattern, advertise, l2mtu, poe, first, count).take(i as int),
        decreases count - i,
    {
        out.push(EthernetPortSpec { pattern, index: first + i, advertise, l2mtu, poe });
        proof {
            let all = run(pattern, advertise, l2mtu, poe, first, count);
            assert(old(out)@ + all.take(i as int + 1) =~= (old(out)@ + all.take(i as int)).push(
                all[i as int],
            ));
        }
        i += 1;
    }
    proof {
        let all = run(pattern, advertise, l2mtu, poe, first, count);
        assert(all.take(count as int) =~= all);
    }
}

fn build_radios(l2mtu: u16, count: u16) -> (r: Vec<RadioSpec>)
    requires
        count < u16::MAX,
    ensures
        r@ == radios(l2mtu, count),
{
    let mut out: Vec<RadioSpec> = Vec::new();
    let mut i: u16 = 0;
    while i < count
        invariant
            i <= count,
            count < u16::MAX,
            out@ == radios(l2mtu, count).take(i as int),
        decreases count - i,
    {
        out.push(RadioSpec { index: 1 + i, l2mtu });
        proof {
            assert(radios(l2mtu, count).take(i as int).push(radios(l2mtu, count)[i as int])
                =~= radios(l2mtu, count).take(i as int + 1));
        }
        i += 1;
    }
    proof {
        assert(radios(l2mtu, count).take(count as int) =~= radios(l2mtu, count));
    }
    out
}

fn is_model(model: &str, name: &str) -> (r: bool)
    ensures
        r == (model@ == name@),
{
    let a = String::from_str(model);
    let b = String::from_str(name);
    a.eq(&b)
}

/// The ethernet ports of a model, in the order in which the device lists
/// them; none for a model that is not known.
pub fn build_ethernet_ports(model: &str) -> (r: Vec<EthernetPortSpec>)
    ensures
        r@ == ethernet_ports_of(model@),
{
    let mut out: Vec<EthernetPortSpec> = Vec::new();
    if is_model(model, "RB750Gr3") {
        push_run(&mut out, EthernetNamePattern::Ether, Advertise::Upto1G, 1596, false, 1, 5);
    } else if is_model(model, "CRS326-24G-2S+") {
        push_run(&mut out, EthernetNamePattern::Ether, Advertise::Upto1G, 1592, false, 1, 24);
        push_run(&mut out, EthernetNamePattern::SfpSfpPlus, Advertise::Upto10G, 1592, false, 1, 2);
    } else if is_model(model, "CRS318-16P-2S+") {
        push_run(&mut out, EthernetNamePattern::Ether, Advertise::Upto1G, 1592, false, 1, 16);
        push_run(&mut out, EthernetNamePattern::SfpSfpPlus, Advertise::Upto10G, 1592, false, 1, 2);
    } else if is_model(model, "C52iG-5HaxD2HaxD") {
        push_run(&mut out, EthernetNamePattern::Ether, Advertise::Upto1G, 1568, true, 1, 1);
        push_run(&mut out, EthernetNamePattern::Ether, Advertise::Upto1G, 1568, false, 2, 4);
    } else if is_model(model, "CCR1009-7G-1C-1S+") {
        push_run(&mut out, EthernetNamePattern::Ether, Advertise::Upto1GFull, 1580, false, 1, 7);
        push_run(&mut out, EthernetNamePattern::Combo, Advertise::Upto1GFull, 1580, false, 1, 1);
        push_run(
            &mut out,
            EthernetNamePattern::SfpSfpPlus,
            Advertise::Upto10GFull,
            1580,
            false,
            1,
            1,
        );
    } else if is_model(model, "CRS354-48G-4S+2Q+") {
        push_run(&mut out, EthernetNamePattern::Ether, Advertise::Upto1G, 1592, false, 1, 48);
        push_run(&mut out, EthernetNamePattern::Ether, Advertise::Upto100M, 1592, false, 49, 1);
        push_run(&mut out, EthernetNamePattern::SfpSfpPlus, Advertise::Upto10G, 1592, false, 1, 4);
        push_run(&mut out, EthernetNamePattern::QsfpPlus, Advertise::Upto10G, 1592, false, 1, 8);
    } else if is_model(model, "CRS109-8G-1S-2HnD") {
        push_run(&mut out, EthernetNamePattern::Ether, Advertise::Upto1G, 1588, false, 1, 8);
        push_run(&mut out, EthernetNamePattern::Sfp, Advertise::Upto1GSfp, 1588, false, 1, 1);
    }
    proof {
        assert(out@ =~= ethernet_ports_of(model@));
    }
    out
}

/// The wifi radios of a model.
pub fn build_wifi_ports(model: &str) -> (r: Vec<RadioSpec>)
    ensures
        r@ == wifi_ports_of(model@),
{
    if is_model(model, "C52iG-5HaxD2HaxD") {
        build_radios(1560, 2)
    } else {
        Vec::new()
    }
}

/// The radios of the older kind of a model.
pub fn build_wireless_ports(model: &str) -> (r: Vec<RadioSpec>)
    ensures
        r@ == wireless_ports_of(model@),
{
    if is_model(model, "CRS109-8G-1S-2HnD") {
        build_radios(1600, 1)
    } else {
        Vec::new()
    }
}

} // verus!
