//! The inventory snapshot: devices, ports, cables, VLANs, WLANs and
//! addressing, each kind in a table of its own under its integer id.

use crate::ip::IpAddr;
use crate::ip::IpNet;
use crate::text::append_decimal;
use crate::text::append_decimal_two;
use crate::text::decimal;
use crate::text::decimal_two;
use crate::text::decimal_value;
use crate::text::is_digit;
use std::collections::HashMap;
use vstd::prelude::*;
use vstd::string::*;

verus! {

#[derive(Debug, Copy, Clone, PartialEq, Eq, Structural, PartialOrd, Ord, Hash)]
pub struct InterfaceId(pub u32);

#[derive(Debug, Copy, Clone, PartialEq, Eq, Structural, PartialOrd, Ord, Hash, Default)]
pub struct DeviceId(pub u32);

#[derive(Debug, Copy, Clone, PartialEq, Eq, Structural, PartialOrd, Ord, Hash)]
pub struct VxlanId(pub u32);

#[derive(Debug, Copy, Clone, PartialEq, Eq, Structural, PartialOrd, Ord, Hash)]
pub struct VlanId(pub u32);

#[derive(Debug, Copy, Clone, PartialEq, Eq, Structural, PartialOrd, Ord, Hash)]
pub struct WlanId(pub u32);

#[derive(Debug, Copy, Clone, PartialEq, Eq, Structural, PartialOrd, Ord, Hash)]
pub struct VlanGroupId(pub u32);

#[derive(Debug, Copy, Clone, PartialEq, Eq, Structural, PartialOrd, Ord, Hash)]
pub struct WlanGroupId(pub u32);

#[derive(Debug, Copy, Clone, PartialEq, Eq, Structural, PartialOrd, Ord, Hash)]
pub struct FrontPortId(pub u32);

#[derive(Debug, Copy, Clone, PartialEq, Eq, Structural, PartialOrd, Ord, Hash)]
pub struct RearPortId(pub u32);

#[derive(Debug, Copy, Clone, PartialEq, Eq, Structural, PartialOrd, Ord, Hash)]
pub struct CableId(pub u32);

#[derive(Debug, Copy, Clone, PartialEq, Eq, Structural, PartialOrd, Ord, Hash)]
pub struct IpRangeId(pub u32);

#[derive(Debug, Copy, Clone, PartialEq, Eq, Structural, PartialOrd, Ord, Hash)]
pub struct IpAddressId(pub u32);

#[derive(Debug, Copy, Clone, PartialEq, Eq, Structural, PartialOrd, Ord, Hash)]
pub struct IpPrefixId(pub u32);

/// A port that a cable can end in.
#[derive(Debug, Copy, Clone, PartialEq, Eq, Structural, PartialOrd, Ord, Hash)]
pub enum CablePort {
    Interface(InterfaceId),
    FrontPort(FrontPortId),
    RearPort(RearPortId),
}

#[derive(Debug, Copy, Clone, PartialEq, Eq, Structural, PartialOrd, Ord, Hash)]
pub enum PortType {
    Ethernet,
    Wireless,
    Loopback,
    Bridge,
}

/// The hardware port behind an interface: its kind and its slot.
#[derive(Debug, Copy, Clone, PartialEq, Eq, Structural, PartialOrd, Ord, Hash)]
pub enum PhysicalPortId {
    Ethernet(u16),
    SfpSfpPlus(u16),
    Wifi(u16),
    Wlan(u16),
    Loopback,
}

#[derive(Debug, Clone, PartialEq, Eq, Default)]
pub struct Device {
    pub name: String,
    /// The ports of the device. A snapshot that was built from records
    /// lists none twice.
    pub ports: Vec<CablePort>,
    pub primary_ip: Option<IpAddressId>,
    pub primary_ip_v4: Option<IpAddressId>,
    pub primary_ip_v6: Option<IpAddressId>,
    pub loopback_ip: Option<IpAddressId>,
    pub credentials: Option<String>,
    pub has_routeros: bool,
    pub serial: Option<String>,
    pub wlan_controller_of: Option<WlanGroupId>,
    pub wlan_ap_of: Option<WlanGroupId>,
    pub vlans: Vec<VlanId>,
}

#[derive(Debug, Clone, PartialEq, Eq)]
pub struct VxlanData {
    pub name: String,
    pub vni: u32,
    pub interface_terminations: Vec<InterfaceId>,
    pub vlan_terminations: Vec<VlanId>,
}

#[derive(Debug, Clone, PartialEq, Eq)]
pub struct VlanData {
    pub name: String,
    pub vlan_id: u16,
    pub group: VlanGroupId,
    pub terminations: Vec<InterfaceId>,
    pub vxlan: Option<VxlanId>,
    pub wlans: Vec<WlanId>,
}

#[derive(Debug, Clone, PartialEq, Eq)]
pub struct WlanGroupData {
    pub mgmt_vlan: Option<VlanId>,
    pub controller: DeviceId,
    pub aps: Vec<DeviceId>,
    pub wlans: Vec<WlanId>,
}

#[derive(Debug, Clone, PartialEq, Eq)]
pub struct VlanGroupData {
    pub vlans: Vec<VlanId>,
}

#[derive(Debug, Clone, PartialEq, Eq)]
pub struct WlanData {
    pub ssid: String,
    pub vlan: Option<VlanId>,
    pub wlan_auth: WlanAuth,
    pub wlan_group: WlanGroupId,
}

#[derive(Debug, Clone, PartialEq, Eq)]
pub struct IpRangeData {
    pub is_dhcp: bool,
    pub net: IpNet,
    pub start: IpAddr,
    pub end: IpAddr,
    pub prefix: Option<IpPrefixId>,
}

#[derive(Debug, Clone, PartialEq, Eq)]
pub struct IpAddressData {
    pub ip: IpNet,
    pub interface: Option<InterfaceId>,
    pub prefix: Option<IpPrefixId>,
}

#[derive(Debug, Clone, PartialEq, Eq)]
pub struct IpPrefixData {
    pub prefix: IpNet,
    pub addresses: Vec<IpAddressId>,
    pub children: Vec<IpPrefixId>,
    pub parent: Option<IpPrefixId>,
    pub ranges: Vec<IpRangeId>,
}

#[derive(Debug, Clone, PartialEq, Eq)]
pub enum WlanAuth {
    Wpa(WlanWpaSettings),
    Open(WlanOpenSettings),
}

#[derive(Debug, Clone, PartialEq, Eq)]
pub struct WlanWpaSettings {
    pub key: String,
}

#[derive(Debug, Clone, PartialEq, Eq)]
pub struct WlanOpenSettings {
    pub use_owe: bool,
}

#[derive(Debug, Clone, PartialEq, Eq, Default)]
pub struct Interface {
    pub name: String,
    pub label: String,
    pub device: DeviceId,
    pub external: Option<PhysicalPortId>,
    pub port_type: Option<PortType>,
    pub vlan: Option<VlanId>,
    pub tagged_vlans: Vec<VlanId>,
    pub ips: Vec<IpAddressId>,
    pub use_ospf: bool,
    pub enable_dhcp_client: bool,
    pub enable_dhcp_server: bool,
    pub bridge: Option<InterfaceId>,
    pub cable: Option<CableId>,
    pub enable_poe: bool,
}

#[derive(Debug, Clone, PartialEq, Eq, Default)]
pub struct FrontPort {
    pub name: String,
    pub device: DeviceId,
    pub rear_port: Option<RearPortId>,
    pub cable: Option<CableId>,
}

#[derive(Debug, Clone, PartialEq, Eq, Default)]
pub struct RearPort {
    pub name: String,
    pub device: DeviceId,
    pub front_port: Option<FrontPortId>,
    pub cable: Option<CableId>,
}

/// A cable between two sets of ports; a set has more than one port where
/// the cable fans out.
#[derive(Debug, Clone, PartialEq, Eq, Default)]
pub struct Cable {
    pub port_a: Vec<CablePort>,
    pub port_b: Vec<CablePort>,
}

/// A snapshot of the inventory. Every table is keyed by the number of the
/// id of its kind.
#[derive(Debug, Clone, Default)]
pub struct Topology {
    pub devices: HashMap<u32, Device>,
    pub interfaces: HashMap<u32, Interface>,
    pub front_ports: HashMap<u32, FrontPort>,
    pub rear_ports: HashMap<u32, RearPort>,
    pub cables: HashMap<u32, Cable>,
    pub vxlans: HashMap<u32, VxlanData>,
    pub wlan_groups: HashMap<u32, WlanGroupData>,
    pub wlans: HashMap<u32, WlanData>,
    pub vlan_groups: HashMap<u32, VlanGroupData>,
    pub vlans: HashMap<u32, VlanData>,
    pub ip_addresses: HashMap<u32, IpAddressData>,
    pub ip_prefixes: HashMap<u32, IpPrefixData>,
    pub ip_ranges: HashMap<u32, IpRangeData>,
}

impl Device {
    pub fn name(&self) -> (r: &str)
        ensures
            r@ == self.name@,
    {
        self.name.as_str()
    }

    pub fn credentials(&self) -> (r: Option<&str>)
        ensures
            r is Some <==> self.credentials is Some,
            r matches Some(c) ==> c@ == self.credentials->0@,
    {
        match &self.credentials {
            Some(c) => Some(c.as_str()),
            None => None,
        }
    }
}

/// The first place at or after `from` at which `pat` stands in `s` with a
/// digit behind it, or the length of `s` where there is none.
pub open spec fn find_numbered(s: Seq<char>, pat: Seq<char>, from: int) -> int
    decreases s.len() - from,
{
    if from < 0 || from >= s.len() {
        s.len() as int
    } else if numbered_at(s, pat, from) {
        from
    } else {
        find_numbered(s, pat, from + 1)
    }
}

/// Whether `pat` stands in `s` at `at` with a digit behind it.
pub open spec fn numbered_at(s: Seq<char>, pat: Seq<char>, at: int) -> bool {
    &&& 0 <= at
    &&& at + pat.len() < s.len()
    &&& s.subrange(at, at + pat.len()) == pat
    &&& is_digit(s[at + pat.len()])
}

/// The end of the run of digits that begins in `s` at `from`.
pub open spec fn digits_end(s: Seq<char>, from: int) -> int
    decreases s.len() - from,
{
    if from < 0 || from >= s.len() || !is_digit(s[from]) {
        from
    } else {
        digits_end(s, from + 1)
    }
}

/// The number behind the first `pat` in `s` that a digit follows, where it
/// fits in 16 bits.
pub open spec fn numbered(s: Seq<char>, pat: Seq<char>) -> Option<u16> {
    let at = find_numbered(s, pat, 0);
    if at >= s.len() {
        None
    } else {
        let v = decimal_value(s.subrange(at + pat.len(), digits_end(s, at + pat.len())));
        if v <= u16::MAX {
            Some(v as u16)
        } else {
            None
        }
    }
}

/// The hardware port that an interface name stands for. `lo` is the
/// loopback; otherwise the first of `ether`, `sfp-sfpplus`, `wifi` and
/// `wlan` that occurs in the name with a number behind it that fits in 16
/// bits decides, and where it occurs first in the name.
pub open spec fn parse_port_name(s: Seq<char>) -> Option<PhysicalPortId> {
    if s == "lo"@ {
        Some(PhysicalPortId::Loopback)
    } else if let Some(n) = numbered(s, "ether"@) {
        Some(PhysicalPortId::Ethernet(n))
    } else if let Some(n) = numbered(s, "sfp-sfpplus"@) {
        Some(PhysicalPortId::SfpSfpPlus(n))
    } else if let Some(n) = numbered(s, "wifi"@) {
        Some(PhysicalPortId::Wifi(n))
    } else if let Some(n) = numbered(s, "wlan"@) {
        Some(PhysicalPortId::Wlan(n))
    } else {
        None
    }
}

/// The characters of a string.
fn chars_of(s: &str) -> (r: Vec<char>)
    ensures
        r@ == s@,
{
    let n = s.unicode_len();
    let mut out: Vec<char> = Vec::new();
    let mut i: usize = 0;
    while i < n
        invariant
            n == s@.len(),
            i <= n,
            out@ == s@.take(i as int),
        decreases n - i,
    {
        out.push(s.get_char(i));
        proof {
            assert(s@.take(i as int).push(s@[i as int]) =~= s@.take(i as int + 1));
        }
        i += 1;
    }
    proof {
        assert(s@.take(n as int) =~= s@);
    }
    out
}

/// Whether `pat` stands in `s` at `at`.
fn stands_at(s: &Vec<char>, pat: &Vec<char>, at: usize) -> (r: bool)
    requires
        at + pat.len() <= s.len(),
    ensures
        r == (s@.subrange(at as int, at + pat.len()) == pat@),
{
    let mut j: usize = 0;
    while j < pat.len()
        invariant
            j <= pat.len(),
            at + pat.len() <= s.len(),
            forall|k: int| 0 <= k < j ==> s@[at + k] == pat@[k],
        decreases pat.len() - j,
    {
        if s[at + j] != pat[j] {
            proof {
                assert(s@.subrange(at as int, at + pat.len())[j as int] != pat@[j as int]);
            }
            return false;
        }
        j += 1;
    }
    proof {
        assert(s@.subrange(at as int, at + pat.len()) =~= pat@);
    }
    true
}

fn is_digit_char(c: char) -> (r: bool)
    ensures
        r == is_digit(c),
{
    '0' <= c && c <= '9'
}

/// The number behind the first `pat` in `s` that a digit follows.
fn scan_numbered(s: &Vec<char>, pat: &str) -> (r: Option<u16>)
    ensures
        r == numbered(s@, pat@),
{
    let p = chars_of(pat);
    if p.len() >= s.len() {
        proof {
            lemma_find_none(s@, p@, 0);
        }
        return None;
    }
    let last: usize = s.len() - p.len();
    let mut at: usize = 0;
    while at < last
        invariant
            p@ == pat@,
            p.len() < s.len(),
            last == s.len() - p.len(),
            at <= last,
            find_numbered(s@, p@, 0) == find_numbered(s@, p@, at as int),
        decreases last - at,
    {
        if stands_at(s, &p, at) && is_digit_char(s[at + p.len()]) {
            let start: usize = at + p.len();
            let mut end: usize = start;
            let mut value: u32 = 0;
            while end < s.len() && is_digit_char(s[end])
                invariant
                    start <= end <= s.len(),
                    digits_end(s@, start as int) == digits_end(s@, end as int),
                    value <= u16::MAX ==> value == decimal_value(
                        s@.subrange(start as int, end as int),
                    ),
                    value > u16::MAX ==> decimal_value(s@.subrange(start as int, end as int))
                        > u16::MAX,
                    value <= 10 * u16::MAX + 9,
                decreases s.len() - end,
            {
                let ghost before = s@.subrange(start as int, end as int);
                let ghost now = s@.subrange(start as int, end as int + 1);
                proof {
                    assert(now.drop_last() =~= before);
                    assert(now.last() == s@[end as int]);
                }
                if value <= 0xffff {
                    let digit: u32 = s[end] as u32 - '0' as u32;
                    value = value * 10 + digit;
                }
                end += 1;
            }
            proof {
                assert(s@.subrange(start as int, start as int) =~= Seq::<char>::empty());
            }
            if value <= 0xffff {
                return Some(value as u16);
            } else {
                return None;
            }
        }
        at += 1;
    }
    proof {
        lemma_find_none(s@, p@, at as int);
    }
    None
}

/// There is no place for `pat` and a digit from `from` on where fewer
/// characters than that are left.
proof fn lemma_find_none(s: Seq<char>, pat: Seq<char>, from: int)
    requires
        from >= 0,
        from + pat.len() >= s.len(),
    ensures
        find_numbered(s, pat, from) == s.len(),
    decreases s.len() - from,
{
    if from < s.len() {
        lemma_find_none(s, pat, from + 1);
    }
}

impl PhysicalPortId {
    /// The short name of the port: a letter for its kind and its slot in
    /// two digits or more; `lo` for the loopback.
    pub open spec fn spec_short_name(self) -> Seq<char> {
        match self {
            PhysicalPortId::Ethernet(id) => "e"@ + decimal_two(id as nat),
            PhysicalPortId::SfpSfpPlus(id) => "s"@ + decimal_two(id as nat),
            PhysicalPortId::Wifi(id) => "w"@ + decimal_two(id as nat),
            PhysicalPortId::Wlan(id) => "w"@ + decimal_two(id as nat),
            PhysicalPortId::Loopback => "lo"@,
        }
    }

    /// The name under which the device itself lists the port, for the
    /// kinds of port that it lists.
    pub open spec fn spec_default_name(self) -> Option<Seq<char>> {
        match self {
            PhysicalPortId::Ethernet(id) => Some("ether"@ + decimal(id as nat)),
            PhysicalPortId::SfpSfpPlus(id) => Some("sfp-sfpplus"@ + decimal(id as nat)),
            _ => None,
        }
    }

    /// The name of the port in the inventory.
    pub open spec fn spec_to_string(self) -> Seq<char> {
        match self {
            PhysicalPortId::Ethernet(id) => "ether"@ + decimal(id as nat),
            PhysicalPortId::SfpSfpPlus(id) => "sfp-sfpplus"@ + decimal(id as nat),
            PhysicalPortId::Wifi(id) => "wifi"@ + decimal(id as nat),
            PhysicalPortId::Wlan(id) => "wlan"@ + decimal(id as nat),
            PhysicalPortId::Loopback => "lo"@,
        }
    }

    pub fn short_name(&self) -> (r: String)
        ensures
            r@ == self.spec_short_name(),
    {
        match self {
            PhysicalPortId::Ethernet(id) => {
                let mut s = String::from_str("e");
                append_decimal_two(&mut s, *id as u64);
                s
            },
            PhysicalPortId::SfpSfpPlus(id) => {
                let mut s = String::from_str("s");
                append_decimal_two(&mut s, *id as u64);
                s
            },
            PhysicalPortId::Wifi(id) => {
                let mut s = String::from_str("w");
                append_decimal_two(&mut s, *id as u64);
                s
            },
            PhysicalPortId::Wlan(id) => {
                let mut s = String::from_str("w");
                append_decimal_two(&mut s, *id as u64);
                s
            },
            PhysicalPortId::Loopback => String::from_str("lo"),
        }
    }

    pub fn default_name(&self) -> (r: Option<String>)
        ensures
            r is Some <==> self.spec_default_name() is Some,
            r matches Some(s) ==> s@ == self.spec_default_name()->0,
    {
        match self {
            PhysicalPortId::Ethernet(id) => {
                let mut s = String::from_str("ether");
                append_decimal(&mut s, *id as u64);
                Some(s)
            },
            PhysicalPortId::SfpSfpPlus(id) => {
                let mut s = String::from_str("sfp-sfpplus");
                append_decimal(&mut s, *id as u64);
                Some(s)
            },
            PhysicalPortId::Wifi(_) => None,
            PhysicalPortId::Wlan(_) => None,
            PhysicalPortId::Loopback => None,
        }
    }

    pub fn is_ethernet(&self) -> (r: bool)
        ensures
            r == (self is Ethernet || self is SfpSfpPlus),
    {
        match self {
            PhysicalPortId::Ethernet(_) => true,
            PhysicalPortId::SfpSfpPlus(_) => true,
            PhysicalPortId::Wifi(_) => false,
            PhysicalPortId::Wlan(_) => false,
            PhysicalPortId::Loopback => false,
        }
    }

    /// The name of the port in the inventory.
    pub fn to_string(&self) -> (r: String)
        ensures
            r@ == self.spec_to_string(),
    {
        match self {
            PhysicalPortId::Ethernet(id) => {
                let mut s = String::from_str("ether");
                append_decimal(&mut s, *id as u64);
                s
            },
            PhysicalPortId::SfpSfpPlus(id) => {
                let mut s = String::from_str("sfp-sfpplus");
                append_decimal(&mut s, *id as u64);
                s
            },
            PhysicalPortId::Wifi(id) => {
                let mut s = String::from_str("wifi");
                append_decimal(&mut s, *id as u64);
                s
            },
            PhysicalPortId::Wlan(id) => {
                let mut s = String::from_str("wlan");
                append_decimal(&mut s, *id as u64);
                s
            },
            PhysicalPortId::Loopback => String::from_str("lo"),
        }
    }

    /// The hardware port that an interface name stands for.
    pub fn from_str(s: &str) -> (r: Result<PhysicalPortId, ()>)
        ensures
            r is Ok <==> parse_port_name(s@) is Some,
            r matches Ok(p) ==> parse_port_name(s@) == Some(p),
    {
        let chars = chars_of(s);
        let lo = chars_of("lo");
        if chars.len() == lo.len() && stands_at(&chars, &lo, 0) {
            proof {
                assert(chars@.subrange(0, chars@.len() as int) =~= chars@);
            }
            return Ok(PhysicalPortId::Loopback);
        }
        proof {
            if chars@.len() == lo@.len() {
                assert(chars@.subrange(0, chars@.len() as int) =~= chars@);
            }
        }
        if let Some(n) = scan_numbered(&chars, "ether") {
            Ok(PhysicalPortId::Ethernet(n))
        } else if let Some(n) = scan_numbered(&chars, "sfp-sfpplus") {
            Ok(PhysicalPortId::SfpSfpPlus(n))
        } else if let Some(n) = scan_numbered(&chars, "wifi") {
            Ok(PhysicalPortId::Wifi(n))
        } else if let Some(n) = scan_numbered(&chars, "wlan") {
            Ok(PhysicalPortId::Wlan(n))
        } else {
            Err(())
        }
    }
}

} // verus!
