//! IP addresses and networks as plain integers.
//!
//! An address is its numeric value; a network is an address together with a
//! prefix length. The arithmetic on networks is delegated to `ipnet`.

use ipnet::IpAdd;
use ipnet::IpSub;
use crate::text::append_decimal;
use crate::text::decimal;
use crate::text::push_char;
use vstd::prelude::*;
use vstd::string::*;

verus! {

/// An IPv4 address, held as its 32 bit value in host order.
#[derive(Clone, Copy, Debug, PartialEq, Eq, Structural, Hash, PartialOrd, Ord)]
pub struct Ipv4Addr(pub u32);

/// An IPv6 address, held as its 128 bit value in host order.
#[derive(Clone, Copy, Debug, PartialEq, Eq, Structural, Hash, PartialOrd, Ord)]
pub struct Ipv6Addr(pub u128);

/// An address of either family.
#[derive(Clone, Copy, Debug, PartialEq, Eq, Structural, Hash, PartialOrd, Ord)]
pub enum IpAddr {
    V4(Ipv4Addr),
    V6(Ipv6Addr),
}

/// An IPv4 address with a prefix length of at most 32.
#[derive(Clone, Copy, Debug, PartialEq, Eq, Structural, Hash, PartialOrd, Ord)]
pub struct Ipv4Net {
    addr: Ipv4Addr,
    prefix_len: u8,
}

/// An IPv6 address with a prefix length of at most 128.
#[derive(Clone, Copy, Debug, PartialEq, Eq, Structural, Hash, PartialOrd, Ord)]
pub struct Ipv6Net {
    addr: Ipv6Addr,
    prefix_len: u8,
}

/// A network of either family.
#[derive(Clone, Copy, Debug, PartialEq, Eq, Structural, Hash, PartialOrd, Ord)]
pub enum IpNet {
    V4(Ipv4Net),
    V6(Ipv6Net),
}

/// The IPv4 network mask of a prefix length.
pub open spec fn netmask_v4(prefix_len: u8) -> u32 {
    if prefix_len == 0 {
        0u32
    } else if prefix_len >= 32 {
        0xffff_ffffu32
    } else {
        0xffff_ffffu32 << ((32 - prefix_len) as u32)
    }
}

/// The IPv4 host mask of a prefix length.
pub open spec fn hostmask_v4(prefix_len: u8) -> u32 {
    if prefix_len >= 32 {
        0u32
    } else {
        0xffff_ffffu32 >> (prefix_len as u32)
    }
}

/// The IPv6 network mask of a prefix length.
pub open spec fn netmask_v6(prefix_len: u8) -> u128 {
    if prefix_len == 0 {
        0u128
    } else if prefix_len >= 128 {
        0xffff_ffff_ffff_ffff_ffff_ffff_ffff_ffffu128
    } else {
        0xffff_ffff_ffff_ffff_ffff_ffff_ffff_ffffu128 << ((128 - prefix_len) as u128)
    }
}

/// The IPv6 host mask of a prefix length.
pub open spec fn hostmask_v6(prefix_len: u8) -> u128 {
    if prefix_len >= 128 {
        0u128
    } else {
        0xffff_ffff_ffff_ffff_ffff_ffff_ffff_ffffu128 >> (prefix_len as u128)
    }
}

/// Addition that stops at the highest address.
pub open spec fn saturating_add_v4(a: u32, n: u32) -> u32 {
    if a + n > u32::MAX {
        u32::MAX
    } else {
        (a + n) as u32
    }
}

/// Subtraction that stops at the lowest address.
pub open spec fn saturating_sub_v4(a: u32, n: u32) -> u32 {
    if a < n {
        0u32
    } else {
        (a - n) as u32
    }
}

/// Addition that stops at the highest address.
pub open spec fn saturating_add_v6(a: u128, n: u128) -> u128 {
    if a + n > u128::MAX {
        u128::MAX
    } else {
        (a + n) as u128
    }
}

/// Subtraction that stops at the lowest address.
pub open spec fn saturating_sub_v6(a: u128, n: u128) -> u128 {
    if a < n {
        0u128
    } else {
        (a - n) as u128
    }
}

/// `ipnet::Ipv4Net::network`: the address with every host bit cleared.
#[verifier::external_body]
fn network_bits_v4(addr: u32, prefix_len: u8) -> (r: u32)
    requires
        prefix_len <= 32,
    ensures
        r == addr & netmask_v4(prefix_len),
{
    ipnet::Ipv4Net::new_assert(addr.into(), prefix_len).network().into()
}

/// `ipnet::Ipv4Net::broadcast`: the address with every host bit set.
#[verifier::external_body]
fn broadcast_bits_v4(addr: u32, prefix_len: u8) -> (r: u32)
    requires
        prefix_len <= 32,
    ensures
        r == addr | hostmask_v4(prefix_len),
{
    ipnet::Ipv4Net::new_assert(addr.into(), prefix_len).broadcast().into()
}

/// `ipnet::Ipv6Net::network`: the address with every host bit cleared.
#[verifier::external_body]
fn network_bits_v6(addr: u128, prefix_len: u8) -> (r: u128)
    requires
        prefix_len <= 128,
    ensures
        r == addr & netmask_v6(prefix_len),
{
    ipnet::Ipv6Net::new_assert(addr.into(), prefix_len).network().into()
}

/// `ipnet::Ipv6Net::broadcast`: the address with every host bit set.
#[verifier::external_body]
fn broadcast_bits_v6(addr: u128, prefix_len: u8) -> (r: u128)
    requires
        prefix_len <= 128,
    ensures
        r == addr | hostmask_v6(prefix_len),
{
    ipnet::Ipv6Net::new_assert(addr.into(), prefix_len).broadcast().into()
}

/// `ipnet::IpAdd::saturating_add` on an IPv4 address: the sum, or the
/// highest address where the sum would pass it.
#[verifier::external_body]
fn add_bits_v4(addr: u32, n: u32) -> (r: u32)
    ensures
        r == saturating_add_v4(addr, n),
{
    ipnet::Ipv4Net::new_assert(addr.into(), 32).addr().saturating_add(n).into()
}

/// `ipnet::IpSub::saturating_sub` on an IPv4 address: the difference, or the
/// lowest address where the difference would pass it.
#[verifier::external_body]
fn sub_bits_v4(addr: u32, n: u32) -> (r: u32)
    ensures
        r == saturating_sub_v4(addr, n),
{
    ipnet::Ipv4Net::new_assert(addr.into(), 32).addr().saturating_sub(n).into()
}

/// `ipnet::IpAdd::saturating_add` on an IPv6 address: the sum, or the
/// highest address where the sum would pass it.
#[verifier::external_body]
fn add_bits_v6(addr: u128, n: u128) -> (r: u128)
    ensures
        r == saturating_add_v6(addr, n),
{
    ipnet::Ipv6Net::new_assert(addr.into(), 128).addr().saturating_add(n).into()
}

/// `ipnet::IpSub::saturating_sub` on an IPv6 address: the difference, or the
/// lowest address where the difference would pass it.
#[verifier::external_body]
fn sub_bits_v6(addr: u128, n: u128) -> (r: u128)
    ensures
        r == saturating_sub_v6(addr, n),
{
    ipnet::Ipv6Net::new_assert(addr.into(), 128).addr().saturating_sub(n).into()
}

impl Ipv4Addr {
    /// The address `a.b.c.d`.
    pub fn new(a: u8, b: u8, c: u8, d: u8) -> (r: Ipv4Addr)
        ensures
            r.0 == a as u32 * 0x100_0000 + b as u32 * 0x1_0000 + c as u32 * 0x100 + d as u32,
    {
        Ipv4Addr(a as u32 * 0x100_0000 + b as u32 * 0x1_0000 + c as u32 * 0x100 + d as u32)
    }

    /// The numeric value of the address.
    pub fn bits(&self) -> (r: u32)
        ensures
            r == self.0,
    {
        self.0
    }

    /// The address `n` above this one, or the highest address.
    pub fn saturating_add(self, n: u32) -> (r: Ipv4Addr)
        ensures
            r.0 == saturating_add_v4(self.0, n),
    {
        Ipv4Addr(add_bits_v4(self.0, n))
    }

    /// The address `n` below this one, or the lowest address.
    pub fn saturating_sub(self, n: u32) -> (r: Ipv4Addr)
        ensures
            r.0 == saturating_sub_v4(self.0, n),
    {
        Ipv4Addr(sub_bits_v4(self.0, n))
    }
}

impl Ipv6Addr {
    /// The numeric value of the address.
    pub fn bits(&self) -> (r: u128)
        ensures
            r == self.0,
    {
        self.0
    }

    /// The address `n` above this one, or the highest address.
    pub fn saturating_add(self, n: u128) -> (r: Ipv6Addr)
        ensures
            r.0 == saturating_add_v6(self.0, n),
    {
        Ipv6Addr(add_bits_v6(self.0, n))
    }

    /// The address `n` below this one, or the lowest address.
    pub fn saturating_sub(self, n: u128) -> (r: Ipv6Addr)
        ensures
            r.0 == saturating_sub_v6(self.0, n),
    {
        Ipv6Addr(sub_bits_v6(self.0, n))
    }
}

impl Ipv4Net {
    #[verifier::type_invariant]
    spec fn inv(self) -> bool {
        self.prefix_len <= 32
    }

    /// The address part, host bits included.
    pub closed spec fn spec_addr(self) -> Ipv4Addr {
        self.addr
    }

    /// The prefix length.
    pub closed spec fn spec_prefix_len(self) -> u8 {
        self.prefix_len
    }

    /// The network address.
    pub open spec fn spec_network(self) -> Ipv4Addr {
        Ipv4Addr(self.spec_addr().0 & netmask_v4(self.spec_prefix_len()))
    }

    /// The broadcast address.
    pub open spec fn spec_broadcast(self) -> Ipv4Addr {
        Ipv4Addr(self.spec_addr().0 | hostmask_v4(self.spec_prefix_len()))
    }

    /// The network of an address and a prefix length.
    pub closed spec fn spec_new(addr: Ipv4Addr, prefix_len: u8) -> Ipv4Net {
        Ipv4Net { addr, prefix_len }
    }

    /// The same network with the host bits of the address cleared.
    pub closed spec fn spec_trunc(self) -> Ipv4Net {
        Ipv4Net { addr: self.spec_network(), prefix_len: self.prefix_len }
    }

    /// The network one bit shorter that contains this one.
    pub closed spec fn spec_supernet(self) -> Option<Ipv4Net> {
        if self.prefix_len == 0 {
            None
        } else {
            Some(
                Ipv4Net {
                    addr: Ipv4Addr(self.addr.0 & netmask_v4((self.prefix_len - 1) as u8)),
                    prefix_len: (self.prefix_len - 1) as u8,
                },
            )
        }
    }

    /// What a network is made of, and what the network above it is.
    pub proof fn lemma_parts(addr: Ipv4Addr, prefix_len: u8, net: Ipv4Net)
        ensures
            Self::spec_new(addr, prefix_len).spec_addr() == addr,
            Self::spec_new(addr, prefix_len).spec_prefix_len() == prefix_len,
            net.spec_trunc().spec_addr() == net.spec_network(),
            net.spec_trunc().spec_prefix_len() == net.spec_prefix_len(),
            net.spec_supernet() is Some <==> net.spec_prefix_len() > 0,
            net.spec_supernet() matches Some(n) ==> n.spec_prefix_len() == net.spec_prefix_len() - 1
                && n.spec_addr().0 == net.spec_addr().0 & netmask_v4(
                (net.spec_prefix_len() - 1) as u8,
            ),
    {
    }

    /// A network from an address and a prefix length; `None` where the
    /// prefix length exceeds 32.
    pub fn new(addr: Ipv4Addr, prefix_len: u8) -> (r: Option<Ipv4Net>)
        ensures
            r is Some <==> prefix_len <= 32,
            r matches Some(n) ==> n == Self::spec_new(addr, prefix_len) && n.spec_addr() == addr
                && n.spec_prefix_len() == prefix_len,
    {
        if prefix_len > 32 {
            None
        } else {
            Some(Ipv4Net { addr, prefix_len })
        }
    }

    /// The address part, host bits included.
    pub fn addr(&self) -> (r: Ipv4Addr)
        ensures
            r == self.spec_addr(),
    {
        self.addr
    }

    /// The prefix length.
    pub fn prefix_len(&self) -> (r: u8)
        ensures
            r == self.spec_prefix_len(),
            r <= 32,
    {
        proof {
            use_type_invariant(self);
        }
        self.prefix_len
    }

    /// The network address.
    pub fn network(&self) -> (r: Ipv4Addr)
        ensures
            r == self.spec_network(),
    {
        proof {
            use_type_invariant(self);
        }
        Ipv4Addr(network_bits_v4(self.addr.0, self.prefix_len))
    }

    /// The broadcast address.
    pub fn broadcast(&self) -> (r: Ipv4Addr)
        ensures
            r == self.spec_broadcast(),
    {
        proof {
            use_type_invariant(self);
        }
        Ipv4Addr(broadcast_bits_v4(self.addr.0, self.prefix_len))
    }

    /// The same network with the host bits of the address cleared.
    pub fn trunc(&self) -> (r: Ipv4Net)
        ensures
            r == self.spec_trunc(),
            r.spec_addr() == self.spec_network(),
            r.spec_prefix_len() == self.spec_prefix_len(),
    {
        proof {
            use_type_invariant(self);
        }
        Ipv4Net { addr: self.network(), prefix_len: self.prefix_len }
    }

    /// The network one bit shorter that contains this one; `None` for a
    /// network of prefix length 0.
    pub fn supernet(&self) -> (r: Option<Ipv4Net>)
        ensures
            r == self.spec_supernet(),
            r is Some <==> self.spec_prefix_len() > 0,
            r matches Some(n) ==> {
                &&& n.spec_prefix_len() == self.spec_prefix_len() - 1
                &&& n.spec_addr().0 == self.spec_addr().0 & netmask_v4(
                    (self.spec_prefix_len() - 1) as u8,
                )
            },
    {
        proof {
            use_type_invariant(self);
        }
        if self.prefix_len == 0 {
            None
        } else {
            let shorter: u8 = self.prefix_len - 1;
            Some(Ipv4Net { addr: Ipv4Addr(network_bits_v4(self.addr.0, shorter)), prefix_len: shorter })
        }
    }
}

impl Ipv6Net {
    #[verifier::type_invariant]
    spec fn inv(self) -> bool {
        self.prefix_len <= 128
    }

    /// The address part, host bits included.
    pub closed spec fn spec_addr(self) -> Ipv6Addr {
        self.addr
    }

    /// The prefix length.
    pub closed spec fn spec_prefix_len(self) -> u8 {
        self.prefix_len
    }

    /// The network address.
    pub open spec fn spec_network(self) -> Ipv6Addr {
        Ipv6Addr(self.spec_addr().0 & netmask_v6(self.spec_prefix_len()))
    }

    /// The broadcast address.
    pub open spec fn spec_broadcast(self) -> Ipv6Addr {
        Ipv6Addr(self.spec_addr().0 | hostmask_v6(self.spec_prefix_len()))
    }

    /// The network of an address and a prefix length.
    pub closed spec fn spec_new(addr: Ipv6Addr, prefix_len: u8) -> Ipv6Net {
        Ipv6Net { addr, prefix_len }
    }

    /// The same network with the host bits of the address cleared.
    pub closed spec fn spec_trunc(self) -> Ipv6Net {
        Ipv6Net { addr: self.spec_network(), prefix_len: self.prefix_len }
    }

    /// The network one bit shorter that contains this one.
    pub closed spec fn spec_supernet(self) -> Option<Ipv6Net> {
        if self.prefix_len == 0 {
            None
        } else {
            Some(
                Ipv6Net {
                    addr: Ipv6Addr(self.addr.0 & netmask_v6((self.prefix_len - 1) as u8)),
                    prefix_len: (self.prefix_len - 1) as u8,
                },
            )
        }
    }

    /// What a network is made of, and what the network above it is.
    pub proof fn lemma_parts(addr: Ipv6Addr, prefix_len: u8, net: Ipv6Net)
        ensures
            Self::spec_new(addr, prefix_len).spec_addr() == addr,
            Self::spec_new(addr, prefix_len).spec_prefix_len() == prefix_len,
            net.spec_trunc().spec_addr() == net.spec_network(),
            net.spec_trunc().spec_prefix_len() == net.spec_prefix_len(),
            net.spec_supernet() is Some <==> net.spec_prefix_len() > 0,
            net.spec_supernet() matches Some(n) ==> n.spec_prefix_len() == net.spec_prefix_len() - 1
                && n.spec_addr().0 == net.spec_addr().0 & netmask_v6(
                (net.spec_prefix_len() - 1) as u8,
            ),
    {
    }

    /// A network from an address and a prefix length; `None` where the
    /// prefix length exceeds 128.
    pub fn new(addr: Ipv6Addr, prefix_len: u8) -> (r: Option<Ipv6Net>)
        ensures
            r is Some <==> prefix_len <= 128,
            r matches Some(n) ==> n == Self::spec_new(addr, prefix_len) && n.spec_addr() == addr
                && n.spec_prefix_len() == prefix_len,
    {
        if prefix_len > 128 {
            None
        } else {
            Some(Ipv6Net { addr, prefix_len })
        }
    }

    /// The address part, host bits included.
    pub fn addr(&self) -> (r: Ipv6Addr)
        ensures
            r == self.spec_addr(),
    {
        self.addr
    }

    /// The prefix length.
    pub fn prefix_len(&self) -> (r: u8)
        ensures
            r == self.spec_prefix_len(),
            r <= 128,
    {
        proof {
            use_type_invariant(self);
        }
        self.prefix_len
    }

    /// The network address.
    pub fn network(&self) -> (r: Ipv6Addr)
        ensures
            r == self.spec_network(),
    {
        proof {
            use_type_invariant(self);
        }
        Ipv6Addr(network_bits_v6(self.addr.0, self.prefix_len))
    }

    /// The broadcast address.
    pub fn broadcast(&self) -> (r: Ipv6Addr)
        ensures
            r == self.spec_broadcast(),
    {
        proof {
            use_type_invariant(self);
        }
        Ipv6Addr(broadcast_bits_v6(self.addr.0, self.prefix_len))
    }

    /// The same network with the host bits of the address cleared.
    pub fn trunc(&self) -> (r: Ipv6Net)
        ensures
            r == self.spec_trunc(),
            r.spec_addr() == self.spec_network(),
            r.spec_prefix_len() == self.spec_prefix_len(),
    {
        proof {
            use_type_invariant(self);
        }
        Ipv6Net { addr: self.network(), prefix_len: self.prefix_len }
    }

    /// The network one bit shorter that contains this one; `None` for a
    /// network of prefix length 0.
    pub fn supernet(&self) -> (r: Option<Ipv6Net>)
        ensures
            r == self.spec_supernet(),
            r is Some <==> self.spec_prefix_len() > 0,
            r matches Some(n) ==> {
                &&& n.spec_prefix_len() == self.spec_prefix_len() - 1
                &&& n.spec_addr().0 == self.spec_addr().0 & netmask_v6(
                    (self.spec_prefix_len() - 1) as u8,
                )
            },
    {
        proof {
            use_type_invariant(self);
        }
        if self.prefix_len == 0 {
            None
        } else {
            let shorter: u8 = self.prefix_len - 1;
            Some(Ipv6Net { addr: Ipv6Addr(network_bits_v6(self.addr.0, shorter)), prefix_len: shorter })
        }
    }
}

/// The text of an IPv4 address: its four bytes in decimal with full stops
/// between them.
pub open spec fn ipv4_text(bits: u32) -> Seq<char> {
    decimal((bits / 0x100_0000) as nat) + seq!['.'] + decimal((bits / 0x1_0000 % 0x100) as nat)
        + seq!['.'] + decimal((bits / 0x100 % 0x100) as nat) + seq!['.'] + decimal(
        (bits % 0x100) as nat,
    )
}

/// The text that the standard library writes for an IPv6 address.
pub uninterp spec fn ipv6_text(bits: u128) -> Seq<char>;

/// `ToString::to_string` of the standard library's IPv6 address: the
/// address in its usual text form.
#[verifier::external_body]
fn format_v6(bits: u128) -> (r: String)
    ensures
        r@ == ipv6_text(bits),
{
    ipnet::Ipv6Net::new_assert(bits.into(), 128).addr().to_string()
}

impl Ipv4Addr {
    /// The text of the address.
    pub fn to_text(&self) -> (r: String)
        ensures
            r@ == ipv4_text(self.0),
    {
        let mut s = String::new();
        append_decimal(&mut s, (self.0 / 0x100_0000) as u64);
        push_char(&mut s, '.');
        append_decimal(&mut s, (self.0 / 0x1_0000 % 0x100) as u64);
        push_char(&mut s, '.');
        append_decimal(&mut s, (self.0 / 0x100 % 0x100) as u64);
        push_char(&mut s, '.');
        append_decimal(&mut s, (self.0 % 0x100) as u64);
        proof {
            assert(s@ =~= ipv4_text(self.0));
        }
        s
    }
}

impl Ipv6Addr {
    /// The text of the address.
    pub fn to_text(&self) -> (r: String)
        ensures
            r@ == ipv6_text(self.0),
    {
        format_v6(self.0)
    }
}

impl IpAddr {
    /// The text of the address.
    pub open spec fn spec_text(self) -> Seq<char> {
        match self {
            IpAddr::V4(a) => ipv4_text(a.0),
            IpAddr::V6(a) => ipv6_text(a.0),
        }
    }

    /// The text of the address.
    pub fn to_text(&self) -> (r: String)
        ensures
            r@ == self.spec_text(),
    {
        match self {
            IpAddr::V4(a) => a.to_text(),
            IpAddr::V6(a) => a.to_text(),
        }
    }
}

impl Ipv4Net {
    /// The network of the single address `addr`.
    pub closed spec fn spec_host(addr: Ipv4Addr) -> Ipv4Net {
        Ipv4Net { addr, prefix_len: 32 }
    }

    /// The network of the single address `addr`.
    pub fn host(addr: Ipv4Addr) -> (r: Ipv4Net)
        ensures
            r == Self::spec_host(addr),
            r.spec_addr() == addr,
            r.spec_prefix_len() == 32,
    {
        Ipv4Net { addr, prefix_len: 32 }
    }
}

impl Ipv6Net {
    /// The network of the single address `addr`.
    pub closed spec fn spec_host(addr: Ipv6Addr) -> Ipv6Net {
        Ipv6Net { addr, prefix_len: 128 }
    }

    /// The network of the single address `addr`.
    pub fn host(addr: Ipv6Addr) -> (r: Ipv6Net)
        ensures
            r == Self::spec_host(addr),
            r.spec_addr() == addr,
            r.spec_prefix_len() == 128,
    {
        Ipv6Net { addr, prefix_len: 128 }
    }
}

impl IpAddr {
    /// The network of the single address.
    pub open spec fn spec_host(self) -> IpNet {
        match self {
            IpAddr::V4(a) => IpNet::V4(Ipv4Net::spec_host(a)),
            IpAddr::V6(a) => IpNet::V6(Ipv6Net::spec_host(a)),
        }
    }
}

impl IpNet {
    /// The prefix length.
    pub open spec fn spec_prefix_len(self) -> u8 {
        match self {
            IpNet::V4(n) => n.spec_prefix_len(),
            IpNet::V6(n) => n.spec_prefix_len(),
        }
    }

    /// The address part, host bits included.
    pub open spec fn spec_addr(self) -> IpAddr {
        match self {
            IpNet::V4(n) => IpAddr::V4(n.spec_addr()),
            IpNet::V6(n) => IpAddr::V6(n.spec_addr()),
        }
    }

    /// The network address.
    pub open spec fn spec_network(self) -> IpAddr {
        match self {
            IpNet::V4(n) => IpAddr::V4(n.spec_network()),
            IpNet::V6(n) => IpAddr::V6(n.spec_network()),
        }
    }

    /// The address part, host bits included.
    pub fn addr(&self) -> (r: IpAddr)
        ensures
            r == self.spec_addr(),
    {
        match self {
            IpNet::V4(n) => IpAddr::V4(n.addr()),
            IpNet::V6(n) => IpAddr::V6(n.addr()),
        }
    }

    /// The prefix length.
    pub fn prefix_len(&self) -> (r: u8)
        ensures
            r == self.spec_prefix_len(),
    {
        match self {
            IpNet::V4(n) => n.prefix_len(),
            IpNet::V6(n) => n.prefix_len(),
        }
    }

    /// The same network with the host bits of the address cleared.
    pub open spec fn spec_trunc(self) -> IpNet {
        match self {
            IpNet::V4(n) => IpNet::V4(n.spec_trunc()),
            IpNet::V6(n) => IpNet::V6(n.spec_trunc()),
        }
    }

    /// The network one bit shorter that contains this one.
    pub open spec fn spec_supernet(self) -> Option<IpNet> {
        match self {
            IpNet::V4(n) => match n.spec_supernet() {
                Some(s) => Some(IpNet::V4(s)),
                None => None,
            },
            IpNet::V6(n) => match n.spec_supernet() {
                Some(s) => Some(IpNet::V6(s)),
                None => None,
            },
        }
    }

    /// The network above a network has a prefix that is one bit shorter.
    pub proof fn lemma_supernet_shorter(self)
        ensures
            self.spec_supernet() is Some <==> self.spec_prefix_len() > 0,
            self.spec_supernet() matches Some(n) ==> n.spec_prefix_len() == self.spec_prefix_len()
                - 1 && (n is V4 <==> self is V4),
    {
        match self {
            IpNet::V4(n) => {
                Ipv4Net::lemma_parts(n.spec_addr(), 0, n);
            },
            IpNet::V6(n) => {
                Ipv6Net::lemma_parts(n.spec_addr(), 0, n);
            },
        }
    }

    /// The same network with the host bits of the address cleared.
    pub fn trunc(&self) -> (r: IpNet)
        ensures
            r == self.spec_trunc(),
            r.spec_addr() == self.spec_network(),
            r.spec_prefix_len() == self.spec_prefix_len(),
            r is V4 <==> self is V4,
    {
        match self {
            IpNet::V4(n) => IpNet::V4(n.trunc()),
            IpNet::V6(n) => IpNet::V6(n.trunc()),
        }
    }

    /// The network one bit shorter that contains this one; `None` for a
    /// network of prefix length 0.
    pub fn supernet(&self) -> (r: Option<IpNet>)
        ensures
            r == self.spec_supernet(),
            r is Some <==> self.spec_prefix_len() > 0,
            r matches Some(n) ==> {
                &&& n.spec_prefix_len() == self.spec_prefix_len() - 1
                &&& (n is V4 <==> self is V4)
                &&& match (self, n) {
                    (IpNet::V4(a), IpNet::V4(b)) => b.spec_addr().0 == a.spec_addr().0
                        & netmask_v4((a.spec_prefix_len() - 1) as u8),
                    (IpNet::V6(a), IpNet::V6(b)) => b.spec_addr().0 == a.spec_addr().0
                        & netmask_v6((a.spec_prefix_len() - 1) as u8),
                    _ => false,
                }
            },
    {
        match self {
            IpNet::V4(n) => match n.supernet() {
                Some(s) => Some(IpNet::V4(s)),
                None => None,
            },
            IpNet::V6(n) => match n.supernet() {
                Some(s) => Some(IpNet::V6(s)),
                None => None,
            },
        }
    }
}

} // verus!
