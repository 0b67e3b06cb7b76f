//! Reading the numbers and networks of the inventory from text.

use crate::ip::IpNet;
use crate::ip::Ipv4Addr;
use crate::ip::Ipv4Net;
use crate::ip::Ipv6Addr;
use crate::ip::Ipv6Net;
use crate::text::decimal_value;
use crate::text::is_digit;
use vstd::prelude::*;
use vstd::string::*;

verus! {

/// Whether every character is a decimal digit.
pub open spec fn all_digits(s: Seq<char>) -> bool {
    forall|i: int| 0 <= i < s.len() ==> is_digit(#[trigger] s[i])
}

/// The number that a text writes: decimal digits, of which there is at
/// least one, with or without a plus sign before them, where the number fits
/// in 32 bits.
pub open spec fn parse_u32(s: Seq<char>) -> Option<u32> {
    let digits = if s.len() > 0 && s[0] == '+' {
        s.skip(1)
    } else {
        s
    };
    if digits.len() > 0 && all_digits(digits) && decimal_value(digits) <= u32::MAX {
        Some(decimal_value(digits) as u32)
    } else {
        None
    }
}

/// The value of digits only grows as digits are added.
proof fn lemma_value_grows(s: Seq<char>, n: int)
    requires
        0 <= n <= s.len(),
        all_digits(s),
    ensures
        decimal_value(s.take(n)) <= decimal_value(s),
    decreases s.len() - n,
{
    if n < s.len() {
        lemma_value_grows(s, n + 1);
        assert(s.take(n + 1).drop_last() =~= s.take(n));
        assert(s.take(n + 1).last() == s[n]);
        assert(is_digit(s[n]));
    } else {
        assert(s.take(n) =~= s);
    }
}

/// The number that a text writes.
pub fn parse_id(s: &str) -> (r: Option<u32>)
    ensures
        r == parse_u32(s@),
{
    let n = s.unicode_len();
    if n == 0 {
        return None;
    }
    let start: usize = if s.get_char(0) == '+' {
        1
    } else {
        0
    };
    let ghost digits = s@.skip(start as int);
    proof {
        assert(s@.skip(0) =~= s@);
        assert(digits == if s@.len() > 0 && s@[0] == '+' {
            s@.skip(1)
        } else {
            s@
        });
    }
    if start == n {
        return None;
    }
    let mut value: u64 = 0;
    let mut i: usize = start;
    proof {
        assert(digits.take(0) =~= Seq::<char>::empty());
    }
    while i < n
        invariant
            start <= i <= n,
            n == s@.len(),
            digits == s@.skip(start as int),
            digits == (if s@.len() > 0 && s@[0] == '+' {
                s@.skip(1)
            } else {
                s@
            }),
            all_digits(digits.take(i - start)),
            value == decimal_value(digits.take(i - start)),
            value <= u32::MAX,
        decreases n - i,
    {
        let c = s.get_char(i);
        let ghost before = digits.take(i - start);
        let ghost now = digits.take(i - start + 1);
        proof {
            assert(now.drop_last() =~= before);
            assert(now.last() == c);
        }
        if !('0' <= c && c <= '9') {
            proof {
                assert(!is_digit(digits[i - start]));
            }
            return None;
        }
        let digit: u64 = (c as u32 - '0' as u32) as u64;
        value = value * 10 + digit;
        proof {
            assert forall|k: int| 0 <= k < now.len() implies is_digit(#[trigger] now[k]) by {
                if k < before.len() {
                    assert(now[k] == before[k]);
                }
            }
        }
        if value > 0xffff_ffff {
            proof {
                if all_digits(digits) {
                    lemma_value_grows(digits, i - start + 1);
                }
            }
            return None;
        }
        i += 1;
    }
    proof {
        assert(digits.take(n - start) =~= digits);
    }
    Some(value as u32)
}

/// What `ipnet` reads a text as: whether it is an IPv4 network, the bits
/// of its address and its prefix length; `None` for a text that is no
/// network.
pub uninterp spec fn net_of_text(s: Seq<char>) -> Option<(bool, u128, u8)>;

/// `ipnet::IpNet::from_str`: the network that the text writes, as an
/// address, a slash and a prefix length.
#[verifier::external_body]
fn read_net(s: &str) -> (r: Option<(bool, u128, u8)>)
    ensures
        r == net_of_text(s@),
{
    match s.parse::<ipnet::IpNet>() {
        Ok(ipnet::IpNet::V4(n)) => Some((true, u32::from(n.addr()) as u128, n.prefix_len())),
        Ok(ipnet::IpNet::V6(n)) => Some((false, u128::from(n.addr()), n.prefix_len())),
        Err(_) => None,
    }
}

/// The network that was read, where it is one: an IPv4 network has an
/// address of 32 bits and a prefix length of up to 32, an IPv6 network a
/// prefix length of up to 128.
pub open spec fn decoded(read: Option<(bool, u128, u8)>) -> Option<IpNet> {
    match read {
        Some((true, bits, len)) => if bits <= u32::MAX && len <= 32 {
            Some(IpNet::V4(Ipv4Net::spec_new(Ipv4Addr(bits as u32), len)))
        } else {
            None
        },
        Some((false, bits, len)) => if len <= 128 {
            Some(IpNet::V6(Ipv6Net::spec_new(Ipv6Addr(bits), len)))
        } else {
            None
        },
        None => None,
    }
}

/// The network that a text writes.
pub open spec fn parsed_net(s: Seq<char>) -> Option<IpNet> {
    decoded(net_of_text(s))
}

/// The network that was read, where it is one.
pub fn decode_net(read: Option<(bool, u128, u8)>) -> (r: Option<IpNet>)
    ensures
        r == decoded(read),
{
    match read {
        Some((true, bits, len)) => {
            if bits <= 0xffff_ffff {
                match Ipv4Net::new(Ipv4Addr(bits as u32), len) {
                    Some(n) => Some(IpNet::V4(n)),
                    None => None,
                }
            } else {
                None
            }
        },
        Some((false, bits, len)) => match Ipv6Net::new(Ipv6Addr(bits), len) {
            Some(n) => Some(IpNet::V6(n)),
            None => None,
        },
        None => None,
    }
}

/// The network that a text writes.
pub fn parse_ip_net(s: &str) -> (r: Option<IpNet>)
    ensures
        r == parsed_net(s@),
{
    decode_net(read_net(s))
}

} // verus!
