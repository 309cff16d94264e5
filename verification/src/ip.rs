//! Internet addresses as plain numbers.

use vstd::prelude::*;
use vstd::string::StringExecFns;

use crate::text;

verus! {

/// An IP address, held as the integer that its bytes spell in network order.
#[derive(Clone, Copy, Debug, PartialEq, Eq, Structural)]
pub enum IpAddr {
    /// An IPv4 address, 32 bits.
    V4(u32),
    /// An IPv6 address, 128 bits.
    V6(u128),
}

/// The address that std's parser reads from `text`, if it accepts it.
pub uninterp spec fn ip_from_text(text: Seq<char>) -> Option<IpAddr>;

/// The canonical text that std writes for an IPv6 address.
pub uninterp spec fn ipv6_text(bits: u128) -> Seq<char>;

/// Wraps `<core::net::IpAddr as FromStr>::from_str`. The result depends on the
/// characters of `text` alone.
#[verifier::external_body]
fn parse_address(text: &str) -> (ip: Option<IpAddr>)
    ensures
        ip == ip_from_text(text@),
{
    match text.parse::<core::net::IpAddr>() {
        Ok(core::net::IpAddr::V4(v4)) => Some(IpAddr::V4(u32::from(v4))),
        Ok(core::net::IpAddr::V6(v6)) => Some(IpAddr::V6(u128::from(v6))),
        Err(_) => None,
    }
}

/// Wraps `core::net::Ipv6Addr`'s `to_string`. The result depends on the
/// address alone.
#[verifier::external_body]
fn format_ipv6(bits: u128) -> (text: String)
    ensures
        text@ == ipv6_text(bits),
{
    core::net::Ipv6Addr::from(bits).to_string()
}

/// The `i`-th byte of an IPv4 address, counted from the left.
pub open spec fn octet(bits: u32, i: int) -> int {
    if i == 0 {
        bits as int / 0x100_0000
    } else if i == 1 {
        bits as int / 0x1_0000 % 0x100
    } else if i == 2 {
        bits as int / 0x100 % 0x100
    } else {
        bits as int % 0x100
    }
}

/// Four decimal numbers with dots between them.
pub open spec fn dotted(bits: u32) -> Seq<char> {
    text::decimal(octet(bits, 0) as nat) + "."@ + text::decimal(octet(bits, 1) as nat) + "."@
        + text::decimal(octet(bits, 2) as nat) + "."@ + text::decimal(octet(bits, 3) as nat)
}

/// The text of an address: dotted decimal for IPv4, std's canonical form for
/// IPv6.
pub open spec fn ip_text(ip: IpAddr) -> Seq<char> {
    match ip {
        IpAddr::V4(bits) => dotted(bits),
        IpAddr::V6(bits) => ipv6_text(bits),
    }
}

/// An address as a key of a map: the version and the bits.
pub type Key = (u8, u128);

/// The key of an address.
pub open spec fn key_of(ip: IpAddr) -> Key {
    match ip {
        IpAddr::V4(bits) => (4, bits as u128),
        IpAddr::V6(bits) => (6, bits),
    }
}

/// Two addresses have the same key only if they are the same.
pub proof fn keys_tell_addresses_apart(a: IpAddr, b: IpAddr)
    requires
        key_of(a) == key_of(b),
    ensures
        a == b,
{
}

impl IpAddr {
    /// The key of the address.
    pub fn key(self) -> (k: Key)
        ensures
            k == key_of(self),
    {
        match self {
            IpAddr::V4(bits) => (4, bits as u128),
            IpAddr::V6(bits) => (6, bits),
        }
    }

    /// The IPv4 address `a.b.c.d`.
    pub fn v4(a: u8, b: u8, c: u8, d: u8) -> (ip: IpAddr)
        ensures
            ip matches IpAddr::V4(bits) && octet(bits, 0) == a && octet(bits, 1) == b && octet(
                bits,
                2,
            ) == c && octet(bits, 3) == d,
    {
        let low: u32 = c as u32 * 0x100 + d as u32;
        let high: u32 = a as u32 * 0x100 + b as u32;
        let bits: u32 = high * 0x1_0000 + low;
        assert(bits / 0x1_0000 == high && bits % 0x1_0000 == low);
        assert(bits / 0x100_0000 == high / 0x100);
        assert(bits / 0x100 % 0x100 == low / 0x100);
        assert(bits % 0x100 == low % 0x100);
        IpAddr::V4(bits)
    }

    /// Reads an address from its text.
    pub fn from_text(text: &str) -> (ip: Option<IpAddr>)
        ensures
            ip == ip_from_text(text@),
    {
        parse_address(text)
    }

    /// Writes the address as text.
    pub fn to_text(self) -> (text: String)
        ensures
            text@ == ip_text(self),
    {
        match self {
            IpAddr::V4(bits) => {
                let mut out: String = text::decimal_text((bits / 0x100_0000) as u64);
                out.append(".");
                out.append(text::decimal_text((bits / 0x1_0000 % 0x100) as u64).as_str());
                out.append(".");
                out.append(text::decimal_text((bits / 0x100 % 0x100) as u64).as_str());
                out.append(".");
                out.append(text::decimal_text((bits % 0x100) as u64).as_str());
                out
            },
            IpAddr::V6(bits) => format_ipv6(bits),
        }
    }
}

/// The text of an IPv4 address names its four bytes from left to right.
pub proof fn addresses_are_written_byte_by_byte(a: u8, b: u8, c: u8, d: u8)
    ensures
        ip_text(
            IpAddr::V4((a * 0x100_0000 + b * 0x1_0000 + c * 0x100 + d) as u32),
        ) == text::decimal(a as nat) + "."@ + text::decimal(b as nat) + "."@ + text::decimal(
            c as nat,
        ) + "."@ + text::decimal(d as nat),
{
    let bits = (a * 0x100_0000 + b * 0x1_0000 + c * 0x100 + d) as u32;
    assert(bits as int / 0x100_0000 == a);
    assert(bits as int / 0x1_0000 == a * 0x100 + b);
    assert(bits as int / 0x1_0000 % 0x100 == b);
    assert(bits as int / 0x100 == (a * 0x100 + b) * 0x100 + c);
    assert(bits as int / 0x100 % 0x100 == c);
    assert(bits as int % 0x100 == d);
}

/// The four bytes of an IPv4 address make up the address.
pub proof fn bytes_make_up_the_address(bits: u32)
    ensures
        bits == octet(bits, 0) * 0x100_0000 + octet(bits, 1) * 0x1_0000 + octet(bits, 2) * 0x100
            + octet(bits, 3),
        0 <= octet(bits, 0) <= 255 && 0 <= octet(bits, 1) <= 255 && 0 <= octet(bits, 2) <= 255
            && 0 <= octet(bits, 3) <= 255,
{
}

} // verus!
