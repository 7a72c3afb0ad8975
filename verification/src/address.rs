//! Internet addresses as plain numbers, and the record type each one calls for.

use vstd::prelude::*;
use crate::record_type::RecordType;

verus! {

/// An IPv4 or IPv6 address, held as the number that its bytes spell in
/// network order: the first octet of `1.2.3.4` is the most significant byte
/// of `0x0102_0304`.
#[derive(Debug, Clone, Copy, PartialEq, Eq, Structural, Hash)]
pub enum IpAddress {
    V4(u32),
    V6(u128),
}

/// The record type that an address belongs under: `A` for IPv4, `AAAA` for
/// IPv6.
pub open spec fn record_type_of(address: IpAddress) -> RecordType {
    match address {
        IpAddress::V4(_) => RecordType::A,
        IpAddress::V6(_) => RecordType::AAAA,
    }
}

/// The number spelled by four octets in network order.
pub open spec fn octets_value(a: u8, b: u8, c: u8, d: u8) -> int {
    a * 0x100_0000 + b * 0x1_0000 + c * 0x100 + d
}

impl IpAddress {
    /// The IPv4 address `a.b.c.d`.
    pub fn from_octets(a: u8, b: u8, c: u8, d: u8) -> (address: IpAddress)
        ensures
            address == IpAddress::V4(octets_value(a, b, c, d) as u32),
            octets_value(a, b, c, d) <= u32::MAX,
    {
        let high: u32 = a as u32 * 0x100_0000 + b as u32 * 0x1_0000;
        let low: u32 = c as u32 * 0x100 + d as u32;
        IpAddress::V4(high + low)
    }

    /// Whether this is an IPv4 address.
    pub fn is_ipv4(&self) -> (yes: bool)
        ensures
            yes == (record_type_of(*self) == RecordType::A),
    {
        match self {
            IpAddress::V4(_) => true,
            IpAddress::V6(_) => false,
        }
    }

    /// Whether this is an IPv6 address.
    pub fn is_ipv6(&self) -> (yes: bool)
        ensures
            yes == (record_type_of(*self) == RecordType::AAAA),
    {
        match self {
            IpAddress::V4(_) => false,
            IpAddress::V6(_) => true,
        }
    }
}

impl RecordType {
    /// The record type of an address, by its family. This is the only way a
    /// record's type is ever obtained, so the two cannot disagree.
    pub fn from_ip(ip: &IpAddress) -> (rtype: RecordType)
        ensures
            rtype == record_type_of(*ip),
    {
        match ip {
            IpAddress::V4(_) => RecordType::A,
            IpAddress::V6(_) => RecordType::AAAA,
        }
    }
}

/// Four octets determine their address: distinct quadruples give distinct
/// numbers.
pub proof fn lemma_octets_are_distinct(a: u8, b: u8, c: u8, d: u8, e: u8, f: u8, g: u8, h: u8)
    ensures
        octets_value(a, b, c, d) == octets_value(e, f, g, h) <==> (a == e && b == f && c == g && d
            == h),
{
}

} // verus!
