//! A plain model of an IPv4 address: its 32 bits as a `u32`, ordered
//! numerically, so that a zone rule's half-open range is a range of integers.

use vstd::prelude::*;

verus! {

/// The value of four octets read as one big-endian 32-bit number.
pub open spec fn bits_of_octets(b0: u8, b1: u8, b2: u8, b3: u8) -> int {
    b0 * 0x1000000 + b1 * 0x10000 + b2 * 0x100 + b3
}

/// An IPv4 address, held as its numeric value.
///
/// Two addresses compare the way `std::net::Ipv4Addr` compares: by the
/// big-endian 32-bit number the four octets spell.
#[derive(Clone, Copy, Debug, PartialEq, Eq, Structural)]
pub struct Ipv4 {
    pub bits: u32,
}

impl Ipv4 {
    /// Builds the address whose octets are `b0.b1.b2.b3`.
    pub fn from_octets(b0: u8, b1: u8, b2: u8, b3: u8) -> (r: Ipv4)
        ensures
            r.bits == bits_of_octets(b0, b1, b2, b3),
    {
        let bits: u32 = (b0 as u32) * 0x1000000 + (b1 as u32) * 0x10000 + (b2 as u32) * 0x100
            + (b3 as u32);
        Ipv4 { bits }
    }

    /// The numeric value of the address.
    pub fn value(&self) -> (r: u32)
        ensures
            r == self.bits,
    {
        self.bits
    }
}

} // verus!
