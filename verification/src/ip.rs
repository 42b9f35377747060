//! IP address values and netmask arithmetic.
//!
//! Addresses are held as their big-endian bit patterns (`u32` for v4,
//! `u128` for v6), which makes mask derivation and broadcast computation
//! plain bit arithmetic.
use vstd::prelude::*;

verus! {

/// An IPv4 address as its 32-bit big-endian bit pattern
/// (`192.168.1.37` is `0xc0a80125`).
#[derive(Clone, Copy, Debug, PartialEq, Eq, Hash, Structural)]
pub struct Ipv4Address {
    pub bits: u32,
}

/// An IPv6 address as its 128-bit big-endian bit pattern.
#[derive(Clone, Copy, Debug, PartialEq, Eq, Hash, Structural)]
pub struct Ipv6Address {
    pub bits: u128,
}

/// The 32-bit mask whose high `p` bits are set: prefix length 24 gives
/// `255.255.255.0`.
pub open spec fn spec_mask32(p: nat) -> u32 {
    if p == 0 {
        0u32
    } else {
        0xffff_ffffu32 << ((32 - p) as u32)
    }
}

/// The 128-bit mask whose high `p` bits are set.
pub open spec fn spec_mask128(p: nat) -> u128 {
    if p == 0 {
        0u128
    } else {
        0xffff_ffff_ffff_ffff_ffff_ffff_ffff_ffffu128 << ((128 - p) as u128)
    }
}

/// A 32-bit netmask is well formed when its bit pattern is a run of ones
/// followed by a run of zeros.
pub open spec fn is_contiguous_mask32(m: u32) -> bool {
    exists|p: nat| p <= 32 && m == #[trigger] spec_mask32(p)
}

/// A 128-bit netmask is well formed when its bit pattern is a run of ones
/// followed by a run of zeros.
pub open spec fn is_contiguous_mask128(m: u128) -> bool {
    exists|p: nat| p <= 128 && m == #[trigger] spec_mask128(p)
}

/// The broadcast address of a v4 network: the address with all host bits set.
pub open spec fn spec_broadcast32(ip: u32, mask: u32) -> u32 {
    ip | !mask
}

impl Ipv4Address {
    /// Builds the address from its dotted-quad octets, first octet highest.
    pub fn from_octets(a: u8, b: u8, c: u8, d: u8) -> (r: Ipv4Address)
        ensures
            r.bits == ((a as u32) << 24u32) | ((b as u32) << 16u32) | ((c as u32) << 8u32) | (
            d as u32),
    {
        Ipv4Address {
            bits: ((a as u32) << 24u32) | ((b as u32) << 16u32) | ((c as u32) << 8u32) | (d as u32),
        }
    }

    /// The dotted-quad octets of the address, first octet highest.
    pub fn octets(&self) -> (r: (u8, u8, u8, u8))
        ensures
            r.0 == ((self.bits >> 24u32) & 0xffu32) as u8,
            r.1 == ((self.bits >> 16u32) & 0xffu32) as u8,
            r.2 == ((self.bits >> 8u32) & 0xffu32) as u8,
            r.3 == (self.bits & 0xffu32) as u8,
    {
        (
            ((self.bits >> 24u32) & 0xffu32) as u8,
            ((self.bits >> 16u32) & 0xffu32) as u8,
            ((self.bits >> 8u32) & 0xffu32) as u8,
            (self.bits & 0xffu32) as u8,
        )
    }
}

/// The big-endian reading of a byte sequence as one unsigned number.
pub open spec fn spec_be_bits(s: Seq<u8>) -> u128
    decreases s.len(),
{
    if s.len() == 0 {
        0u128
    } else {
        (spec_be_bits(s.drop_last()) << 8u128) | (s.last() as u128)
    }
}

impl Ipv6Address {
    /// Builds the address from its sixteen bytes in network order.
    pub fn from_octets(o: &[u8; 16]) -> (r: Ipv6Address)
        ensures
            r.bits == spec_be_bits(o@),
    {
        let mut bits: u128 = 0;
        let mut i: usize = 0;
        while i < 16
            invariant
                i <= 16,
                bits == spec_be_bits(o@.take(i as int)),
            decreases 16 - i,
        {
            proof {
                assert(o@.take(i + 1).drop_last() =~= o@.take(i as int));
                assert(o@.take(i + 1).last() == o@[i as int]);
            }
            bits = (bits << 8u128) | (o[i] as u128);
            i = i + 1;
        }
        proof {
            assert(o@.take(16) =~= o@);
        }
        Ipv6Address { bits }
    }
}

/// Derives the v4 netmask that a prefix length denotes.
pub fn mask_from_prefix_v4(p: u8) -> (m: Ipv4Address)
    requires
        p <= 32,
    ensures
        m.bits == spec_mask32(p as nat),
        is_contiguous_mask32(m.bits),
{
    let bits: u32 = if p == 0 {
        0
    } else {
        0xffff_ffffu32 << ((32 - p) as u32)
    };
    proof {
        assert(spec_mask32(p as nat) == bits);
    }
    Ipv4Address { bits }
}

/// Derives the v6 netmask that a prefix length denotes.
pub fn mask_from_prefix_v6(p: u8) -> (m: Ipv6Address)
    requires
        p <= 128,
    ensures
        m.bits == spec_mask128(p as nat),
        is_contiguous_mask128(m.bits),
{
    let bits: u128 = if p == 0 {
        0
    } else {
        0xffff_ffff_ffff_ffff_ffff_ffff_ffff_ffffu128 << ((128 - p) as u128)
    };
    proof {
        assert(spec_mask128(p as nat) == bits);
    }
    Ipv6Address { bits }
}

/// Finds the prefix length of a v4 netmask, or reports that its bit
/// pattern is not a contiguous run of ones.
pub fn prefix_of_mask_v4(m: u32) -> (r: Option<u8>)
    ensures
        match r {
            Some(p) => p <= 32 && m == spec_mask32(p as nat),
            None => !is_contiguous_mask32(m),
        },
{
    let mut p: u8 = 0;
    while p <= 32
        invariant
            p <= 33,
            forall|q: nat| q < p ==> m != #[trigger] spec_mask32(q),
        decreases 33 - p,
    {
        if mask_from_prefix_v4(p).bits == m {
            return Some(p);
        }
        p = p + 1;
    }
    None
}

/// Finds the prefix length of a v6 netmask, or reports that its bit
/// pattern is not a contiguous run of ones.
pub fn prefix_of_mask_v6(m: u128) -> (r: Option<u8>)
    ensures
        match r {
            Some(p) => p <= 128 && m == spec_mask128(p as nat),
            None => !is_contiguous_mask128(m),
        },
{
    let mut p: u8 = 0;
    while p <= 128
        invariant
            p <= 129,
            forall|q: nat| q < p ==> m != #[trigger] spec_mask128(q),
        decreases 129 - p,
    {
        if mask_from_prefix_v6(p).bits == m {
            return Some(p);
        }
        p = p + 1;
    }
    None
}

/// Computes the v4 broadcast address: the network's address with every
/// host bit set.
pub fn broadcast_v4(ip: Ipv4Address, mask: Ipv4Address) -> (r: Ipv4Address)
    ensures
        r.bits == spec_broadcast32(ip.bits, mask.bits),
{
    Ipv4Address { bits: ip.bits | !mask.bits }
}

} // verus!
