//! Addresses, address blocks, and their enumeration.

use crate::error::ExpandError;
use vstd::prelude::*;

verus! {

/// One network address, held as the number that its bytes spell in
/// network order.
#[derive(Clone, Copy, Debug, PartialEq, Eq, Hash, Structural)]
pub enum Address {
    /// An IPv4 address.
    V4(u32),
    /// An IPv6 address.
    V6(u128),
}

/// An address together with the length of its network prefix.
#[derive(Clone, Copy, Debug, PartialEq, Eq, Hash, Structural)]
#[allow(inconsistent_fields)]
pub enum Network {
    /// An IPv4 block; the prefix is at most 32 bits long.
    V4 { addr: u32, prefix: u8 },
    /// An IPv6 block; the prefix is at most 128 bits long.
    V6 { addr: u128, prefix: u8 },
}

/// The IPv4 mask with the `prefix` leading bits set.
pub open spec fn mask_v4(prefix: u8) -> u32 {
    if prefix == 0 {
        0u32
    } else {
        u32::MAX << ((32 - prefix) as u32)
    }
}

/// The IPv6 mask with the `prefix` leading bits set.
pub open spec fn mask_v6(prefix: u8) -> u128 {
    if prefix == 0 {
        0u128
    } else {
        u128::MAX << ((128 - prefix) as u128)
    }
}

/// The IPv4 addresses from `first` to `last`, both included, in order.
pub open spec fn v4_run(first: u32, last: u32) -> Seq<Address> {
    Seq::new((last - first + 1) as nat, |i: int| Address::V4((first + i) as u32))
}

/// The IPv6 addresses from `first` to `last`, both included, in order.
pub open spec fn v6_run(first: u128, last: u128) -> Seq<Address> {
    Seq::new((last - first + 1) as nat, |i: int| Address::V6((first + i) as u128))
}

/// Whether the addresses of `s` grow from each to the next.
pub open spec fn ascending_addresses(s: Seq<Address>) -> bool {
    forall|i: int, j: int| 0 <= i < j < s.len() ==> s[i].value() < s[j].value()
}

/// What an address range denotes: both ends must be IPv4 addresses and the
/// end may not lie below the start.
pub open spec fn range_addresses(start: Address, end: Address) -> Result<Seq<Address>, ExpandError> {
    match (start, end) {
        (Address::V4(s), Address::V4(e)) => if e < s {
            Err(ExpandError::InvertedRange)
        } else {
            Ok(v4_run(s, e))
        },
        _ => Err(ExpandError::UnsupportedRange),
    }
}

impl Address {
    /// The address as a number.
    pub open spec fn value(self) -> nat {
        match self {
            Address::V4(a) => a as nat,
            Address::V6(a) => a as nat,
        }
    }
}

impl Network {
    /// The prefix is no longer than an address of the family.
    pub open spec fn wf(self) -> bool {
        match self {
            Network::V4 { prefix, .. } => prefix <= 32,
            Network::V6 { prefix, .. } => prefix <= 128,
        }
    }

    /// The address that the network was written with.
    pub open spec fn address(self) -> Address {
        match self {
            Network::V4 { addr, .. } => Address::V4(addr),
            Network::V6 { addr, .. } => Address::V6(addr),
        }
    }

    /// Whether `a` lies in the block: it is of the same family and agrees
    /// with the network's address on every bit of the prefix.
    pub open spec fn contains(self, a: Address) -> bool {
        match (self, a) {
            (Network::V4 { addr, prefix }, Address::V4(x)) => x & mask_v4(prefix) == addr & mask_v4(
                prefix,
            ),
            (Network::V6 { addr, prefix }, Address::V6(x)) => x & mask_v6(prefix) == addr & mask_v6(
                prefix,
            ),
            _ => false,
        }
    }

    /// Every address of the block, from the lowest, which is the prefix
    /// followed by zeros, to the highest, which is the prefix followed by
    /// ones.
    pub open spec fn addresses(self) -> Seq<Address> {
        match self {
            Network::V4 { addr, prefix } => v4_run(addr & mask_v4(prefix), addr | !mask_v4(prefix)),
            Network::V6 { addr, prefix } => v6_run(addr & mask_v6(prefix), addr | !mask_v6(prefix)),
        }
    }

    /// Returns the address that the network was written with.
    pub fn ip(&self) -> (a: Address)
        ensures
            a == self.address(),
    {
        match *self {
            Network::V4 { addr, .. } => Address::V4(addr),
            Network::V6 { addr, .. } => Address::V6(addr),
        }
    }
}

/// An IPv4 address shares a block's prefix exactly when it lies between
/// the block's lowest and highest address.
proof fn lemma_block_bounds_v4(addr: u32, prefix: u8, x: u32)
    requires
        prefix <= 32,
    ensures
        (x & mask_v4(prefix) == addr & mask_v4(prefix)) <==> (addr & mask_v4(prefix) <= x <= addr
            | !mask_v4(prefix)),
{
    if prefix == 0 {
        assert((x & 0u32 == addr & 0u32) <==> (addr & 0u32 <= x <= addr | !0u32)) by (bit_vector);
    } else {
        let k: u32 = (32 - prefix) as u32;
        assert((x & (u32::MAX << k) == addr & (u32::MAX << k)) <==> (addr & (u32::MAX << k) <= x
            <= addr | !(u32::MAX << k))) by (bit_vector)
            requires
                k < 32,
        ;
    }
}

/// An IPv6 address shares a block's prefix exactly when it lies between
/// the block's lowest and highest address.
proof fn lemma_block_bounds_v6(addr: u128, prefix: u8, x: u128)
    requires
        prefix <= 128,
    ensures
        (x & mask_v6(prefix) == addr & mask_v6(prefix)) <==> (addr & mask_v6(prefix) <= x <= addr
            | !mask_v6(prefix)),
{
    if prefix == 0 {
        assert((x & 0u128 == addr & 0u128) <==> (addr & 0u128 <= x <= addr | !0u128))
            by (bit_vector);
    } else {
        let k: u128 = (128 - prefix) as u128;
        assert((x & (u128::MAX << k) == addr & (u128::MAX << k)) <==> (addr & (u128::MAX << k) <= x
            <= addr | !(u128::MAX << k))) by (bit_vector)
            requires
                k < 128,
        ;
    }
}

/// The enumeration of a block holds every address of the block, each
/// exactly once, in ascending order, and nothing else.
pub proof fn lemma_block_enumeration(net: Network)
    requires
        net.wf(),
    ensures
        forall|a: Address| net.contains(a) <==> net.addresses().contains(a),
        ascending_addresses(net.addresses()),
        net.addresses().no_duplicates(),
{
    let run = net.addresses();
    match net {
        Network::V4 { addr, prefix } => {
            let first = addr & mask_v4(prefix);
            let last = addr | !mask_v4(prefix);
            lemma_block_bounds_v4(addr, prefix, addr);
            assert(first <= last);
            assert forall|a: Address| net.contains(a) <==> run.contains(a) by {
                if let Address::V4(x) = a {
                    lemma_block_bounds_v4(addr, prefix, x);
                    if first <= x <= last {
                        assert(run[x - first] == a);
                    }
                }
            }
        },
        Network::V6 { addr, prefix } => {
            let first = addr & mask_v6(prefix);
            let last = addr | !mask_v6(prefix);
            lemma_block_bounds_v6(addr, prefix, addr);
            assert(first <= last);
            assert forall|a: Address| net.contains(a) <==> run.contains(a) by {
                if let Address::V6(x) = a {
                    lemma_block_bounds_v6(addr, prefix, x);
                    if first <= x <= last {
                        assert(run[x - first] == a);
                    }
                }
            }
        },
    }
}

/// Computes the IPv4 mask of a prefix length.
fn netmask_v4(prefix: u8) -> (mask: u32)
    requires
        prefix <= 32,
    ensures
        mask == mask_v4(prefix),
{
    if prefix == 0 {
        0
    } else {
        let shift: u32 = 32 - prefix as u32;
        u32::MAX << shift
    }
}

/// Computes the IPv6 mask of a prefix length.
fn netmask_v6(prefix: u8) -> (mask: u128)
    requires
        prefix <= 128,
    ensures
        mask == mask_v6(prefix),
{
    if prefix == 0 {
        0
    } else {
        let shift: u128 = 128 - prefix as u128;
        u128::MAX << shift
    }
}

/// Lists the IPv4 addresses from `first` to `last`.
fn list_v4(first: u32, last: u32) -> (out: Vec<Address>)
    requires
        first <= last,
    ensures
        out@ == v4_run(first, last),
{
    let mut out: Vec<Address> = Vec::new();
    let mut cur: u32 = first;
    loop
        invariant_except_break
            first <= cur <= last,
            out@ == Seq::new((cur - first) as nat, |i: int| Address::V4((first + i) as u32)),
        ensures
            out@ == v4_run(first, last),
        decreases last - cur,
    {
        out.push(Address::V4(cur));
        if cur == last {
            assert(out@ =~= v4_run(first, last));
            break ;
        }
        cur += 1;
        assert(out@ =~= Seq::new((cur - first) as nat, |i: int| Address::V4((first + i) as u32)));
    }
    out
}

/// Lists the IPv6 addresses from `first` to `last`.
fn list_v6(first: u128, last: u128) -> (out: Vec<Address>)
    requires
        first <= last,
    ensures
        out@ == v6_run(first, last),
{
    let mut out: Vec<Address> = Vec::new();
    let mut cur: u128 = first;
    loop
        invariant_except_break
            first <= cur <= last,
            out@ == Seq::new((cur - first) as nat, |i: int| Address::V6((first + i) as u128)),
        ensures
            out@ == v6_run(first, last),
        decreases last - cur,
    {
        out.push(Address::V6(cur));
        if cur == last {
            assert(out@ =~= v6_run(first, last));
            break ;
        }
        cur += 1;
        assert(out@ =~= Seq::new((cur - first) as nat, |i: int| Address::V6((first + i) as u128)));
    }
    out
}

/// Enumerates every address of a block, boundary addresses included, from
/// the lowest to the highest.
pub fn expand_network(net: Network) -> (out: Vec<Address>)
    requires
        net.wf(),
    ensures
        out@ == net.addresses(),
{
    match net {
        Network::V4 { addr, prefix } => {
            let mask = netmask_v4(prefix);
            assert(addr & mask <= addr | !mask) by (bit_vector);
            list_v4(addr & mask, addr | !mask)
        },
        Network::V6 { addr, prefix } => {
            let mask = netmask_v6(prefix);
            assert(addr & mask <= addr | !mask) by (bit_vector);
            list_v6(addr & mask, addr | !mask)
        },
    }
}

/// A range that can be listed holds one address for every number from its
/// start to its end, in ascending order and none of them twice.
pub proof fn lemma_range_enumeration(start: Address, end: Address)
    requires
        range_addresses(start, end) is Ok,
    ensures
        start is V4 && end is V4,
        range_addresses(start, end)->Ok_0.len() == end.value() - start.value() + 1,
        ascending_addresses(range_addresses(start, end)->Ok_0),
        range_addresses(start, end)->Ok_0.no_duplicates(),
{
}

/// Enumerates the addresses from `start` to `end`, both included.
///
/// Only IPv4 ranges are enumerated, and the end may not lie below the
/// start.
pub fn expand_range(start: Address, end: Address) -> (out: Result<Vec<Address>, ExpandError>)
    ensures
        match range_addresses(start, end) {
            Ok(run) => out is Ok && out->Ok_0@ == run,
            Err(e) => out is Err && out->Err_0 == e,
        },
        match (start, end) {
            (Address::V4(s), Address::V4(e)) => if e < s {
                out is Err && out->Err_0 == ExpandError::InvertedRange
            } else {
                out is Ok && out->Ok_0@.len() == e - s + 1
            },
            _ => out is Err && out->Err_0 == ExpandError::UnsupportedRange,
        },
{
    match (start, end) {
        (Address::V4(s), Address::V4(e)) => {
            if e < s {
                Err(ExpandError::InvertedRange)
            } else {
                Ok(list_v4(s, e))
            }
        },
        _ => Err(ExpandError::UnsupportedRange),
    }
}

} // verus!
