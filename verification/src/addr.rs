//! The address of a peer, read from the bytes of a socket address.

use vstd::prelude::*;

verus! {

/// The address family of IPv4.
pub const AF_INET: i32 = 2;

/// The address family of IPv6.
pub const AF_INET6: i32 = 10;

/// An IP address, as the number that its bytes spell in network order.
#[derive(Clone, Copy, Debug, PartialEq, Eq, Structural)]
pub enum IpAddr {
    /// An IPv4 address.
    V4(u32),
    /// An IPv6 address.
    V6(u128),
}

/// The number that `bytes` spell when the first byte is the most significant.
pub open spec fn be_value(bytes: Seq<u8>) -> nat
    decreases bytes.len(),
{
    if bytes.len() == 0 {
        0
    } else {
        be_value(bytes.drop_last()) * 256 + bytes.last() as nat
    }
}

/// 256 to the power of `n`.
pub open spec fn radix(n: nat) -> nat
    decreases n,
{
    if n == 0 {
        1
    } else {
        256 * radix((n - 1) as nat)
    }
}

/// A number of `n` bytes is below 256 to the power of `n`.
pub proof fn lemma_be_value_bound(bytes: Seq<u8>)
    ensures
        be_value(bytes) < radix(bytes.len()),
    decreases bytes.len(),
{
    if bytes.len() > 0 {
        lemma_be_value_bound(bytes.drop_last());
    }
}

/// The address that a socket address of `family` holds in `raw`, the bytes
/// of its address field in network order.
pub open spec fn ip_addr_of(family: i32, raw: Seq<u8>) -> Option<IpAddr> {
    if family == AF_INET && raw.len() >= 4 {
        Some(IpAddr::V4(be_value(raw.take(4)) as u32))
    } else if family == AF_INET6 && raw.len() >= 16 {
        Some(IpAddr::V6(be_value(raw.take(16)) as u128))
    } else {
        None
    }
}

/// The number that the first `n` bytes of `raw` spell in network order.
fn read_be(raw: &[u8], n: usize) -> (value: u128)
    requires
        n <= raw@.len(),
        n <= 16,
    ensures
        value == be_value(raw@.take(n as int)),
        value < radix(n as nat),
{
    let mut value: u128 = 0;
    let mut i: usize = 0;
    while i < n
        invariant
            0 <= i <= n <= 16,
            n <= raw@.len(),
            value == be_value(raw@.take(i as int)),
            value < radix(i as nat),
        decreases n - i,
    {
        proof {
            assert(raw@.take(i + 1).drop_last() =~= raw@.take(i as int));
            assert(raw@.take(i + 1).last() == raw@[i as int]);
            lemma_be_value_bound(raw@.take(i + 1));
            lemma_radix_fits((i + 1) as nat);
        }
        value = value * 256 + raw[i] as u128;
        i += 1;
    }
    value
}

/// Up to sixteen bytes spell a number that fits into 128 bits, and four bytes
/// one that fits into 32.
proof fn lemma_radix_fits(n: nat)
    requires
        n <= 16,
    ensures
        radix(n) <= 0x1_0000_0000_0000_0000_0000_0000_0000_0000,
        n <= 4 ==> radix(n) <= 0x1_0000_0000,
{
    reveal_with_fuel(radix, 17);
}

/// The peer's address from the family and the address bytes of a socket
/// address. `None` for a family that is neither IPv4 nor IPv6, and where
/// `raw` is too short for the family's address.
pub fn try_into_ip_addr(family: i32, raw: &[u8]) -> (addr: Option<IpAddr>)
    ensures
        addr == ip_addr_of(family, raw@),
{
    if family == AF_INET && raw.len() >= 4 {
        let bits = read_be(raw, 4);
        proof {
            lemma_radix_fits(4);
        }
        Some(IpAddr::V4(bits as u32))
    } else if family == AF_INET6 && raw.len() >= 16 {
        let bits = read_be(raw, 16);
        Some(IpAddr::V6(bits))
    } else {
        None
    }
}

} // verus!
