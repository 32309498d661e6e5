//! Conversion between the byte order of the machine and that of the network.

use vstd::endian::{endianness, Endian};
use vstd::prelude::*;

verus! {

/// The 16-bit number whose two bytes are those of `x` in reverse.
pub open spec fn swap16(x: u16) -> u16 {
    (x << 8) | (x >> 8)
}

/// The 32-bit number whose four bytes are those of `x` in reverse.
pub open spec fn swap32(x: u32) -> u32 {
    (x << 24) | ((x & 0xff00) << 8) | ((x >> 8) & 0xff00) | (x >> 24)
}

/// A 16-bit number in network byte order, as this machine reads it.
pub open spec fn network16(x: u16) -> u16 {
    match endianness() {
        Endian::Little => swap16(x),
        Endian::Big => x,
    }
}

/// A 32-bit number in network byte order, as this machine reads it. The same
/// exchange of bytes leads back.
pub open spec fn network32(x: u32) -> u32 {
    match endianness() {
        Endian::Little => swap32(x),
        Endian::Big => x,
    }
}

/// `socket::htons` returns its argument with the bytes in big-endian order:
/// reversed on a little-endian machine, unchanged on a big-endian one.
pub assume_specification[ socket::htons ](hostshort: u16) -> (r: u16)
    ensures
        r == network16(hostshort),
;

/// `socket::htonl` returns its argument with the bytes in big-endian order:
/// reversed on a little-endian machine, unchanged on a big-endian one.
pub assume_specification[ socket::htonl ](hostlong: u32) -> (r: u32)
    ensures
        r == network32(hostlong),
;

/// `socket::ntohl` reads its argument as big-endian bytes: reversed on a
/// little-endian machine, unchanged on a big-endian one.
pub assume_specification[ socket::ntohl ](netlong: u32) -> (r: u32)
    ensures
        r == network32(netlong),
;

/// Law: to convert an identifier to network byte order and back, or the other
/// way round, gives the identifier.
pub proof fn law_network_order_undoes_itself(x: u32)
    ensures
        network32(network32(x)) == x,
{
    let y = swap32(x);
    assert(y == (x << 24) | ((x & 0xff00) << 8) | ((x >> 8) & 0xff00) | (x >> 24));
    assert(((y << 24) | ((y & 0xff00) << 8) | ((y >> 8) & 0xff00) | (y >> 24)) == x)
        by (bit_vector)
        requires
            y == (x << 24) | ((x & 0xff00) << 8) | ((x >> 8) & 0xff00) | (x >> 24),
    ;
}

/// Law: in network byte order the most significant byte comes first in memory. A
/// little-endian machine reads such a number with its bytes in reverse, a big-endian
/// machine as it is.
pub proof fn law_network_order_puts_the_high_byte_first(a: u8, b: u8, c: u8, d: u8, x: u32, y: u16)
    requires
        x == a * 0x100_0000 + b * 0x1_0000 + c * 0x100 + d,
        y == a * 0x100 + b,
    ensures
        network32(x) == (match endianness() {
            Endian::Little => d * 0x100_0000 + c * 0x1_0000 + b * 0x100 + a,
            Endian::Big => a * 0x100_0000 + b * 0x1_0000 + c * 0x100 + d,
        }),
        network16(y) == (match endianness() {
            Endian::Little => b * 0x100 + a,
            Endian::Big => a * 0x100 + b,
        }),
{
    assert(((x << 24) | ((x & 0xff00) << 8) | ((x >> 8) & 0xff00) | (x >> 24)) == d * 0x100_0000u32
        + c * 0x1_0000u32 + b * 0x100u32 + a) by (bit_vector)
        requires
            x == a * 0x100_0000u32 + b * 0x1_0000u32 + c * 0x100u32 + d,
    ;
    assert(((y << 8) | (y >> 8)) == b * 0x100u16 + a) by (bit_vector)
        requires
            y == a * 0x100u16 + b,
    ;
}

} // verus!
