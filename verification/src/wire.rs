//! Network byte order for the 16-bit fields of a DNS message.

use vstd::prelude::*;

verus! {

/// The two bytes of `v` in network (big-endian) order: most significant first.
pub open spec fn be16(v: u16) -> Seq<u8> {
    seq![(v / 256) as u8, (v % 256) as u8]
}

/// The 16-bit value whose big-endian encoding is the byte pair `hi`, `lo`.
pub open spec fn be16_value(hi: u8, lo: u8) -> int {
    hi * 256 + lo
}

/// Encodes a 16-bit value as two bytes in network byte order.
pub fn encode_u16(v: u16) -> (bytes: [u8; 2])
    ensures
        bytes@ == be16(v),
{
    let hi: u8 = (v >> 8) as u8;
    let lo: u8 = (v & 0xff) as u8;
    assert(v >> 8 == v / 256 && v & 0xff == v % 256) by (bit_vector);
    [hi, lo]
}

/// Big-endian encoding loses nothing: reading the two bytes back yields the value.
pub proof fn lemma_be16_round_trip(v: u16)
    ensures
        be16(v).len() == 2,
        be16_value(be16(v)[0], be16(v)[1]) == v,
{
}

} // verus!
