//! The fixed 12-byte header of a DNS message (RFC 1035, section 4.1.1).
//!
//! On the wire the header is six 16-bit fields, each in network byte order and
//! with no padding between them: `id`, `flags`, `qcount`, `ancount`, `nscount`,
//! `arcount`.

use vstd::prelude::*;
use crate::flags::{flag_bits, HeaderFlag, HeaderFlags};
use crate::wire::{be16, encode_u16};

verus! {

/// The length of an encoded header in bytes.
pub const HEADER_LEN: usize = 12;

/// The wire form of a header with the given field values.
pub open spec fn header_bytes(
    id: u16,
    flags: u16,
    qcount: u16,
    ancount: u16,
    nscount: u16,
    arcount: u16,
) -> Seq<u8> {
    be16(id) + be16(flags) + be16(qcount) + be16(ancount) + be16(nscount) + be16(arcount)
}

/// Serialises the six header fields, given in host order, into the 12 bytes
/// that go on the wire.
pub fn encode_header(
    id: u16,
    flags: u16,
    qcount: u16,
    ancount: u16,
    nscount: u16,
    arcount: u16,
) -> (bytes: [u8; 12])
    ensures
        bytes@ == header_bytes(id, flags, qcount, ancount, nscount, arcount),
{
    let i = encode_u16(id);
    let f = encode_u16(flags);
    let q = encode_u16(qcount);
    let an = encode_u16(ancount);
    let ns = encode_u16(nscount);
    let ar = encode_u16(arcount);
    [i[0], i[1], f[0], f[1], q[0], q[1], an[0], an[1], ns[0], ns[1], ar[0], ar[1]]
}

/// The header of a DNS message, with its fields in host order.
#[derive(Clone, Copy, Debug, PartialEq, Eq, Structural)]
pub struct DnsHeader {
    /// The transaction identifier: chosen by the client, echoed by the server.
    pub id: u16,
    /// The flags of the message.
    pub flags: HeaderFlags,
    /// The number of questions.
    pub qcount: u16,
    /// The number of answer records.
    pub ancount: u16,
    /// The number of authority records.
    pub nscount: u16,
    /// The number of additional records.
    pub arcount: u16,
}

impl DnsHeader {
    /// The wire form of the header.
    pub open spec fn wire(self) -> Seq<u8> {
        header_bytes(
            self.id,
            flag_bits(self.flags@),
            self.qcount,
            self.ancount,
            self.nscount,
            self.arcount,
        )
    }

    /// The header of a request that asks one question and wants recursion.
    pub fn query(id: u16) -> (header: DnsHeader)
        ensures
            header.id == id,
            header.flags@ == set![HeaderFlag::RecursionDesired],
            header.qcount == 1,
            header.ancount == 0,
            header.nscount == 0,
            header.arcount == 0,
    {
        DnsHeader {
            id,
            flags: HeaderFlags::only(HeaderFlag::RecursionDesired),
            qcount: 1,
            ancount: 0,
            nscount: 0,
            arcount: 0,
        }
    }

    /// Serialises the header into the 12 bytes that go on the wire.
    pub fn encode(&self) -> (bytes: [u8; 12])
        ensures
            bytes@ == self.wire(),
    {
        encode_header(
            self.id,
            self.flags.bits(),
            self.qcount,
            self.ancount,
            self.nscount,
            self.arcount,
        )
    }
}

impl Default for DnsHeader {
    /// The header with no flag set and every other field zero.
    fn default() -> (header: DnsHeader)
        ensures
            header.id == 0,
            header.flags@ == Set::<HeaderFlag>::empty(),
            header.qcount == 0,
            header.ancount == 0,
            header.nscount == 0,
            header.arcount == 0,
    {
        DnsHeader { id: 0, flags: HeaderFlags::empty(), qcount: 0, ancount: 0, nscount: 0, arcount: 0 }
    }
}

/// An encoded header is exactly 12 bytes long, whatever its fields hold, and
/// each field occupies its own pair of bytes, most significant byte first.
pub proof fn lemma_header_layout(
    id: u16,
    flags: u16,
    qcount: u16,
    ancount: u16,
    nscount: u16,
    arcount: u16,
)
    ensures
        header_bytes(id, flags, qcount, ancount, nscount, arcount).len() == HEADER_LEN,
        header_bytes(id, flags, qcount, ancount, nscount, arcount).subrange(0, 2) == be16(id),
        header_bytes(id, flags, qcount, ancount, nscount, arcount).subrange(2, 4) == be16(flags),
        header_bytes(id, flags, qcount, ancount, nscount, arcount).subrange(4, 6) == be16(qcount),
        header_bytes(id, flags, qcount, ancount, nscount, arcount).subrange(6, 8) == be16(ancount),
        header_bytes(id, flags, qcount, ancount, nscount, arcount).subrange(8, 10) == be16(
            nscount,
        ),
        header_bytes(id, flags, qcount, ancount, nscount, arcount).subrange(10, 12) == be16(
            arcount,
        ),
{
}

} // verus!
