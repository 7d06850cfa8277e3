//! The flags field of the DNS header (RFC 1035, section 4.1.1).
//!
//! Only the two bits that a query client needs are modelled. Every other bit of
//! the field (opcode, authoritative answer, truncation, response code, ...) is
//! always zero in a [`HeaderFlags`] value.

use vstd::prelude::*;

verus! {

/// A named bit of the header's flags field.
#[derive(Clone, Copy, Debug, PartialEq, Eq, Structural)]
pub enum HeaderFlag {
    /// The message is a server's reply.
    Response,
    /// The server is asked to resolve the name recursively.
    RecursionDesired,
}

impl HeaderFlag {
    /// The bit that stands for this flag in the 16-bit field.
    pub open spec fn spec_mask(self) -> u16 {
        match self {
            HeaderFlag::Response => 0x0001,
            HeaderFlag::RecursionDesired => 0x0100,
        }
    }

    /// The bit that stands for this flag in the 16-bit field.
    #[verifier::when_used_as_spec(spec_mask)]
    pub fn mask(self) -> (m: u16)
        ensures
            m == self.spec_mask(),
    {
        match self {
            HeaderFlag::Response => 0x0001,
            HeaderFlag::RecursionDesired => 0x0100,
        }
    }
}

/// The 16-bit field that carries exactly the flags in `flags`: the bitwise OR
/// of their masks.
pub open spec fn flag_bits(flags: Set<HeaderFlag>) -> u16 {
    let response: u16 = if flags.contains(HeaderFlag::Response) {
        HeaderFlag::Response.spec_mask()
    } else {
        0
    };
    let recursion: u16 = if flags.contains(HeaderFlag::RecursionDesired) {
        HeaderFlag::RecursionDesired.spec_mask()
    } else {
        0
    };
    response | recursion
}

/// A set of header flags, held as the 16-bit field itself.
#[derive(Clone, Copy, Debug, PartialEq, Eq, Structural)]
pub struct HeaderFlags {
    bits: u16,
}

impl View for HeaderFlags {
    type V = Set<HeaderFlag>;

    /// The flags whose bit is set.
    closed spec fn view(&self) -> Set<HeaderFlag> {
        Set::new(|flag: HeaderFlag| self.bits & flag.spec_mask() != 0)
    }
}

impl HeaderFlags {
    /// No bit outside the two modelled flags is ever set.
    #[verifier::type_invariant]
    spec fn only_known_bits(self) -> bool {
        self.bits & 0xfefe == 0
    }

    /// The empty set: a plain, non-recursive query.
    pub fn empty() -> (flags: HeaderFlags)
        ensures
            flags@ == Set::<HeaderFlag>::empty(),
    {
        assert(0u16 & 0xfefe == 0) by (bit_vector);
        let flags = HeaderFlags { bits: 0 };
        assert forall|flag: HeaderFlag| !(#[trigger] flags@.contains(flag)) by {
            let m = flag.spec_mask();
            assert(0u16 & m == 0) by (bit_vector);
        }
        flags
    }

    /// The set that holds `flag` alone.
    pub fn only(flag: HeaderFlag) -> (flags: HeaderFlags)
        ensures
            flags@ == set![flag],
    {
        proof {
            lemma_masks();
        }
        HeaderFlags { bits: flag.mask() }
    }

    /// The flags of `self` together with those of `other`.
    pub fn union(self, other: HeaderFlags) -> (flags: HeaderFlags)
        ensures
            flags@ == self@.union(other@),
    {
        proof {
            use_type_invariant(&self);
            use_type_invariant(&other);
        }
        let a: u16 = self.bits;
        let b: u16 = other.bits;
        assert((a | b) & 0xfefe == 0) by (bit_vector)
            requires
                a & 0xfefe == 0,
                b & 0xfefe == 0,
        ;
        let flags = HeaderFlags { bits: a | b };
        assert forall|flag: HeaderFlag|
            flags@.contains(flag) == (self@.contains(flag) || other@.contains(flag)) by {
            let m = flag.spec_mask();
            assert(((a | b) & m != 0) == (a & m != 0 || b & m != 0)) by (bit_vector);
        }
        flags
    }

    /// Whether `flag` is in the set.
    pub fn contains(&self, flag: HeaderFlag) -> (present: bool)
        ensures
            present == self@.contains(flag),
    {
        self.bits & flag.mask() != 0
    }

    /// The 16-bit field in host order, as it stands before it is put on the wire.
    pub fn bits(&self) -> (bits: u16)
        ensures
            bits == flag_bits(self@),
    {
        proof {
            use_type_invariant(self);
            let b = self.bits;
            assert(b == (if b & 0x0001 != 0 { 0x0001u16 } else { 0u16 })
                | (if b & 0x0100 != 0 { 0x0100u16 } else { 0u16 })) by (bit_vector)
                requires
                    b & 0xfefe == 0,
            ;
        }
        self.bits
    }
}

/// The masks are single, distinct bits.
proof fn lemma_masks()
    ensures
        0x0001u16 & 0x0001u16 != 0,
        0x0100u16 & 0x0100u16 != 0,
        0x0001u16 & 0x0100u16 == 0,
        0x0100u16 & 0x0001u16 == 0,
        0x0001u16 & 0xfefe == 0,
        0x0100u16 & 0xfefe == 0,
{
    assert(0x0001u16 & 0x0001u16 != 0) by (bit_vector);
    assert(0x0100u16 & 0x0100u16 != 0) by (bit_vector);
    assert(0x0001u16 & 0x0100u16 == 0) by (bit_vector);
    assert(0x0100u16 & 0x0001u16 == 0) by (bit_vector);
    assert(0x0001u16 & 0xfefe == 0) by (bit_vector);
    assert(0x0100u16 & 0xfefe == 0) by (bit_vector);
}

/// The field of each of the four possible sets, written out.
pub proof fn lemma_flag_bits(flags: Set<HeaderFlag>)
    ensures
        flag_bits(flags) == (if flags.contains(HeaderFlag::Response) {
            0x0001int
        } else {
            0int
        }) + (if flags.contains(HeaderFlag::RecursionDesired) {
            0x0100int
        } else {
            0int
        }),
{
    assert(0x0000u16 | 0x0000u16 == 0x0000u16) by (bit_vector);
    assert(0x0001u16 | 0x0000u16 == 0x0001u16) by (bit_vector);
    assert(0x0000u16 | 0x0100u16 == 0x0100u16) by (bit_vector);
    assert(0x0001u16 | 0x0100u16 == 0x0101u16) by (bit_vector);
}

} // verus!
