//! Record types and classes of a question (RFC 1035, sections 3.2.2 and 3.2.4).

use vstd::prelude::*;
use crate::wire::{be16, encode_u16};

verus! {

/// The type of record that a question asks for.
#[derive(Clone, Copy, Debug, PartialEq, Eq, Structural)]
pub enum RecordType {
    /// A host address.
    A,
    /// An authoritative name server.
    NS,
    /// A mail destination (obsolete).
    MD,
    /// A mail forwarder (obsolete).
    MF,
    /// The canonical name for an alias.
    CNAME,
    /// The start of a zone of authority.
    SOA,
    /// A mailbox domain name.
    MB,
    /// A mail group member.
    MG,
    /// A mail rename domain name.
    MR,
    /// A null record.
    NULL,
    /// A well known service description.
    WKS,
    /// A domain name pointer.
    PTR,
    /// Host information.
    HINFO,
    /// Mailbox or mail list information.
    MINFO,
    /// Mail exchange.
    MX,
    /// Text strings.
    TXT,
}

impl RecordType {
    /// The 16-bit code of the type.
    pub open spec fn spec_code(self) -> u16 {
        match self {
            RecordType::A => 1,
            RecordType::NS => 2,
            RecordType::MD => 3,
            RecordType::MF => 4,
            RecordType::CNAME => 5,
            RecordType::SOA => 6,
            RecordType::MB => 7,
            RecordType::MG => 8,
            RecordType::MR => 9,
            RecordType::NULL => 10,
            RecordType::WKS => 11,
            RecordType::PTR => 12,
            RecordType::HINFO => 13,
            RecordType::MINFO => 14,
            RecordType::MX => 15,
            RecordType::TXT => 16,
        }
    }

    /// The 16-bit code of the type.
    #[verifier::when_used_as_spec(spec_code)]
    pub fn code(self) -> (code: u16)
        ensures
            code == self.spec_code(),
    {
        match self {
            RecordType::A => 1,
            RecordType::NS => 2,
            RecordType::MD => 3,
            RecordType::MF => 4,
            RecordType::CNAME => 5,
            RecordType::SOA => 6,
            RecordType::MB => 7,
            RecordType::MG => 8,
            RecordType::MR => 9,
            RecordType::NULL => 10,
            RecordType::WKS => 11,
            RecordType::PTR => 12,
            RecordType::HINFO => 13,
            RecordType::MINFO => 14,
            RecordType::MX => 15,
            RecordType::TXT => 16,
        }
    }
}

/// The class of record that a question asks for.
#[derive(Clone, Copy, Debug, PartialEq, Eq, Structural)]
pub enum RecordClass {
    /// The Internet.
    IN,
    /// CSNET (obsolete).
    CS,
    /// CHAOS.
    CH,
    /// Hesiod.
    HS,
}

impl RecordClass {
    /// The 16-bit code of the class.
    pub open spec fn spec_code(self) -> u16 {
        match self {
            RecordClass::IN => 1,
            RecordClass::CS => 2,
            RecordClass::CH => 3,
            RecordClass::HS => 4,
        }
    }

    /// The 16-bit code of the class.
    #[verifier::when_used_as_spec(spec_code)]
    pub fn code(self) -> (code: u16)
        ensures
            code == self.spec_code(),
    {
        match self {
            RecordClass::IN => 1,
            RecordClass::CS => 2,
            RecordClass::CH => 3,
            RecordClass::HS => 4,
        }
    }
}

/// The two bytes that carry a question's type: its code in network byte order.
pub fn encode_query_type(record_type: RecordType) -> (bytes: [u8; 2])
    ensures
        bytes@ == be16(record_type.code()),
{
    encode_u16(record_type.code())
}

/// The two bytes that carry a question's class: its code in network byte order.
pub fn encode_query_class(record_class: RecordClass) -> (bytes: [u8; 2])
    ensures
        bytes@ == be16(record_class.code()),
{
    encode_u16(record_class.code())
}

/// No two record types share a code.
pub proof fn lemma_type_codes_distinct(a: RecordType, b: RecordType)
    ensures
        a.code() == b.code() ==> a == b,
{
}

/// No two record classes share a code.
pub proof fn lemma_class_codes_distinct(a: RecordClass, b: RecordClass)
    ensures
        a.code() == b.code() ==> a == b,
{
}

} // verus!
