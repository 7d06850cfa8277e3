//! A complete request: one question for the address of a host.
//!
//! The message is the 12-byte header, the name of the question, and the type
//! and class of the question in two bytes each. The header asks for recursion
//! and announces one question; the question is always for type `A` in class
//! `IN`.
//!
//! [`build_query`] takes the transaction id from its caller, so that what it
//! returns depends on its arguments alone. [`build_random_query`] is for the
//! caller who has no id of its own: it draws one and builds the same request.

use rand::Rng;
use vstd::prelude::*;
use vstd::string::StringSliceAdditionalSpecFns;
use crate::flags::{flag_bits, lemma_flag_bits, HeaderFlag};
use crate::header::{header_bytes, DnsHeader, HEADER_LEN};
use crate::name::{
    encode_question_name, first_oversized, framed_len, labels, labels_fit, lemma_framed_len,
    name_bytes, EncodingError,
};
use crate::record::{encode_query_class, encode_query_type, RecordClass, RecordType};
use crate::wire::{be16, be16_value};

verus! {

/// The header of every request that this module builds, for the given
/// transaction id.
pub open spec fn query_header(id: u16) -> Seq<u8> {
    header_bytes(id, flag_bits(set![HeaderFlag::RecursionDesired]), 1, 0, 0, 0)
}

/// The request for the address of the host `name`, with transaction id `id`.
pub open spec fn query_bytes(name: Seq<u8>, id: u16) -> Seq<u8> {
    query_header(id) + name_bytes(name) + be16(RecordType::A.code()) + be16(
        RecordClass::IN.code(),
    )
}

/// The layout of a request, byte by byte.
///
/// The first two bytes are the transaction id, most significant byte first.
/// The flags, read the same way, are `0x0100`: recursion desired and nothing
/// else. The question count is one and the three other counts are zero. The
/// name follows, and the last four bytes are type `A` and class `IN`. The
/// whole is 12 bytes of header, one byte more than its length for each label,
/// the zero byte that ends the name, and 4 bytes of type and class.
pub proof fn lemma_query_layout(name: Seq<u8>, id: u16)
    ensures
        query_bytes(name, id).len() == HEADER_LEN + framed_len(labels(name)) + 1 + 4,
        be16_value(query_bytes(name, id)[0], query_bytes(name, id)[1]) == id,
        be16_value(query_bytes(name, id)[2], query_bytes(name, id)[3]) == 0x0100,
        query_bytes(name, id).subrange(4, 12) == seq![0u8, 1u8, 0u8, 0u8, 0u8, 0u8, 0u8, 0u8],
        query_bytes(name, id).subrange(12, query_bytes(name, id).len() - 4) == name_bytes(name),
        query_bytes(name, id).subrange(
            query_bytes(name, id).len() - 4,
            query_bytes(name, id).len() as int,
        ) == seq![0u8, 1u8, 0u8, 1u8],
{
    lemma_flag_bits(set![HeaderFlag::RecursionDesired]);
    lemma_framed_len(labels(name));
}

/// Builds the request that asks a resolver for the address of `domain_name`.
///
/// The caller supplies the transaction id, which a server echoes in its reply.
/// The request is refused when a label of the name is longer than 63 bytes,
/// and built otherwise.
pub fn build_query(domain_name: &str, transaction_id: u16) -> (result: Result<
    Vec<u8>,
    EncodingError,
>)
    ensures
        result is Ok <==> labels_fit(labels(domain_name.spec_bytes())),
        result matches Ok(request) ==> request@ == query_bytes(
            domain_name.spec_bytes(),
            transaction_id,
        ),
        result matches Ok(request) ==> request@.len() == HEADER_LEN + framed_len(
            labels(domain_name.spec_bytes()),
        ) + 1 + 4,
        result matches Ok(request) ==> be16_value(request@[0], request@[1]) == transaction_id,
        result matches Ok(request) ==> be16_value(request@[2], request@[3]) == 0x0100,
        result matches Ok(request) ==> request@.subrange(4, 12) == seq![
            0u8,
            1u8,
            0u8,
            0u8,
            0u8,
            0u8,
            0u8,
            0u8,
        ],
        result matches Err(EncodingError::LabelTooLong { index, length }) ==> first_oversized(
            labels(domain_name.spec_bytes()),
            index as int,
            length as int,
        ),
{
    let name = match encode_question_name(domain_name) {
        Ok(name) => name,
        Err(error) => {
            return Err(error);
        },
    };
    let header = DnsHeader::query(transaction_id).encode();
    let record_type = encode_query_type(RecordType::A);
    let record_class = encode_query_class(RecordClass::IN);
    let mut request: Vec<u8> = Vec::new();
    request.extend_from_slice(header.as_slice());
    request.extend_from_slice(name.as_slice());
    request.extend_from_slice(record_type.as_slice());
    request.extend_from_slice(record_class.as_slice());
    proof {
        lemma_query_layout(domain_name.spec_bytes(), transaction_id);
    }
    Ok(request)
}

/// Random transaction ids are drawn from zero up to, but not including, this
/// bound.
pub const TRANSACTION_ID_BOUND: u16 = 63335;

/// A number drawn from the random number generator of the current thread.
///
/// Calls `rand::thread_rng().gen_range(low, high)`. The `rand` crate documents
/// that `gen_range` yields a value in the range from `low` inclusive to `high`
/// exclusive, and that it panics where `low >= high`. Nothing else is assumed
/// of the value: two calls with the same bounds may differ.
///
/// This contract is taken on trust, not proved. It says nothing of the first
/// use of the generator in a thread, when `rand` seeds it from the operating
/// system and panics if no seed can be had.
#[verifier::external_body]
fn random_in_range(low: u16, high: u16) -> (value: u16)
    requires
        low < high,
    ensures
        low <= value < high,
{
    rand::thread_rng().gen_range(low, high)
}

/// Builds the request that asks a resolver for the address of `domain_name`,
/// under a transaction id drawn at random below [`TRANSACTION_ID_BOUND`].
///
/// The request is the one that [`build_query`] builds for the id that was
/// drawn; the id can be read back from its first two bytes. The name is
/// refused exactly when `build_query` refuses it.
///
/// The id comes from the thread-local generator of the `rand` crate, which
/// panics if the operating system cannot seed it.
pub fn build_random_query(domain_name: &str) -> (result: Result<Vec<u8>, EncodingError>)
    ensures
        result is Ok <==> labels_fit(labels(domain_name.spec_bytes())),
        result matches Ok(request) ==> be16_value(request@[0], request@[1])
            < TRANSACTION_ID_BOUND,
        result matches Ok(request) ==> request@ == query_bytes(
            domain_name.spec_bytes(),
            be16_value(request@[0], request@[1]) as u16,
        ),
        result matches Err(EncodingError::LabelTooLong { index, length }) ==> first_oversized(
            labels(domain_name.spec_bytes()),
            index as int,
            length as int,
        ),
{
    let transaction_id: u16 = random_in_range(0, TRANSACTION_ID_BOUND);
    build_query(domain_name, transaction_id)
}

} // verus!
