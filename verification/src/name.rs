//! The name of a question in wire format (RFC 1035, sections 3.1 and 4.1.2).
//!
//! A domain name is written as dot-separated labels. On the wire each label is
//! preceded by its length in a single byte, and a zero byte closes the name:
//! `www.google.com` becomes `3 w w w 6 g o o g l e 3 c o m 0`. A length byte
//! never exceeds 63.
//!
//! The model works on the bytes of the name, that is on its UTF-8 encoding.
//! That this agrees with splitting the text of the name at its dots is shown
//! in [`crate::text`].

use vstd::prelude::*;
use vstd::string::StringSliceAdditionalSpecFns;

verus! {

/// The byte that separates the labels of a domain name: an ASCII full stop.
pub const LABEL_SEPARATOR: u8 = 0x2e;

/// The greatest length of a label that the wire format can carry.
pub const MAX_LABEL_LEN: usize = 63;

/// The fields of `s` that lie between the occurrences of `sep`. A sequence
/// with `k` separators has `k + 1` fields, some of which may be empty.
pub open spec fn split_on<T>(s: Seq<T>, sep: T) -> Seq<Seq<T>>
    decreases s.len(),
{
    if s.len() == 0 {
        seq![Seq::empty()]
    } else {
        let before = split_on(s.drop_last(), sep);
        if s.last() == sep {
            before.push(Seq::empty())
        } else {
            before.drop_last().push(before.last().push(s.last()))
        }
    }
}

/// The labels of a name: its non-empty dot-separated fields, in order.
pub open spec fn labels(name: Seq<u8>) -> Seq<Seq<u8>> {
    split_on(name, LABEL_SEPARATOR).filter(|field: Seq<u8>| field.len() > 0)
}

/// Whether every label is short enough for its length to be put on the wire.
pub open spec fn labels_fit(labels: Seq<Seq<u8>>) -> bool {
    forall|i: int| 0 <= i < labels.len() ==> (#[trigger] labels[i]).len() <= MAX_LABEL_LEN
}

/// Whether `index` is the position of the first label that is too long, and
/// `length` the length of that label.
pub open spec fn first_oversized(labels: Seq<Seq<u8>>, index: int, length: int) -> bool {
    &&& 0 <= index < labels.len()
    &&& labels[index].len() == length
    &&& length > MAX_LABEL_LEN
    &&& labels_fit(labels.take(index))
}

/// One label on the wire: its length in one byte, then its bytes.
pub open spec fn framed_label(label: Seq<u8>) -> Seq<u8>
    recommends
        label.len() <= MAX_LABEL_LEN,
{
    seq![label.len() as u8] + label
}

/// The labels on the wire, one after the other.
pub open spec fn framed_labels(labels: Seq<Seq<u8>>) -> Seq<u8>
    recommends
        labels_fit(labels),
{
    labels.flat_map(|label: Seq<u8>| framed_label(label))
}

/// The number of bytes that the labels take on the wire: one more than its
/// length for each label.
pub open spec fn framed_len(labels: Seq<Seq<u8>>) -> nat
    decreases labels.len(),
{
    if labels.len() == 0 {
        0
    } else {
        framed_len(labels.drop_last()) + 1 + labels.last().len()
    }
}

/// The wire form of a name: its framed labels and the closing zero byte.
pub open spec fn name_bytes(name: Seq<u8>) -> Seq<u8>
    recommends
        labels_fit(labels(name)),
{
    framed_labels(labels(name)) + seq![0u8]
}

/// Why a name could not be encoded.
#[derive(Clone, Copy, Debug, PartialEq, Eq, Structural)]
pub enum EncodingError {
    /// A label is longer than 63 bytes. `index` counts the labels of the name
    /// from zero, `length` is the label's length in bytes.
    LabelTooLong { index: usize, length: usize },
}

/// Appends the frame of the label `bytes[start..end]` to `out`.
fn push_label(out: &mut Vec<u8>, bytes: &[u8], start: usize, end: usize)
    requires
        start <= end <= bytes@.len(),
        end - start <= MAX_LABEL_LEN,
    ensures
        final(out)@ == old(out)@ + framed_label(bytes@.subrange(start as int, end as int)),
{
    let ghost before = out@;
    let length: usize = end - start;
    out.push(length as u8);
    let mut j: usize = start;
    while j < end
        invariant
            start <= j <= end <= bytes@.len(),
            out@ == before.push(length as u8) + bytes@.subrange(start as int, j as int),
        decreases end - j,
    {
        out.push(bytes[j]);
        j += 1;
        assert(bytes@.subrange(start as int, j as int) =~= bytes@.subrange(
            start as int,
            j - 1,
        ).push(bytes@[j - 1]));
    }
}

/// Encodes a domain name for the question section of a message.
///
/// The name is split at its dots. Each non-empty label is written as its
/// length in one byte followed by its bytes, and a single zero byte ends the
/// name. Empty labels are skipped, so the empty name and a name made of dots
/// alone both give the root name, a lone zero byte.
///
/// The name is refused when one of its labels is longer than 63 bytes; the
/// error tells which label is the first such one.
///
/// The contract speaks of the bytes of the name. What it means for the text of
/// the name is stated by [`crate::text::lemma_labels_of_text`].
pub fn encode_question_name(name: &str) -> (result: Result<Vec<u8>, EncodingError>)
    ensures
        result is Ok <==> labels_fit(labels(name.spec_bytes())),
        result matches Ok(bytes) ==> bytes@ == name_bytes(name.spec_bytes()),
        result matches Ok(bytes) ==> bytes@.len() == framed_len(labels(name.spec_bytes())) + 1,
        result matches Err(EncodingError::LabelTooLong { index, length }) ==> first_oversized(
            labels(name.spec_bytes()),
            index as int,
            length as int,
        ),
{
    let bytes = name.as_bytes();
    let n: usize = bytes.len();
    let mut out: Vec<u8> = Vec::new();
    let mut start: usize = 0;
    let mut count: usize = 0;
    let mut i: usize = 0;
    let ghost keep = |field: Seq<u8>| field.len() > 0;
    // The fields that are complete: those before `start`.
    let ghost mut done: Seq<Seq<u8>> = Seq::empty();
    proof {
        assert(bytes@.take(0) =~= Seq::<u8>::empty());
        reveal(Seq::filter);
    }
    while i < n
        invariant
            bytes@ == name.spec_bytes(),
            n == bytes@.len(),
            start <= i <= n,
            count <= start,
            keep == |field: Seq<u8>| field.len() > 0,
            split_on(bytes@.take(i as int), LABEL_SEPARATOR) == done.push(
                bytes@.subrange(start as int, i as int),
            ),
            count == done.filter(keep).len(),
            labels_fit(done.filter(keep)),
            out@ == framed_labels(done.filter(keep)),
        decreases n - i,
    {
        proof {
            assert(bytes@.take(i + 1).drop_last() =~= bytes@.take(i as int));
            assert(bytes@.take(i + 1).last() == bytes@[i as int]);
        }
        if bytes[i] == LABEL_SEPARATOR {
            let length: usize = i - start;
            let ghost field = bytes@.subrange(start as int, i as int);
            proof {
                done.lemma_filter_push(field, keep);
            }
            if length > MAX_LABEL_LEN {
                proof {
                    lemma_labels_prefix(bytes@, i as int);
                    lemma_oversized(labels(bytes@), done.filter(keep), field);
                }
                return Err(EncodingError::LabelTooLong { index: count, length });
            }
            if length > 0 {
                push_label(&mut out, bytes, start, i);
                count += 1;
                proof {
                    lemma_framed_push(done.filter(keep), field);
                }
            }
            proof {
                done = done.push(field);
                assert(bytes@.subrange(i + 1, i + 1) =~= Seq::<u8>::empty());
            }
            start = i + 1;
        } else {
            proof {
                assert(bytes@.subrange(start as int, i + 1) =~= bytes@.subrange(
                    start as int,
                    i as int,
                ).push(bytes@[i as int]));
            }
        }
        i += 1;
    }
    let length: usize = n - start;
    let ghost field = bytes@.subrange(start as int, n as int);
    proof {
        assert(bytes@.take(n as int) =~= bytes@);
        done.lemma_filter_push(field, keep);
    }
    if length > MAX_LABEL_LEN {
        proof {
            lemma_labels_prefix(bytes@, n as int);
            lemma_oversized(labels(bytes@), done.filter(keep), field);
        }
        return Err(EncodingError::LabelTooLong { index: count, length });
    }
    if length > 0 {
        push_label(&mut out, bytes, start, n);
        proof {
            lemma_framed_push(done.filter(keep), field);
        }
    }
    out.push(0);
    proof {
        lemma_framed_len(labels(bytes@));
    }
    Ok(out)
}

/// Splitting never yields an empty list of fields.
pub proof fn lemma_split_nonempty<T>(s: Seq<T>, sep: T)
    ensures
        split_on(s, sep).len() >= 1,
    decreases s.len(),
{
    if s.len() > 0 {
        lemma_split_nonempty(s.drop_last(), sep);
    }
}

/// Splitting at a separator splits the list of fields: the fields of the whole
/// are those before the separator followed by those after it.
pub proof fn lemma_split_at_separator<T>(s: Seq<T>, sep: T, i: int)
    requires
        0 <= i < s.len(),
        s[i] == sep,
    ensures
        split_on(s, sep) == split_on(s.take(i), sep) + split_on(s.skip(i + 1), sep),
    decreases s.len(),
{
    if i < s.len() - 1 {
        // The last item lies behind the separator: it changes the fields of
        // the whole as it changes those of the part behind the separator.
        let front = s.drop_last();
        lemma_split_at_separator(front, sep, i);
        lemma_split_nonempty(front.skip(i + 1), sep);
        assert(front.take(i) =~= s.take(i));
        assert(front.skip(i + 1) =~= s.skip(i + 1).drop_last());
    }
}

/// The labels of a name that ends where a field ends are the first labels of
/// every name that goes on from there.
pub proof fn lemma_labels_prefix(name: Seq<u8>, i: int)
    requires
        0 <= i <= name.len(),
        i < name.len() ==> name[i] == LABEL_SEPARATOR,
    ensures
        labels(name.take(i)).len() <= labels(name).len(),
        labels(name).take(labels(name.take(i)).len() as int) == labels(name.take(i)),
{
    let keep = |field: Seq<u8>| field.len() > 0;
    if i == name.len() {
        assert(name.take(i) =~= name);
    } else {
        lemma_split_at_separator(name, LABEL_SEPARATOR, i);
        let head = split_on(name.take(i), LABEL_SEPARATOR);
        let tail = split_on(name.skip(i + 1), LABEL_SEPARATOR);
        Seq::filter_distributes_over_add(head, tail, keep);
    }
}

/// A name without a label is the root name: on the wire, a lone zero byte.
/// The empty name is one, and so is every name made of separators alone.
pub proof fn lemma_root_name(name: Seq<u8>)
    requires
        forall|i: int| 0 <= i < name.len() ==> name[i] == LABEL_SEPARATOR,
    ensures
        labels(name) == Seq::<Seq<u8>>::empty(),
        name_bytes(name) == seq![0u8],
{
    lemma_only_empty_fields(name);
    split_on(name, LABEL_SEPARATOR).lemma_all_neg_filter_empty(
        |field: Seq<u8>| field.len() > 0,
    );
}

/// Between separators that follow one another there is nothing.
proof fn lemma_only_empty_fields(name: Seq<u8>)
    requires
        forall|i: int| 0 <= i < name.len() ==> name[i] == LABEL_SEPARATOR,
    ensures
        forall|k: int|
            0 <= k < split_on(name, LABEL_SEPARATOR).len() ==> (#[trigger] split_on(
                name,
                LABEL_SEPARATOR,
            )[k]).len() == 0,
    decreases name.len(),
{
    if name.len() > 0 {
        lemma_only_empty_fields(name.drop_last());
        let before = split_on(name.drop_last(), LABEL_SEPARATOR);
        let fields = split_on(name, LABEL_SEPARATOR);
        assert forall|k: int| 0 <= k < fields.len() implies (#[trigger] fields[k]).len() == 0 by {
            assert(fields == before.push(Seq::empty()));
            if k < before.len() {
                assert(fields[k] == before[k]);
            }
        }
    }
}

/// Every label of a name holds at least one byte, so no length byte of an
/// encoded name is zero: the zero byte that ends the name is the only one at
/// the place of a length.
pub proof fn lemma_labels_nonempty(name: Seq<u8>)
    ensures
        forall|i: int| 0 <= i < labels(name).len() ==> (#[trigger] labels(name)[i]).len() > 0,
{
    let keep = |field: Seq<u8>| field.len() > 0;
    let fields = split_on(name, LABEL_SEPARATOR);
    assert forall|i: int| 0 <= i < labels(name).len() implies (#[trigger] labels(name)[i]).len()
        > 0 by {
        fields.lemma_filter_pred(keep, i);
    }
}

/// The framing can be undone: lists of labels that a name can have, and that
/// fit, are equal where their wire forms are equal. Walking the bytes from the
/// front, each length byte tells where its label ends, and the zero byte tells
/// where the name ends.
pub proof fn lemma_framing_unambiguous(a: Seq<Seq<u8>>, b: Seq<Seq<u8>>)
    requires
        labels_fit(a),
        labels_fit(b),
        forall|i: int| 0 <= i < a.len() ==> (#[trigger] a[i]).len() > 0,
        forall|i: int| 0 <= i < b.len() ==> (#[trigger] b[i]).len() > 0,
        framed_labels(a) + seq![0u8] == framed_labels(b) + seq![0u8],
    ensures
        a == b,
    decreases a.len(),
{
    let frame = |label: Seq<u8>| framed_label(label);
    let wire_a = framed_labels(a) + seq![0u8];
    let wire_b = framed_labels(b) + seq![0u8];
    // Where one list is empty its wire form starts with the zero byte, and
    // the other list, which starts with a length that is not zero, is empty.
    if a.len() > 0 && b.len() > 0 {
        let rest_a = a.drop_first();
        let rest_b = b.drop_first();
        assert(a.map_values(frame).drop_first() =~= rest_a.map_values(frame));
        assert(b.map_values(frame).drop_first() =~= rest_b.map_values(frame));
        // The first byte is the length of the first label of either list.
        let n = a[0].len() as int;
        assert(wire_a[0] == n as u8);
        assert(a[0] =~= wire_a.subrange(1, 1 + n));
        assert(b[0] =~= wire_b.subrange(1, 1 + n));
        assert(framed_labels(rest_a) + seq![0u8] =~= wire_a.skip(1 + n));
        assert(framed_labels(rest_b) + seq![0u8] =~= wire_b.skip(1 + n));
        assert forall|i: int| 0 <= i < rest_a.len() implies 0 < (#[trigger] rest_a[i]).len()
            <= MAX_LABEL_LEN by {
            assert(rest_a[i] == a[i + 1]);
        }
        assert forall|i: int| 0 <= i < rest_b.len() implies 0 < (#[trigger] rest_b[i]).len()
            <= MAX_LABEL_LEN by {
            assert(rest_b[i] == b[i + 1]);
        }
        lemma_framing_unambiguous(rest_a, rest_b);
        assert(a =~= seq![a[0]] + rest_a);
    }
}

/// Names that fit and have the same wire form have the same labels: nothing
/// of a name but its empty fields is lost on the wire.
pub proof fn lemma_name_bytes_injective(a: Seq<u8>, b: Seq<u8>)
    requires
        labels_fit(labels(a)),
        labels_fit(labels(b)),
        name_bytes(a) == name_bytes(b),
    ensures
        labels(a) == labels(b),
{
    lemma_labels_nonempty(a);
    lemma_labels_nonempty(b);
    lemma_framing_unambiguous(labels(a), labels(b));
}

/// Framing one more label appends its frame.
pub proof fn lemma_framed_push(labels: Seq<Seq<u8>>, label: Seq<u8>)
    ensures
        framed_labels(labels.push(label)) == framed_labels(labels) + framed_label(label),
        framed_len(labels.push(label)) == framed_len(labels) + 1 + label.len(),
{
    let frame = |label: Seq<u8>| framed_label(label);
    labels.lemma_push_map_commute(frame, label);
    labels.map_values(frame).lemma_flatten_push(frame(label));
    assert(labels.push(label).drop_last() =~= labels);
}

/// The framed labels take one byte more than its length for each label.
pub proof fn lemma_framed_len(labels: Seq<Seq<u8>>)
    ensures
        framed_labels(labels).len() == framed_len(labels),
    decreases labels.len(),
{
    if labels.len() > 0 {
        lemma_framed_len(labels.drop_last());
        lemma_framed_push(labels.drop_last(), labels.last());
        assert(labels.drop_last().push(labels.last()) =~= labels);
    }
}

/// A label that is too long and follows labels that all fit is the first
/// oversized label of every list that begins with them.
proof fn lemma_oversized(all: Seq<Seq<u8>>, fitting: Seq<Seq<u8>>, label: Seq<u8>)
    requires
        labels_fit(fitting),
        label.len() > MAX_LABEL_LEN,
        fitting.len() < all.len(),
        all.take(fitting.len() + 1int) == fitting.push(label),
    ensures
        first_oversized(all, fitting.len() as int, label.len() as int),
        !labels_fit(all),
{
    let k = fitting.len() as int;
    assert(all[k] == all.take(k + 1)[k]);
    assert forall|j: int| 0 <= j < k implies (#[trigger] all.take(k)[j]).len()
        <= MAX_LABEL_LEN by {
        assert(all.take(k)[j] == all.take(k + 1)[j]);
    }
}

} // verus!
