//! Names as text.
//!
//! The wire format is defined on the bytes of a name. A caller hands the name
//! over as text, and thinks of its labels as the parts of that text between
//! the dots. This module shows that the two views agree: the labels found in
//! the UTF-8 encoding of a text are the encodings of the labels of the text.

use vstd::prelude::*;
use vstd::utf8::{
    char_is_scalar, char_u32_cast, encode_scalar, encode_utf8, has_width_1_encoding,
    last_continuation_byte, leading_byte_width_1, leading_byte_width_2, leading_byte_width_3,
    leading_byte_width_4, second_last_continuation_byte, third_last_continuation_byte,
};
use crate::name::{labels, lemma_split_nonempty, split_on, LABEL_SEPARATOR};

verus! {

/// The labels of a name given as text: the non-empty parts between its dots.
pub open spec fn text_labels(text: Seq<char>) -> Seq<Seq<char>> {
    split_on(text, '.').filter(|part: Seq<char>| part.len() > 0)
}

/// The UTF-8 encoding of each of the given texts.
pub open spec fn encode_each(texts: Seq<Seq<char>>) -> Seq<Seq<u8>> {
    texts.map_values(|part: Seq<char>| encode_utf8(part))
}

/// The bytes of a scalar value hold the separator byte only where the value
/// is the full stop itself, which is that byte alone.
proof fn lemma_scalar_bytes(v: u32)
    ensures
        v == 0x2e ==> encode_scalar(v) == seq![LABEL_SEPARATOR],
        v != 0x2e ==> forall|i: int|
            0 <= i < encode_scalar(v).len() ==> encode_scalar(v)[i] != LABEL_SEPARATOR,
        encode_scalar(v).len() > 0,
{
    assert(has_width_1_encoding(v) ==> (leading_byte_width_1(v) == 0x2e <==> v == 0x2e))
        by (bit_vector);
    assert(leading_byte_width_2(v) >= 0x80) by (bit_vector);
    assert(leading_byte_width_3(v) >= 0x80) by (bit_vector);
    assert(leading_byte_width_4(v) >= 0x80) by (bit_vector);
    assert(last_continuation_byte(v) >= 0x80) by (bit_vector);
    assert(second_last_continuation_byte(v) >= 0x80) by (bit_vector);
    assert(third_last_continuation_byte(v) >= 0x80) by (bit_vector);
}

/// Encoding a text with one more character appends the bytes of that
/// character.
proof fn lemma_encode_push(text: Seq<char>, c: char)
    ensures
        encode_utf8(text.push(c)) == encode_utf8(text) + encode_scalar(c as u32),
    decreases text.len(),
{
    if text.len() == 0 {
        assert(text.push(c).drop_first() =~= text);
    } else {
        lemma_encode_push(text.drop_first(), c);
        assert(text.push(c).drop_first() =~= text.drop_first().push(c));
    }
}

/// Only the empty text has an empty encoding.
proof fn lemma_encode_empty(text: Seq<char>)
    ensures
        encode_utf8(text).len() == 0 <==> text.len() == 0,
{
    if text.len() > 0 {
        lemma_scalar_bytes(text[0] as u32);
    }
}

/// Items without a separator among them lengthen the last field.
proof fn lemma_split_extend<T>(s: Seq<T>, more: Seq<T>, sep: T)
    requires
        forall|i: int| 0 <= i < more.len() ==> more[i] != sep,
    ensures
        split_on(s + more, sep) == split_on(s, sep).drop_last().push(
            split_on(s, sep).last() + more,
        ),
    decreases more.len(),
{
    let fields = split_on(s, sep);
    lemma_split_nonempty(s, sep);
    if more.len() > 0 {
        let front = more.drop_last();
        lemma_split_extend(s, front, sep);
        assert((s + more).drop_last() =~= s + front);
        let before = split_on(s + front, sep);
        assert(before.last().push(more.last()) =~= fields.last() + more);
    }
}

/// The fields of an encoded text are the encodings of the fields of the text.
pub proof fn lemma_split_of_text(text: Seq<char>)
    ensures
        split_on(encode_utf8(text), LABEL_SEPARATOR) == encode_each(split_on(text, '.')),
    decreases text.len(),
{
    if text.len() > 0 {
        let front = text.drop_last();
        let c = text.last();
        let before = split_on(front, '.');
        lemma_split_of_text(front);
        lemma_split_nonempty(front, '.');
        lemma_encode_push(front, c);
        assert(front.push(c) =~= text);
        char_is_scalar(c);
        lemma_scalar_bytes(c as u32);
        assert(c == '.' <==> c as u32 == 0x2e) by {
            if c as u32 == 0x2e {
                char_u32_cast(c, 0x2e);
                char_u32_cast('.', 0x2e);
            }
        }
        if c == '.' {
            // The dot is one byte, the separator: a new field begins.
            assert(encode_utf8(text).drop_last() =~= encode_utf8(front));
        } else {
            // The bytes of another character lengthen the last field.
            lemma_split_extend(encode_utf8(front), encode_scalar(c as u32), LABEL_SEPARATOR);
            lemma_encode_push(before.last(), c);
        }
    }
}

/// Encoding keeps the non-empty texts, and them alone, non-empty.
proof fn lemma_encode_each_filter(texts: Seq<Seq<char>>)
    ensures
        encode_each(texts).filter(|field: Seq<u8>| field.len() > 0) == encode_each(
            texts.filter(|part: Seq<char>| part.len() > 0),
        ),
    decreases texts.len(),
{
    reveal(Seq::filter);
    if texts.len() > 0 {
        let front = texts.drop_last();
        lemma_encode_each_filter(front);
        lemma_encode_empty(texts.last());
        assert(encode_each(texts).drop_last() =~= encode_each(front));
    }
}

/// The labels found in the bytes of a name are the encodings of the labels of
/// its text: a dot is a separator byte, and no other character has that byte
/// in its encoding.
pub proof fn lemma_labels_of_text(text: Seq<char>)
    ensures
        labels(encode_utf8(text)) == encode_each(text_labels(text)),
{
    lemma_split_of_text(text);
    lemma_encode_each_filter(split_on(text, '.'));
}

} // verus!
