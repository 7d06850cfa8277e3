//! A dump of a byte buffer as text, for showing requests and responses.
//!
//! The bytes are laid out in rows of 16. A row starts with the offset of its
//! first byte, in at least four hexadecimal digits, and two spaces. Then come
//! the bytes, two hexadecimal digits and a space each, in groups of 8 with one
//! more space after each group. A line feed ends the row:
//!
//! ```text
//! 0000  12 34 01 00 00 01 00 00  00 00 00 00 03 77 77 77
//! 0010  06 67 6f 6f 67 6c 65 03  63 6f 6d 00 00 01 00 01
//! ```
//!
//! (Each of these rows ends with the two spaces that close its last byte and
//! its last group.)

use vstd::prelude::*;
use vstd::string::*;

verus! {

/// The number of bytes in a row of the dump.
pub const ROW_LEN: usize = 16;

/// The number of bytes in a group within a row.
pub const GROUP_LEN: usize = 8;

/// The least number of digits in which the offset of a row is written.
pub const OFFSET_WIDTH: usize = 4;

/// The successive pieces of `s` of `size` items each; the last one holds what
/// is left, and may be shorter. The empty sequence has no pieces.
pub open spec fn chunks<T>(s: Seq<T>, size: int) -> Seq<Seq<T>>
    recommends
        size > 0,
{
    Seq::new(
        ((s.len() + size - 1) / size) as nat,
        |k: int| s.subrange(k * size, vstd::math::min((k + 1) * size, s.len() as int)),
    )
}

/// The lower-case hexadecimal digit for a value below 16.
pub open spec fn hex_digit(value: int) -> char
    recommends
        0 <= value < 16,
{
    seq!['0', '1', '2', '3', '4', '5', '6', '7', '8', '9', 'a', 'b', 'c', 'd', 'e', 'f'][value]
}

/// A number in hexadecimal, with zeros in front where it has fewer than
/// `width` digits.
pub open spec fn hex_padded(n: nat, width: nat) -> Seq<char>
    decreases n, width,
{
    if n < 16 && width <= 1 {
        seq![hex_digit(n as int)]
    } else {
        hex_padded(n / 16, if width > 0 { (width - 1) as nat } else { 0 }).push(
            hex_digit((n % 16) as int),
        )
    }
}

/// A byte in the dump: its two hexadecimal digits and a space.
pub open spec fn dump_byte(byte: u8) -> Seq<char> {
    seq![hex_digit(byte as int / 16), hex_digit(byte as int % 16), ' ']
}

/// A group in the dump: its bytes, and a space.
pub open spec fn dump_group(group: Seq<u8>) -> Seq<char> {
    group.flat_map(|byte: u8| dump_byte(byte)).push(' ')
}

/// A row in the dump: the offset and two spaces, the groups, and a line feed.
pub open spec fn dump_row(offset: nat, row: Seq<u8>) -> Seq<char> {
    let groups = chunks(row, GROUP_LEN as int);
    hex_padded(offset, OFFSET_WIDTH as nat) + seq![' ', ' '] + groups.flat_map(
        |group: Seq<u8>| dump_group(group),
    ) + seq!['\n']
}

/// The rows of the dump of `data`.
pub open spec fn dump_rows(data: Seq<u8>) -> Seq<Seq<char>> {
    let rows = chunks(data, ROW_LEN as int);
    Seq::new(rows.len(), |r: int| dump_row((r * ROW_LEN) as nat, rows[r]))
}

/// The dump of `data`: its rows, one after the other.
pub open spec fn dump_text(data: Seq<u8>) -> Seq<char> {
    dump_rows(data).flatten()
}

/// The one-character string that holds the hexadecimal digit of `value`.
fn hex_digit_str(value: usize) -> (digit: &'static str)
    requires
        value < 16,
    ensures
        digit@ == seq![hex_digit(value as int)],
{
    let digits = "0123456789abcdef";
    proof {
        reveal_strlit("0123456789abcdef");
    }
    digits.substring_ascii(value, value + 1)
}

/// Appends `n` in hexadecimal, in at least `width` digits.
fn push_hex(text: &mut String, n: usize, width: usize)
    ensures
        final(text)@ == old(text)@ + hex_padded(n as nat, width as nat),
    decreases n, width,
{
    if n >= 16 || width > 1 {
        push_hex(text, n / 16, if width > 0 { width - 1 } else { 0 });
    }
    text.append(hex_digit_str(n % 16));
}

/// Appends the group `data[start..end]`.
fn push_group(text: &mut String, data: &[u8], start: usize, end: usize)
    requires
        start <= end <= data@.len(),
    ensures
        final(text)@ == old(text)@ + dump_group(data@.subrange(start as int, end as int)),
{
    let ghost before = text@;
    let ghost show = |byte: u8| dump_byte(byte);
    let mut i: usize = start;
    while i < end
        invariant
            start <= i <= end <= data@.len(),
            show == |byte: u8| dump_byte(byte),
            text@ == before + data@.subrange(start as int, i as int).flat_map(show),
        decreases end - i,
    {
        let byte: u8 = data[i];
        let ghost shown = data@.subrange(start as int, i as int);
        text.append(hex_digit_str((byte / 16) as usize));
        text.append(hex_digit_str((byte % 16) as usize));
        text.append(" ");
        proof {
            reveal_strlit(" ");
            assert(data@.subrange(start as int, i + 1) =~= shown.push(byte));
            shown.lemma_push_map_commute(show, byte);
            shown.map_values(show).lemma_flatten_push(show(byte));
        }
        i += 1;
    }
    text.append(" ");
    proof {
        reveal_strlit(" ");
    }
}

/// Appends the row `data[start..end]`.
fn push_row(text: &mut String, data: &[u8], start: usize, end: usize)
    requires
        start <= end <= data@.len(),
    ensures
        final(text)@ == old(text)@ + dump_row(
            start as nat,
            data@.subrange(start as int, end as int),
        ),
{
    let ghost before = text@;
    let ghost row = data@.subrange(start as int, end as int);
    let ghost groups = chunks(row, GROUP_LEN as int);
    let ghost show = |group: Seq<u8>| dump_group(group);
    push_hex(text, start, OFFSET_WIDTH);
    text.append("  ");
    let ghost head = text@;
    let mut from: usize = start;
    // The number of groups that are written.
    let ghost mut g: int = 0;
    proof {
        reveal_strlit("  ");
    }
    while from < end
        invariant
            start <= from <= end <= data@.len(),
            row == data@.subrange(start as int, end as int),
            groups == chunks(row, GROUP_LEN as int),
            show == |group: Seq<u8>| dump_group(group),
            0 <= g <= groups.len(),
            from - start == vstd::math::min(g * GROUP_LEN, row.len() as int),
            text@ == head + groups.take(g).flat_map(show),
        decreases end - from,
    {
        let to: usize = if end - from > GROUP_LEN {
            from + GROUP_LEN
        } else {
            end
        };
        push_group(text, data, from, to);
        proof {
            assert(groups[g] =~= data@.subrange(from as int, to as int));
            assert(groups.take(g + 1) =~= groups.take(g).push(groups[g]));
            groups.take(g).lemma_push_map_commute(show, groups[g]);
            groups.take(g).map_values(show).lemma_flatten_push(show(groups[g]));
            g = g + 1;
        }
        from = to;
    }
    text.append("\n");
    proof {
        reveal_strlit("\n");
        assert(groups.take(g) =~= groups);
    }
}

/// Renders `data` as a hexadecimal dump, one line for every 16 bytes.
pub fn hexdump(data: &[u8]) -> (text: String)
    ensures
        text@ == dump_text(data@),
{
    let mut text = String::new();
    let n: usize = data.len();
    let ghost rows = dump_rows(data@);
    let mut from: usize = 0;
    // The number of rows that are written.
    let ghost mut r: int = 0;
    while from < n
        invariant
            n == data@.len(),
            from <= n,
            rows == dump_rows(data@),
            0 <= r <= rows.len(),
            from == vstd::math::min(r * ROW_LEN, n as int),
            text@ == rows.take(r).flatten(),
        decreases n - from,
    {
        let to: usize = if n - from > ROW_LEN {
            from + ROW_LEN
        } else {
            n
        };
        push_row(&mut text, data, from, to);
        proof {
            assert(rows.take(r + 1) =~= rows.take(r).push(rows[r]));
            rows.take(r).lemma_flatten_push(rows[r]);
            r = r + 1;
        }
        from = to;
    }
    proof {
        assert(rows.take(r) =~= rows);
    }
    text
}

} // verus!
