use dns_query::hexdump::{hexdump, GROUP_LEN, ROW_LEN};
use dns_query::query::build_query;

/// The dump written with the formatting machinery of the standard library.
fn std_dump(data: &[u8]) -> String {
    let mut text = String::new();
    for (i, row) in data.chunks(16).enumerate() {
        text.push_str(&format!("{:04x}  ", i * 16));
        for group in row.chunks(8) {
            for byte in group {
                text.push_str(&format!("{:02x} ", byte));
            }
            text.push(' ');
        }
        text.push('\n');
    }
    text
}

#[test]
fn row_and_group_sizes() {
    assert_eq!(ROW_LEN, 16);
    assert_eq!(GROUP_LEN, 8);
}

#[test]
fn dump_of_nothing_is_empty() {
    assert_eq!(hexdump(&[]), "");
}

#[test]
fn dump_of_one_byte() {
    assert_eq!(hexdump(&[0xab]), "0000  ab  \n");
    assert_eq!(hexdump(&[0x00]), "0000  00  \n");
    assert_eq!(hexdump(&[0x0f]), "0000  0f  \n");
    assert_eq!(hexdump(&[0xf0]), "0000  f0  \n");
}

#[test]
fn dump_of_a_full_group() {
    assert_eq!(hexdump(&[1, 2, 3, 4, 5, 6, 7, 8]), "0000  01 02 03 04 05 06 07 08  \n");
}

#[test]
fn dump_of_a_group_and_a_byte() {
    assert_eq!(hexdump(&[1, 2, 3, 4, 5, 6, 7, 8, 9]), "0000  01 02 03 04 05 06 07 08  09  \n");
}

#[test]
fn dump_of_a_full_row() {
    let data: Vec<u8> = (0..16).collect();
    assert_eq!(hexdump(&data), "0000  00 01 02 03 04 05 06 07  08 09 0a 0b 0c 0d 0e 0f  \n");
}

#[test]
fn dump_of_a_row_and_a_byte() {
    let data: Vec<u8> = (0..17).collect();
    assert_eq!(
        hexdump(&data),
        "0000  00 01 02 03 04 05 06 07  08 09 0a 0b 0c 0d 0e 0f  \n0010  10  \n"
    );
}

#[test]
fn dump_of_a_request() {
    let request = build_query("www.google.com", 0x1234).unwrap();
    assert_eq!(
        hexdump(&request),
        "0000  12 34 01 00 00 01 00 00  00 00 00 00 03 77 77 77  \n\
         0010  06 67 6f 6f 67 6c 65 03  63 6f 6d 00 00 01 00 01  \n"
    );
}

#[test]
fn dump_agrees_with_std_formatting_for_every_length_up_to_100() {
    let data: Vec<u8> = (0..100u32).map(|i| (i * 37 % 256) as u8).collect();
    for len in 0..=data.len() {
        assert_eq!(hexdump(&data[..len]), std_dump(&data[..len]), "length {}", len);
    }
}

#[test]
fn dump_shows_every_byte_value() {
    let data: Vec<u8> = (0..=255).collect();
    let text = hexdump(&data);
    assert_eq!(text, std_dump(&data));
    assert_eq!(text.lines().count(), 16);
    assert!(text.starts_with("0000  00 01 "));
    assert!(text.ends_with("00f0  f0 f1 f2 f3 f4 f5 f6 f7  f8 f9 fa fb fc fd fe ff  \n"));
}

#[test]
fn offsets_grow_past_four_digits() {
    let data = vec![0u8; 0x10000 + 1];
    let text = hexdump(&data);
    let lines: Vec<&str> = text.lines().collect();
    assert_eq!(lines.len(), 0x1000 + 1);
    assert_eq!(lines[0], "0000  00 00 00 00 00 00 00 00  00 00 00 00 00 00 00 00  ");
    assert_eq!(lines[0x0fff], "fff0  00 00 00 00 00 00 00 00  00 00 00 00 00 00 00 00  ");
    assert_eq!(lines[0x1000], "10000  00  ");
    assert_eq!(text, std_dump(&data));
}
