use dns_query::name::{encode_question_name, EncodingError};
use dns_query::query::{build_query, build_random_query, TRANSACTION_ID_BOUND};

fn expected_len(name: &str) -> usize {
    let labels: usize = name.split('.').filter(|l| !l.is_empty()).map(|l| 1 + l.len()).sum();
    12 + labels + 1 + 4
}

#[test]
fn example_com_end_to_end() {
    let request = build_query("example.com", 0x1234).unwrap();
    assert_eq!(&request[0..2], &[0x12, 0x34]);
    assert_eq!(&request[2..4], &[0x01, 0x00]);
    assert_eq!(&request[4..12], &[0x00, 0x01, 0x00, 0x00, 0x00, 0x00, 0x00, 0x00]);
    assert_eq!(
        &request[12..25],
        &[7, b'e', b'x', b'a', b'm', b'p', b'l', b'e', 3, b'c', b'o', b'm', 0]
    );
    assert_eq!(&request[25..], &[0x00, 0x01, 0x00, 0x01]);
    assert_eq!(request.len(), 29);
}

#[test]
fn www_google_com_question_section() {
    let request = build_query("www.google.com", 0).unwrap();
    assert_eq!(
        &request[12..],
        &[
            3, b'w', b'w', b'w', 6, b'g', b'o', b'o', b'g', b'l', b'e', 3, b'c', b'o', b'm', 0,
            0x00, 0x01, 0x00, 0x01
        ]
    );
}

#[test]
fn whole_request_byte_for_byte() {
    assert_eq!(
        build_query("a.bc", 0xabcd),
        Ok(vec![
            0xab, 0xcd, 0x01, 0x00, 0x00, 0x01, 0x00, 0x00, 0x00, 0x00, 0x00, 0x00, 1, b'a', 2,
            b'b', b'c', 0, 0x00, 0x01, 0x00, 0x01
        ])
    );
}

#[test]
fn request_length_is_header_labels_terminator_and_question_tail() {
    for name in [
        "",
        ".",
        "a",
        "example.com",
        "www.google.com",
        "www.google.com.",
        "a..b",
        "one.two.three.four.five",
        "bücher.de",
    ] {
        let request = build_query(name, 1).unwrap();
        assert_eq!(request.len(), expected_len(name), "{:?}", name);
    }
    assert_eq!(build_query("", 1).unwrap().len(), 17);
    assert_eq!(build_query("example.com", 1).unwrap().len(), 29);
    assert_eq!(build_query("www.google.com", 1).unwrap().len(), 32);
    let longest = vec!["x".repeat(63); 4].join(".");
    assert_eq!(build_query(&longest, 1).unwrap().len(), 12 + 4 * 64 + 1 + 4);
}

#[test]
fn transaction_id_is_big_endian_for_every_value() {
    for id in 0..=u16::MAX {
        let request = build_query("example.com", id).unwrap();
        assert_eq!(request[0], (id >> 8) as u8);
        assert_eq!(request[1], (id & 0xff) as u8);
        assert_eq!(u16::from_be_bytes([request[0], request[1]]), id);
    }
}

#[test]
fn only_the_id_depends_on_the_id() {
    let first = build_query("example.com", 0x0000).unwrap();
    let second = build_query("example.com", 0xffff).unwrap();
    assert_eq!(&first[2..], &second[2..]);
    assert_eq!(&first[..2], &[0x00, 0x00]);
    assert_eq!(&second[..2], &[0xff, 0xff]);
}

#[test]
fn flags_are_recursion_desired_alone_whatever_the_name() {
    for name in ["", "a", "example.com", "www.google.com", "x.y.z.", "bücher.de"] {
        for id in [0u16, 1, 0x0100, 0x1234, 0xffff] {
            let request = build_query(name, id).unwrap();
            assert_eq!(u16::from_be_bytes([request[2], request[3]]), 0x0100);
            assert_eq!(&request[2..4], &[0x01, 0x00]);
        }
    }
}

#[test]
fn counts_are_one_question_and_nothing_else() {
    for name in ["", "a", "example.com", "www.google.com", "x.y.z."] {
        for id in [0u16, 0x00ff, 0xff00, 0xffff] {
            let request = build_query(name, id).unwrap();
            assert_eq!(&request[4..6], &[0x00, 0x01]);
            assert_eq!(&request[6..8], &[0x00, 0x00]);
            assert_eq!(&request[8..10], &[0x00, 0x00]);
            assert_eq!(&request[10..12], &[0x00, 0x00]);
        }
    }
}

#[test]
fn question_ends_with_type_a_and_class_in() {
    for name in ["", "a", "example.com", "www.google.com"] {
        let request = build_query(name, 99).unwrap();
        assert_eq!(&request[request.len() - 4..], &[0x00, 0x01, 0x00, 0x01]);
    }
}

#[test]
fn name_portion_is_the_encoded_name() {
    for name in ["", "a", "example.com", "www.google.com", "a..b.", "bücher.de"] {
        let request = build_query(name, 5).unwrap();
        let encoded = encode_question_name(name).unwrap();
        assert_eq!(&request[12..request.len() - 4], &encoded[..]);
    }
}

#[test]
fn empty_name_gives_a_lone_zero_byte_for_the_name() {
    assert_eq!(
        build_query("", 0x0102),
        Ok(vec![
            0x01, 0x02, 0x01, 0x00, 0x00, 0x01, 0x00, 0x00, 0x00, 0x00, 0x00, 0x00, 0, 0x00, 0x01,
            0x00, 0x01
        ])
    );
    assert_eq!(build_query("...", 0x0102), build_query("", 0x0102));
}

#[test]
fn label_of_64_bytes_is_refused() {
    let name = format!("{}.com", "a".repeat(64));
    assert_eq!(
        build_query(&name, 7),
        Err(EncodingError::LabelTooLong { index: 0, length: 64 })
    );
    let name = format!("www.{}", "a".repeat(64));
    assert_eq!(
        build_query(&name, 7),
        Err(EncodingError::LabelTooLong { index: 1, length: 64 })
    );
}

#[test]
fn label_of_63_bytes_is_built() {
    let name = format!("{}.com", "a".repeat(63));
    let request = build_query(&name, 7).unwrap();
    assert_eq!(request[12], 63);
    assert_eq!(&request[13..76], "a".repeat(63).as_bytes());
    assert_eq!(&request[76..], &[3, b'c', b'o', b'm', 0, 0, 1, 0, 1]);
}

#[test]
fn longer_labels_are_refused_too() {
    for length in [65usize, 100, 255, 256, 257, 300, 1000] {
        let name = format!("www.{}.com", "a".repeat(length));
        assert_eq!(
            build_query(&name, 7),
            Err(EncodingError::LabelTooLong { index: 1, length })
        );
    }
}

#[test]
fn building_agrees_with_encoding_on_failure() {
    let name = format!("a.{}.b.{}", "q".repeat(90), "r".repeat(64));
    assert_eq!(build_query(&name, 1).unwrap_err(), encode_question_name(&name).unwrap_err());
}

#[test]
fn random_query_is_the_query_for_the_id_it_carries() {
    assert_eq!(TRANSACTION_ID_BOUND, 63335);
    for name in ["", "example.com", "www.google.com", "a..b."] {
        for _ in 0..200 {
            let request = build_random_query(name).unwrap();
            let id = u16::from_be_bytes([request[0], request[1]]);
            assert!(id < TRANSACTION_ID_BOUND);
            assert_eq!(request, build_query(name, id).unwrap());
        }
    }
}

#[test]
fn random_queries_do_not_all_carry_the_same_id() {
    let first = build_random_query("example.com").unwrap();
    let mut differs = false;
    for _ in 0..64 {
        let next = build_random_query("example.com").unwrap();
        assert_eq!(&next[2..], &first[2..]);
        if next[..2] != first[..2] {
            differs = true;
        }
    }
    assert!(differs);
}

#[test]
fn random_query_refuses_what_build_query_refuses() {
    let name = format!("www.{}.com", "a".repeat(64));
    assert_eq!(
        build_random_query(&name),
        Err(EncodingError::LabelTooLong { index: 1, length: 64 })
    );
    assert_eq!(build_random_query(&name), build_query(&name, 0));
}
