use dns_loadgen::codec::{build_query, check_labels, encodable, RecordType};

#[test]
fn record_type_parse_knows_a_and_aaaa() {
    assert_eq!(RecordType::parse("A"), Some(RecordType::A));
    assert_eq!(RecordType::parse("AAAA"), Some(RecordType::AAAA));
}

#[test]
fn record_type_parse_refuses_anything_else() {
    assert_eq!(RecordType::parse(""), None);
    assert_eq!(RecordType::parse("a"), None);
    assert_eq!(RecordType::parse("aaaa"), None);
    assert_eq!(RecordType::parse("AA"), None);
    assert_eq!(RecordType::parse("AAA"), None);
    assert_eq!(RecordType::parse("AAAAA"), None);
    assert_eq!(RecordType::parse("AAAB"), None);
    assert_eq!(RecordType::parse("MX"), None);
    assert_eq!(RecordType::parse(" A"), None);
}

#[test]
fn query_for_example_com_a() {
    let packet = build_query(1573, "example.com", RecordType::A).unwrap();
    let expected: &[u8] =
        b"\x06\x25\x01\x00\x00\x01\x00\x00\x00\x00\x00\x00\x07example\x03com\x00\x00\x01\x00\x01";
    assert_eq!(&packet[..], expected);
}

#[test]
fn query_for_example_com_aaaa() {
    let packet = build_query(0xBEEF, "example.com", RecordType::AAAA).unwrap();
    let expected: &[u8] =
        b"\xBE\xEF\x01\x00\x00\x01\x00\x00\x00\x00\x00\x00\x07example\x03com\x00\x00\x1C\x00\x01";
    assert_eq!(&packet[..], expected);
}

#[test]
fn query_carries_the_id_high_byte_first() {
    let packet = build_query(0x0102, "a.b", RecordType::A).unwrap();
    assert_eq!(packet[0], 0x01);
    assert_eq!(packet[1], 0x02);
    let packet = build_query(0, "a.b", RecordType::A).unwrap();
    assert_eq!(&packet[..2], &[0u8, 0u8]);
    let packet = build_query(65535, "a.b", RecordType::A).unwrap();
    assert_eq!(&packet[..2], &[255u8, 255u8]);
}

#[test]
fn query_class_is_plain_in() {
    let packet = build_query(9, "example.org", RecordType::A).unwrap();
    let n = packet.len();
    assert_eq!(&packet[n - 2..], &[0u8, 1u8]);
}

#[test]
fn query_is_eighteen_bytes_longer_than_the_name() {
    for name in ["a", "example.com", "www.example.co.uk", "x.y.z"] {
        let packet = build_query(1, name, RecordType::A).unwrap();
        assert_eq!(packet.len(), name.len() + 18);
    }
}

#[test]
fn query_keeps_empty_labels() {
    let packet = build_query(1, "a.", RecordType::A).unwrap();
    assert_eq!(&packet[12..], &[1u8, b'a', 0, 0, 0, 1, 0, 1]);
    let packet = build_query(1, "", RecordType::A).unwrap();
    assert_eq!(&packet[12..], &[0u8, 0, 0, 1, 0, 1]);
    let packet = build_query(1, "a..b", RecordType::A).unwrap();
    assert_eq!(&packet[12..], &[1u8, b'a', 0, 1, b'b', 0, 0, 1, 0, 1]);
}

#[test]
fn query_counts_label_length_in_bytes() {
    let name = "b\u{fc}cher.example";
    let packet = build_query(1, name, RecordType::A).unwrap();
    assert_eq!(packet[12], 7);
    assert_eq!(&packet[13..20], "b\u{fc}cher".as_bytes());
    assert_eq!(packet[20], 7);
}

#[test]
fn label_of_62_bytes_fits() {
    let name = format!("{}.com", "a".repeat(62));
    assert!(check_labels(name.as_bytes()));
    assert!(encodable(&name));
    let packet = build_query(1, &name, RecordType::A).unwrap();
    assert_eq!(packet[12], 62);
}

#[test]
fn label_of_63_bytes_does_not_fit() {
    let name = format!("{}.com", "a".repeat(63));
    assert!(!check_labels(name.as_bytes()));
    assert!(!encodable(&name));
    assert_eq!(build_query(1, &name, RecordType::A), None);
    let name = format!("www.{}", "a".repeat(63));
    assert!(!check_labels(name.as_bytes()));
    assert_eq!(build_query(1, &name, RecordType::A), None);
    let name = format!("www.{}.com", "a".repeat(80));
    assert!(!check_labels(name.as_bytes()));
}

#[test]
fn label_length_counts_bytes_not_characters() {
    let label = "\u{fc}".repeat(32);
    assert_eq!(label.len(), 64);
    assert!(!check_labels(label.as_bytes()));
    let label = "\u{fc}".repeat(31);
    assert!(check_labels(label.as_bytes()));
}

#[test]
fn check_labels_on_dots_only() {
    assert!(check_labels(b""));
    assert!(check_labels(b"."));
    assert!(check_labels(b"..."));
}

fn name_of_len(n: usize) -> String {
    let mut name = String::new();
    while name.len() < n {
        if name.len() % 50 == 49 {
            name.push('.');
        } else {
            name.push('a');
        }
    }
    name
}

#[test]
fn query_of_512_bytes_is_built() {
    let name = name_of_len(494);
    assert!(encodable(&name));
    let packet = build_query(7, &name, RecordType::A).unwrap();
    assert_eq!(packet.len(), 512);
}

#[test]
fn query_of_513_bytes_is_not_built() {
    let name = name_of_len(495);
    assert!(check_labels(name.as_bytes()));
    assert!(!encodable(&name));
    assert_eq!(build_query(7, &name, RecordType::A), None);
}
