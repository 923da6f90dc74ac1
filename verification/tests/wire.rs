use pixel_tracker::record::TrackingRecord;
use pixel_tracker::wire::{is_wire_of, read_record, write_record};

fn record(label: &str, target: &str) -> TrackingRecord {
    TrackingRecord::new(String::from(label), String::from(target))
}

#[test]
fn binary_form_of_a_short_record() {
    let bytes = write_record(&record("name", "webhook")).unwrap();
    assert_eq!(
        bytes,
        vec![4, b'n', b'a', b'm', b'e', 7, b'w', b'e', b'b', b'h', b'o', b'o', b'k']
    );
}

#[test]
fn binary_form_of_empty_texts() {
    assert_eq!(write_record(&record("", "")).unwrap(), vec![0, 0]);
    assert_eq!(write_record(&record("", "a")).unwrap(), vec![0, 1, b'a']);
    assert_eq!(write_record(&record("a", "")).unwrap(), vec![1, b'a', 0]);
}

#[test]
fn lengths_count_bytes_of_utf8() {
    let bytes = write_record(&record("\u{e9}", "\u{1f600}")).unwrap();
    assert_eq!(bytes, vec![2, 0xc3, 0xa9, 4, 0xf0, 0x9f, 0x98, 0x80]);
}

#[test]
fn long_lengths_take_more_bytes() {
    let label = "a".repeat(127);
    let bytes = write_record(&record(&label, "")).unwrap();
    assert_eq!(bytes[0], 127);
    assert_eq!(bytes.len(), 1 + 127 + 1);

    let label = "a".repeat(128);
    let bytes = write_record(&record(&label, "")).unwrap();
    assert_eq!(&bytes[..2], &[0x80, 0x01]);
    assert_eq!(bytes.len(), 2 + 128 + 1);

    let label = "a".repeat(200);
    let bytes = write_record(&record(&label, "")).unwrap();
    assert_eq!(&bytes[..2], &[0xc8, 0x01]);

    let label = "a".repeat(16_384);
    let bytes = write_record(&record(&label, "b")).unwrap();
    assert_eq!(&bytes[..3], &[0x80, 0x80, 0x01]);
    assert_eq!(&bytes[bytes.len() - 2..], &[1, b'b']);
}

#[test]
fn reading_record_undoes_writing() {
    let long = "z".repeat(20_000);
    let cases = [
        record("name", "webhook"),
        record("", ""),
        record("promo1", "https://example.org/notify"),
        record("\u{e9}\u{1f600}", "\u{0}\n\t"),
        record(&long, &long),
    ];
    for subject in cases {
        let bytes = write_record(&subject).unwrap();
        assert!(is_wire_of(&bytes, &subject));
        assert_eq!(read_record(&bytes), Some(subject));
    }
}

#[test]
fn reading_is_strict() {
    // nothing at all, or a label alone
    assert_eq!(read_record(&[]), None);
    assert_eq!(read_record(&[0]), None);
    assert_eq!(read_record(&[1, b'a']), None);
    // a text shorter than its length says
    assert_eq!(read_record(&[2, b'a', 0]), None);
    assert_eq!(read_record(&[1, b'a', 3, b'b', b'c']), None);
    // bytes left over
    assert_eq!(read_record(&[1, b'a', 1, b'b', 0]), None);
    assert_eq!(read_record(&[0, 0, 0]), None);
    // a length written with more bytes than it needs
    assert_eq!(read_record(&[0x81, 0x00, b'a', 0]), None);
    assert_eq!(read_record(&[1, b'a', 0x80, 0x00]), None);
    // a length that never ends
    assert_eq!(read_record(&[0xff; 12]), None);
    // text that is not UTF-8
    assert_eq!(read_record(&[1, 0xff, 0]), None);
    assert_eq!(read_record(&[0, 2, 0xc3, 0x28]), None);
    // and the strict forms of the same
    assert_eq!(read_record(&[1, b'a', 1, b'b']), Some(record("a", "b")));
    assert_eq!(read_record(&[0, 0]), Some(record("", "")));
}

#[test]
fn bytes_of_another_record_are_not_this_one() {
    let subject = record("name", "webhook");
    let bytes = write_record(&subject).unwrap();
    assert!(is_wire_of(&bytes, &subject));
    assert!(!is_wire_of(&bytes, &record("name", "webhooks")));
    assert!(!is_wire_of(&bytes, &record("nam", "ewebhook")));
    assert!(!is_wire_of(&bytes, &record("webhook", "name")));
    assert!(!is_wire_of(&bytes[..bytes.len() - 1], &subject));
    let mut longer = bytes.clone();
    longer.push(0);
    assert!(!is_wire_of(&longer, &subject));
    assert!(!is_wire_of(&[], &subject));
    assert!(is_wire_of(&[0, 0], &record("", "")));
}
