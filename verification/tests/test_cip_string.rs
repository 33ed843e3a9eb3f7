use eipscanne_rs::cip::types::{CipByte, CipRevision, CipShortString};
use eipscanne_rs::codec::CipCodec;
use eipscanne_rs::error::ErrorKind;

#[test]
fn test_serialize_cip_string() {
    let expected_byte_array: Vec<CipByte> =
        vec![0x09, 0x43, 0x6c, 0x65, 0x61, 0x72, 0x4c, 0x69, 0x6e, 0x6b];

    let cip_string = CipShortString::new(String::from("ClearLink"));

    let mut byte_array_buffer: Vec<u8> = Vec::new();
    cip_string.write(&mut byte_array_buffer);

    assert_eq!(expected_byte_array, byte_array_buffer);
}

#[test]
fn test_deserialize_cip_string() {
    let raw_bytes: Vec<CipByte> = vec![0x09, 0x43, 0x6c, 0x65, 0x61, 0x72, 0x4c, 0x69, 0x6e, 0x6b];

    let (cip_string, consumed) = CipShortString::read(&raw_bytes).unwrap();

    let expected_cip_string = CipShortString::new(String::from("ClearLink"));

    assert_eq!(expected_cip_string, cip_string);
    assert_eq!(consumed, 10);
}

#[test]
fn short_string_gives_its_text_back() {
    let cip_string = CipShortString::from(String::from("ClearLink"));
    assert_eq!(cip_string.length, 9);
    assert_eq!(cip_string.to_text(), "ClearLink");
    assert_eq!(String::from(cip_string), "ClearLink");
}

#[test]
fn short_string_replaces_what_is_no_utf8() {
    let cip_string = CipShortString { length: 3, value: vec![0x41, 0xFF, 0x42] };
    assert_eq!(cip_string.to_text(), "A\u{FFFD}B");
}

#[test]
fn short_string_keeps_at_most_255_bytes() {
    let exact = CipShortString::new("a".repeat(255));
    assert_eq!(exact.length, 255);
    assert_eq!(exact.value.len(), 255);

    let long = CipShortString::new("b".repeat(300));
    assert_eq!(long.length, 255);
    assert_eq!(long.value, vec![0x62u8; 255]);

    let mut bytes = Vec::new();
    long.write(&mut bytes);
    assert_eq!(bytes.len(), 256);
    assert_eq!(CipShortString::read(&bytes), Ok((long, 256)));
}

#[test]
fn empty_short_string_is_one_byte() {
    let empty = CipShortString::new(String::new());
    let mut bytes = Vec::new();
    empty.write(&mut bytes);
    assert_eq!(bytes, vec![0x00]);
    assert_eq!(CipShortString::read(&bytes), Ok((empty, 1)));
}

#[test]
fn short_string_that_ends_early_is_a_short_read() {
    let no_bytes: Vec<u8> = Vec::new();
    assert_eq!(CipShortString::read(&no_bytes).unwrap_err().kind, ErrorKind::ShortRead);
    let cut = vec![0x09, 0x43, 0x6c, 0x65];
    assert_eq!(CipShortString::read(&cut).unwrap_err().kind, ErrorKind::ShortRead);
}

#[test]
fn short_string_reader_leaves_what_follows() {
    let bytes = vec![0x02, 0x4f, 0x4b, 0x99, 0x98];
    let (cip_string, consumed) = CipShortString::read(&bytes).unwrap();
    assert_eq!(consumed, 3);
    assert_eq!(cip_string.to_text(), "OK");
}

#[test]
fn revision_is_two_bytes() {
    let revision = CipRevision { major_revision: 2, minor_revision: 93 };
    let mut bytes = Vec::new();
    revision.write(&mut bytes);
    assert_eq!(bytes, vec![0x02, 0x5d]);
    assert_eq!(CipRevision::read(&bytes), Ok((revision, 2)));
    assert_eq!(CipRevision::read(&bytes[..1]).unwrap_err().kind, ErrorKind::ShortRead);
}
