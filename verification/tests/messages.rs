//! Tests of the human-readable error messages, including the hexadecimal,
//! decimal and UUID rendering, checked against the uuid crate.

use hid_sdp::from_sdp::Error;
use hid_sdp::ids;
use hid_sdp::tag::Tag;

#[test]
fn duplicate_attribute_message() {
    let err = Error::DuplicateAttribute(0x0100, "Service Name");
    assert_eq!(err.message(), "duplicate attribute Service Name (0x0100)");
}

#[test]
fn sequence_length_message() {
    let err = Error::UnexpectedSequenceLen { attribute: 0x0006, expected: 3, actual: 12 };
    assert_eq!(
        err.message(),
        "in attribute 0x0006: expected sequence of length 3, received sequence of length 12"
    );
}

#[test]
fn expected_record_message() {
    let err = Error::ExpectedRecord(Tag::Boolean(true));
    assert_eq!(err.message(), "expected record, received boolean");
}

#[test]
fn expected_text_message() {
    let err = Error::ExpectedText(0x0102, Tag::RawText(vec![1]));
    assert_eq!(err.message(), "in attribute 0x0102: expected text, received raw text");
}

#[test]
fn missing_record_message() {
    let err = Error::MissingRecord("boot device");
    assert_eq!(err.message(), "missing record boot device");
}

#[test]
fn duplicate_descriptor_messages() {
    assert_eq!(Error::DuplicateDescriptorId.message(), "unexpected duplicate descriptor ID");
    assert_eq!(
        Error::DuplicateDescriptorText.message(),
        "unexpected duplicate descriptor text"
    );
    assert_eq!(
        Error::DuplicateValue(0x0206).message(),
        "in attribute 0x0206: unexpected duplicate value"
    );
}

#[test]
fn unexpected_tag_message() {
    let err = Error::UnexpectedTag(Tag::Uuid(0));
    assert_eq!(err.message(), "unexpected tag uuid");
}

#[test]
fn uuid_mismatch_message_renders_canonical_uuids() {
    let expected = ids::uuid_from_u16(0x1124);
    let actual = ids::uuid_from_u16(0x1200);
    let err = Error::UnexpectedUuid { attribute: 0x0009, expected, actual };
    assert_eq!(
        err.message(),
        "in attribute 0x0009: expected uuid 00001124-0000-1000-8000-00805f9b34fb, \
         received 00001200-0000-1000-8000-00805f9b34fb"
    );
}

#[test]
fn uuid_rendering_matches_the_uuid_crate() {
    let values: Vec<u128> = vec![
        ids::uuid_from_u16(0x1124),
        0,
        u128::MAX,
        0x0123_4567_89ab_cdef_0123_4567_89ab_cdef,
    ];
    for value in values {
        let err = Error::UnexpectedUuid { attribute: 0, expected: value, actual: value };
        let rendered = err.message();
        let reference = uuid::Uuid::from_u128(value).hyphenated().to_string();
        let expected_message = format!(
            "in attribute 0x0000: expected uuid {}, received {}",
            reference, reference
        );
        assert_eq!(rendered, expected_message);
    }
}
