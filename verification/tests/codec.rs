//! End-to-end tests of the codec: round trips, error cases, attribute order,
//! and error messages.

use hid_sdp::from_sdp::{Error, PartialConfiguration};
use hid_sdp::hid::{self, ClassDescriptor, LanguageBase};
use hid_sdp::tag::Tag;
use hid_sdp::{encoding, ids, language, Configuration, LanguageCode};

fn attr(id: u16, value: Tag) -> Tag {
    Tag::Attribute(id, Box::new(value))
}

/// A configuration with every optional field present.
fn full_configuration() -> Configuration {
    Configuration {
        primary_language: language::english(),
        encoding: encoding::UTF_8,
        service_name: Some(String::from("Verified Keyboard")),
        service_description: Some(String::from("A keyboard")),
        provider_name: Some(String::from("Example")),
        version: 0x0101,
        hid: hid::Configuration {
            device_subclass: 0x40,
            country_code: 0x21,
            virtual_cable: true,
            reconnect_initiate: true,
            class_descriptors: vec![
                ClassDescriptor::report(vec![0x05, 0x01, 0x09, 0x06]),
                ClassDescriptor::physical(vec![0xaa]),
            ],
            additional_languages: vec![LanguageBase { language: 0x0407, base: 0x0110 }],
            battery_power: Some(true),
            remote_wake: Some(false),
            supervision_timeout: Some(0x0c80),
            normally_connectable: Some(false),
            boot_device: true,
            ssr_host_max_latency: Some(0x0640),
            ssr_host_min_timeout: Some(0x0320),
        },
    }
}

/// A configuration with every optional field absent.
fn minimal_configuration() -> Configuration {
    Configuration {
        primary_language: LanguageCode { iso_code: 0x656e, hid_code: 0x0409 },
        encoding: encoding::UTF_8,
        service_name: None,
        service_description: None,
        provider_name: None,
        version: 0x0100,
        hid: hid::Configuration {
            device_subclass: 0x80,
            country_code: 0,
            virtual_cable: false,
            reconnect_initiate: false,
            class_descriptors: vec![ClassDescriptor::report(vec![1, 2, 3])],
            additional_languages: vec![],
            battery_power: None,
            remote_wake: None,
            supervision_timeout: None,
            normally_connectable: None,
            boot_device: false,
            ssr_host_max_latency: None,
            ssr_host_min_timeout: None,
        },
    }
}

fn assert_round_trips(configuration: &Configuration) {
    let tree = configuration.to_sdp_tag();
    let partial = PartialConfiguration::from_sdp_tag(tree).expect("decode must succeed");
    let decoded = Configuration::try_from(partial).expect("finalize must succeed");
    assert_eq!(decoded.primary_language.iso_code, configuration.primary_language.iso_code);
    assert_eq!(decoded.primary_language.hid_code, configuration.primary_language.hid_code);
    assert_eq!(decoded.encoding, configuration.encoding);
    assert_eq!(decoded.service_name, configuration.service_name);
    assert_eq!(decoded.service_description, configuration.service_description);
    assert_eq!(decoded.provider_name, configuration.provider_name);
    assert_eq!(decoded.version, configuration.version);
    assert_eq!(decoded.hid.device_subclass, configuration.hid.device_subclass);
    assert_eq!(decoded.hid.country_code, configuration.hid.country_code);
    assert_eq!(decoded.hid.virtual_cable, configuration.hid.virtual_cable);
    assert_eq!(decoded.hid.reconnect_initiate, configuration.hid.reconnect_initiate);
    assert_eq!(decoded.hid.class_descriptors, configuration.hid.class_descriptors);
    assert_eq!(decoded.hid.additional_languages, configuration.hid.additional_languages);
    assert_eq!(decoded.hid.battery_power, configuration.hid.battery_power);
    assert_eq!(decoded.hid.remote_wake, configuration.hid.remote_wake);
    assert_eq!(decoded.hid.supervision_timeout, configuration.hid.supervision_timeout);
    assert_eq!(decoded.hid.normally_connectable, configuration.hid.normally_connectable);
    assert_eq!(decoded.hid.boot_device, configuration.hid.boot_device);
    assert_eq!(decoded.hid.ssr_host_max_latency, configuration.hid.ssr_host_max_latency);
    assert_eq!(decoded.hid.ssr_host_min_timeout, configuration.hid.ssr_host_min_timeout);
}

#[test]
fn round_trip_full() {
    assert_round_trips(&full_configuration());
}

#[test]
fn round_trip_minimal() {
    assert_round_trips(&minimal_configuration());
}

#[test]
fn encode_idempotent() {
    let c = full_configuration();
    assert_eq!(c.to_sdp_tag(), c.to_sdp_tag());
    let m = minimal_configuration();
    assert_eq!(m.to_sdp_tag(), m.to_sdp_tag());
}

/// The attributes a minimal configuration must serialize to, in the fixed,
/// protocol-mandated order.
#[test]
fn encode_exact_minimal_record() {
    let hid_uuid: u128 = 0x00001124_0000_1000_8000_00805f9b34fb;
    let l2cap_uuid: u128 = 0x00000100_0000_1000_8000_00805f9b34fb;
    let hidp_uuid: u128 = 0x00000011_0000_1000_8000_00805f9b34fb;
    let browse_uuid: u128 = 0x00001002_0000_1000_8000_00805f9b34fb;
    let expected = Tag::Record(vec![
        attr(0x0001, Tag::Sequence(vec![Tag::Uuid(hid_uuid)])),
        attr(
            0x0004,
            Tag::Sequence(vec![
                Tag::Sequence(vec![Tag::Uuid(l2cap_uuid), Tag::UInt16(0x0011)]),
                Tag::Sequence(vec![Tag::Uuid(hidp_uuid)]),
            ]),
        ),
        attr(0x0005, Tag::Sequence(vec![Tag::Uuid(browse_uuid)])),
        attr(
            0x0006,
            Tag::Sequence(vec![
                Tag::UInt16(0x656e),
                Tag::UInt16(0x006a),
                Tag::UInt16(0x0100),
            ]),
        ),
        attr(
            0x000d,
            Tag::Sequence(vec![Tag::Sequence(vec![
                Tag::Sequence(vec![Tag::Uuid(l2cap_uuid), Tag::UInt16(0x0013)]),
                Tag::Sequence(vec![Tag::Uuid(hidp_uuid)]),
            ])]),
        ),
        attr(
            0x0009,
            Tag::Sequence(vec![Tag::Sequence(vec![
                Tag::Uuid(hid_uuid),
                Tag::UInt16(0x0100),
            ])]),
        ),
        attr(0x0201, Tag::UInt16(0x0111)),
        attr(0x0202, Tag::UInt8(0x80)),
        attr(0x0203, Tag::UInt8(0)),
        attr(0x0204, Tag::Boolean(false)),
        attr(0x0205, Tag::Boolean(false)),
        attr(
            0x0206,
            Tag::Sequence(vec![Tag::Sequence(vec![
                Tag::UInt8(0x22),
                Tag::RawText(vec![1, 2, 3]),
            ])]),
        ),
        attr(
            0x0207,
            Tag::Sequence(vec![Tag::Sequence(vec![
                Tag::UInt16(0x0409),
                Tag::UInt16(0x0100),
            ])]),
        ),
        attr(0x020e, Tag::Boolean(false)),
    ]);
    assert_eq!(minimal_configuration().to_sdp_tag(), expected);
}

#[test]
fn duplicate_service_name_fails_even_with_equal_values() {
    let record = Tag::Record(vec![
        attr(ids::SERVICE_NAME, Tag::Text(String::from("Mouse"))),
        attr(ids::SERVICE_NAME, Tag::Text(String::from("Mouse"))),
    ]);
    let err = PartialConfiguration::from_sdp_tag(record).unwrap_err();
    assert_eq!(err, Error::DuplicateAttribute(0x0100, "Service Name"));
}

#[test]
fn language_base_id_list_of_length_two_fails() {
    let record = Tag::Record(vec![attr(
        ids::LANGUAGE_BASE_ATTRIBUTE_ID_LIST,
        Tag::Sequence(vec![Tag::UInt16(0x656e), Tag::UInt16(0x006a)]),
    )]);
    let err = PartialConfiguration::from_sdp_tag(record).unwrap_err();
    assert_eq!(
        err,
        Error::UnexpectedSequenceLen { attribute: 0x0006, expected: 3, actual: 2 }
    );
}

#[test]
fn language_base_id_list_of_length_four_fails() {
    let record = Tag::Record(vec![attr(
        ids::LANGUAGE_BASE_ATTRIBUTE_ID_LIST,
        Tag::Sequence(vec![
            Tag::UInt16(0x656e),
            Tag::UInt16(0x006a),
            Tag::UInt16(0x0100),
            Tag::UInt16(0x0110),
        ]),
    )]);
    let err = PartialConfiguration::from_sdp_tag(record).unwrap_err();
    assert_eq!(
        err,
        Error::UnexpectedSequenceLen { attribute: 0x0006, expected: 3, actual: 4 }
    );
}

#[test]
fn profile_descriptor_with_wrong_uuid_fails() {
    let wrong = ids::uuid_from_u16(0x1200);
    let record = Tag::Record(vec![attr(
        ids::BLUETOOTH_PROFILE_DESCRIPTOR_LIST,
        Tag::Sequence(vec![Tag::Sequence(vec![
            Tag::Uuid(wrong),
            Tag::UInt16(0x0100),
        ])]),
    )]);
    let err = PartialConfiguration::from_sdp_tag(record).unwrap_err();
    assert_eq!(
        err,
        Error::UnexpectedUuid {
            attribute: 0x0009,
            expected: ids::uuid_from_u16(0x1124),
            actual: wrong,
        }
    );
}

#[test]
fn unknown_attribute_is_ignored() {
    let mut with_unknown = match full_configuration().to_sdp_tag() {
        Tag::Record(children) => children,
        _ => unreachable!(),
    };
    with_unknown.insert(3, attr(0x9999, Tag::Boolean(true)));
    let partial = PartialConfiguration::from_sdp_tag(Tag::Record(with_unknown))
        .expect("unknown attribute must be ignored");
    let decoded = Configuration::try_from(partial).expect("finalize must succeed");
    assert_eq!(decoded.service_name, Some(String::from("Verified Keyboard")));
    assert_eq!(decoded.hid.device_subclass, 0x40);
}

fn record_without(id: u16) -> Tag {
    let children = match full_configuration().to_sdp_tag() {
        Tag::Record(children) => children,
        _ => unreachable!(),
    };
    let kept: Vec<Tag> = children
        .into_iter()
        .filter(|child| !matches!(child, Tag::Attribute(i, _) if *i == id))
        .collect();
    Tag::Record(kept)
}

#[test]
fn missing_device_subclass_is_named() {
    let partial = PartialConfiguration::from_sdp_tag(record_without(ids::HID_DEVICE_SUBCLASS))
        .expect("decode must succeed");
    let err = Configuration::try_from(partial).unwrap_err();
    assert_eq!(err, Error::MissingRecord("device subclass"));
}

#[test]
fn missing_boot_device_is_named() {
    let partial = PartialConfiguration::from_sdp_tag(record_without(ids::HID_BOOT_DEVICE))
        .expect("decode must succeed");
    let err = Configuration::try_from(partial).unwrap_err();
    assert_eq!(err, Error::MissingRecord("boot device"));
}

#[test]
fn missing_language_base_list_is_named() {
    let partial = PartialConfiguration::from_sdp_tag(record_without(ids::HID_LANG_BASE_ATTRIBUTE))
        .expect("decode must succeed");
    let err = Configuration::try_from(partial).unwrap_err();
    assert_eq!(err, Error::MissingRecord("HID language"));
}

#[test]
fn empty_draft_misses_primary_language_first() {
    let partial = PartialConfiguration::default();
    let err = Configuration::try_from(partial).unwrap_err();
    assert_eq!(err, Error::MissingRecord("primary language"));
}

#[test]
fn absent_battery_power_is_omitted_entirely() {
    let mut c = full_configuration();
    c.hid.battery_power = None;
    let children = match c.to_sdp_tag() {
        Tag::Record(children) => children,
        _ => unreachable!(),
    };
    assert!(children
        .iter()
        .all(|child| !matches!(child, Tag::Attribute(i, _) if *i == ids::HID_BATTERY_POWER)));
}

#[test]
fn present_battery_power_is_emitted() {
    let children = match full_configuration().to_sdp_tag() {
        Tag::Record(children) => children,
        _ => unreachable!(),
    };
    assert!(children
        .iter()
        .any(|child| matches!(child, Tag::Attribute(i, _) if *i == ids::HID_BATTERY_POWER)));
}

#[test]
fn top_level_must_be_a_record() {
    let err = PartialConfiguration::from_sdp_tag(Tag::UInt8(7)).unwrap_err();
    assert_eq!(err, Error::ExpectedRecord(Tag::UInt8(7)));
}

#[test]
fn record_children_must_be_attributes() {
    let record = Tag::Record(vec![
        attr(ids::SERVICE_NAME, Tag::Text(String::from("Mouse"))),
        Tag::Boolean(true),
    ]);
    let err = PartialConfiguration::from_sdp_tag(record).unwrap_err();
    assert_eq!(err, Error::ExpectedAttribute(Tag::Boolean(true)));
}

#[test]
fn non_attribute_child_is_reported_before_any_dispatch() {
    // The first pass checks every child's shape before the first attribute is
    // decoded, so the shape error wins over the type error in the attribute.
    let record = Tag::Record(vec![
        attr(ids::SERVICE_NAME, Tag::UInt8(1)),
        Tag::UInt16(2),
    ]);
    let err = PartialConfiguration::from_sdp_tag(record).unwrap_err();
    assert_eq!(err, Error::ExpectedAttribute(Tag::UInt16(2)));
}

#[test]
fn service_name_must_be_text() {
    let record = Tag::Record(vec![attr(ids::SERVICE_NAME, Tag::UInt8(5))]);
    let err = PartialConfiguration::from_sdp_tag(record).unwrap_err();
    assert_eq!(err, Error::ExpectedText(0x0100, Tag::UInt8(5)));
}

#[test]
fn boot_device_must_be_boolean() {
    let record = Tag::Record(vec![attr(ids::HID_BOOT_DEVICE, Tag::UInt16(1))]);
    let err = PartialConfiguration::from_sdp_tag(record).unwrap_err();
    assert_eq!(err, Error::ExpectedBoolean(0x020e, Tag::UInt16(1)));
}

fn decode_descriptor_record(entry: Vec<Tag>) -> Result<Configuration, Error> {
    let mut children = match minimal_configuration().to_sdp_tag() {
        Tag::Record(children) => children,
        _ => unreachable!(),
    };
    // Replace the descriptor list with the given single entry.
    children = children
        .into_iter()
        .filter(|child| !matches!(child, Tag::Attribute(i, _) if *i == ids::HID_DESCRIPTOR_LIST))
        .collect();
    children.push(attr(
        ids::HID_DESCRIPTOR_LIST,
        Tag::Sequence(vec![Tag::Sequence(entry)]),
    ));
    let partial = PartialConfiguration::from_sdp_tag(Tag::Record(children))?;
    Configuration::try_from(partial)
}

#[test]
fn descriptor_text_payload_becomes_bytes() {
    let decoded = decode_descriptor_record(vec![
        Tag::UInt8(0x22),
        Tag::Text(String::from("AB")),
    ])
    .expect("decode must succeed");
    assert_eq!(decoded.hid.class_descriptors, vec![ClassDescriptor(0x22, vec![0x41, 0x42])]);
}

#[test]
fn descriptor_payload_may_precede_its_kind() {
    let decoded = decode_descriptor_record(vec![
        Tag::RawText(vec![9, 8]),
        Tag::UInt8(0x23),
    ])
    .expect("decode must succeed");
    assert_eq!(decoded.hid.class_descriptors, vec![ClassDescriptor(0x23, vec![9, 8])]);
}

#[test]
fn descriptor_with_two_kinds_fails() {
    let err = decode_descriptor_record(vec![
        Tag::UInt8(0x22),
        Tag::UInt8(0x23),
        Tag::RawText(vec![1]),
    ])
    .unwrap_err();
    assert_eq!(err, Error::DuplicateDescriptorId);
}

#[test]
fn descriptor_with_two_payloads_fails() {
    let err = decode_descriptor_record(vec![
        Tag::UInt8(0x22),
        Tag::RawText(vec![1]),
        Tag::Text(String::from("x")),
    ])
    .unwrap_err();
    assert_eq!(err, Error::DuplicateDescriptorText);
}

#[test]
fn descriptor_with_unexpected_element_fails() {
    let err = decode_descriptor_record(vec![Tag::UInt8(0x22), Tag::Boolean(true)]).unwrap_err();
    assert_eq!(err, Error::UnexpectedTag(Tag::Boolean(true)));
}

#[test]
fn descriptor_without_kind_fails() {
    let err = decode_descriptor_record(vec![Tag::RawText(vec![1])]).unwrap_err();
    assert_eq!(err, Error::MissingRecord("descriptor id"));
}

#[test]
fn descriptor_without_payload_fails() {
    let err = decode_descriptor_record(vec![Tag::UInt8(0x22)]).unwrap_err();
    assert_eq!(err, Error::MissingRecord("descriptor value"));
}

#[test]
fn lang_base_entry_of_wrong_length_fails() {
    let record = Tag::Record(vec![attr(
        ids::HID_LANG_BASE_ATTRIBUTE,
        Tag::Sequence(vec![Tag::Sequence(vec![Tag::UInt16(0x0409)])]),
    )]);
    let err = PartialConfiguration::from_sdp_tag(record).unwrap_err();
    assert_eq!(
        err,
        Error::UnexpectedSequenceLen { attribute: 0x0207, expected: 2, actual: 1 }
    );
}

#[test]
fn class_descriptor_constructors_set_the_kind() {
    assert_eq!(ClassDescriptor::report(vec![1]), ClassDescriptor(0x22, vec![1]));
    assert_eq!(ClassDescriptor::physical(vec![2]), ClassDescriptor(0x23, vec![2]));
}

#[test]
fn well_known_constants() {
    let english = language::english();
    assert_eq!(english.iso_code, 0x656e);
    assert_eq!(english.hid_code, 0x0409);
    assert_eq!(encoding::UTF_8, 0x006a);
    assert_eq!(
        ids::uuid_from_u16(0x1124),
        0x00001124_0000_1000_8000_00805f9b34fb
    );
}

#[test]
fn language_base_id_list_third_element_is_not_type_checked() {
    // Only the first two members are read; the base offset member's tag kind
    // is never inspected.
    let mut children = match minimal_configuration().to_sdp_tag() {
        Tag::Record(children) => children,
        _ => unreachable!(),
    };
    children = children
        .into_iter()
        .filter(|child| {
            !matches!(child, Tag::Attribute(i, _) if *i == ids::LANGUAGE_BASE_ATTRIBUTE_ID_LIST)
        })
        .collect();
    children.insert(
        3,
        attr(
            ids::LANGUAGE_BASE_ATTRIBUTE_ID_LIST,
            Tag::Sequence(vec![
                Tag::UInt16(0x656e),
                Tag::UInt16(0x006a),
                Tag::Boolean(true),
            ]),
        ),
    );
    let partial =
        PartialConfiguration::from_sdp_tag(Tag::Record(children)).expect("decode must succeed");
    let decoded = Configuration::try_from(partial).expect("finalize must succeed");
    assert_eq!(decoded.primary_language.iso_code, 0x656e);
    assert_eq!(decoded.encoding, 0x006a);
}

#[test]
fn duplicate_language_base_id_list_fails() {
    let entry = || {
        attr(
            ids::LANGUAGE_BASE_ATTRIBUTE_ID_LIST,
            Tag::Sequence(vec![
                Tag::UInt16(0x656e),
                Tag::UInt16(0x006a),
                Tag::UInt16(0x0100),
            ]),
        )
    };
    let record = Tag::Record(vec![entry(), entry()]);
    let err = PartialConfiguration::from_sdp_tag(record).unwrap_err();
    assert_eq!(
        err,
        Error::DuplicateAttribute(0x0006, "Language Base Attribute ID List")
    );
}

#[test]
fn repeated_descriptor_lists_append_in_order() {
    // The descriptor list is a list attribute, not a scalar: a second
    // occurrence extends the accumulated descriptors.
    let mut children = match minimal_configuration().to_sdp_tag() {
        Tag::Record(children) => children,
        _ => unreachable!(),
    };
    children.push(attr(
        ids::HID_DESCRIPTOR_LIST,
        Tag::Sequence(vec![Tag::Sequence(vec![
            Tag::UInt8(0x23),
            Tag::RawText(vec![7]),
        ])]),
    ));
    let partial =
        PartialConfiguration::from_sdp_tag(Tag::Record(children)).expect("decode must succeed");
    let decoded = Configuration::try_from(partial).expect("finalize must succeed");
    assert_eq!(
        decoded.hid.class_descriptors,
        vec![
            ClassDescriptor(0x22, vec![1, 2, 3]),
            ClassDescriptor(0x23, vec![7]),
        ]
    );
}

#[test]
fn default_hid_configuration_is_empty() {
    let c = hid::Configuration::default();
    assert_eq!(c.device_subclass, 0);
    assert_eq!(c.country_code, 0);
    assert!(!c.virtual_cable);
    assert!(!c.reconnect_initiate);
    assert!(c.class_descriptors.is_empty());
    assert!(c.additional_languages.is_empty());
    assert_eq!(c.battery_power, None);
    assert!(!c.boot_device);
}
