//! The decode path: from a record tag tree to a draft configuration, and from
//! a draft to a validated [`Configuration`].
//!
//! Decoding is one linear pass over the record's attributes, dispatching on
//! each 16-bit attribute id. Unknown ids are ignored — a deliberate
//! forward-compatibility policy. The first error aborts the whole call.

use vstd::prelude::*;
use vstd::utf8::encode_utf8;

use crate::hid::{ClassDescriptor, ClassDescriptorV, LanguageBase};
use crate::ids;
use crate::tag::{spec_tag_name, tag_seq_view, tag_view, Tag, TagV};
use crate::text::{dec_of, decimal, hex4, hex4_of, uuid_of, uuid_string};
use crate::{Configuration, ConfigurationV, LanguageCode};

verus! {

broadcast use
    crate::tag::lemma_tag_seq_view,
    crate::tag::lemma_byte_vec_deep_view,
    vstd::seq_lib::group_seq_properties;

/// Mathematical model of an [`Error`].
#[verifier::ext_equal]
pub enum ErrorV {
    /// The top-level tag was not a record.
    ExpectedRecord(TagV),
    /// A child of the record was not an attribute.
    ExpectedAttribute(TagV),
    /// The named attribute's value was not a sequence.
    ExpectedSequence(u16, TagV),
    /// The named attribute's value was not a boolean.
    ExpectedBoolean(u16, TagV),
    /// The named attribute's value was not an 8-bit integer.
    ExpectedUInt8(u16, TagV),
    /// The named attribute's value was not a 16-bit integer.
    ExpectedUInt16(u16, TagV),
    /// The named attribute's value was not text.
    ExpectedText(u16, TagV),
    /// The named attribute's value was not a UUID.
    ExpectedUuid(u16, TagV),
    /// A sequence in the named attribute had the wrong length.
    UnexpectedSequenceLen { attribute: u16, expected: nat, actual: nat },
    /// A UUID in the named attribute had the wrong value.
    UnexpectedUuid { attribute: u16, expected: u128, actual: u128 },
    /// A value inside the named attribute occurred twice.
    DuplicateValue(u16),
    /// The named scalar attribute occurred twice.
    DuplicateAttribute(u16, Seq<char>),
    /// A class descriptor entry held two kind bytes.
    DuplicateDescriptorId,
    /// A class descriptor entry held two payloads.
    DuplicateDescriptorText,
    /// A required part of the record was missing.
    MissingRecord(Seq<char>),
    /// A tag of an unexpected kind stood inside a descriptor entry.
    UnexpectedTag(TagV),
}

/// Error type for reading configurations.
#[derive(Debug, PartialEq)]
pub enum Error {
    /// The top-level tag was not a record.
    ExpectedRecord(Tag),
    /// A child of the record was not an attribute.
    ExpectedAttribute(Tag),
    /// The named attribute's value was not a sequence.
    ExpectedSequence(u16, Tag),
    /// The named attribute's value was not a boolean.
    ExpectedBoolean(u16, Tag),
    /// The named attribute's value was not an 8-bit integer.
    ExpectedUInt8(u16, Tag),
    /// The named attribute's value was not a 16-bit integer.
    ExpectedUInt16(u16, Tag),
    /// The named attribute's value was not text.
    ExpectedText(u16, Tag),
    /// The named attribute's value was not a UUID.
    ExpectedUuid(u16, Tag),
    /// A sequence in the named attribute had the wrong length.
    UnexpectedSequenceLen { attribute: u16, expected: usize, actual: usize },
    /// A UUID in the named attribute had the wrong value.
    UnexpectedUuid { attribute: u16, expected: u128, actual: u128 },
    /// A value inside the named attribute occurred twice.
    DuplicateValue(u16),
    /// The named scalar attribute occurred twice.
    DuplicateAttribute(u16, &'static str),
    /// A class descriptor entry held two kind bytes.
    DuplicateDescriptorId,
    /// A class descriptor entry held two payloads.
    DuplicateDescriptorText,
    /// A required part of the record was missing.
    MissingRecord(&'static str),
    /// A tag of an unexpected kind stood inside a descriptor entry.
    UnexpectedTag(Tag),
}

impl View for Error {
    type V = ErrorV;

    open spec fn view(&self) -> ErrorV {
        match self {
            Error::ExpectedRecord(t) => ErrorV::ExpectedRecord(tag_view(*t)),
            Error::ExpectedAttribute(t) => ErrorV::ExpectedAttribute(tag_view(*t)),
            Error::ExpectedSequence(a, t) => ErrorV::ExpectedSequence(*a, tag_view(*t)),
            Error::ExpectedBoolean(a, t) => ErrorV::ExpectedBoolean(*a, tag_view(*t)),
            Error::ExpectedUInt8(a, t) => ErrorV::ExpectedUInt8(*a, tag_view(*t)),
            Error::ExpectedUInt16(a, t) => ErrorV::ExpectedUInt16(*a, tag_view(*t)),
            Error::ExpectedText(a, t) => ErrorV::ExpectedText(*a, tag_view(*t)),
            Error::ExpectedUuid(a, t) => ErrorV::ExpectedUuid(*a, tag_view(*t)),
            Error::UnexpectedSequenceLen { attribute, expected, actual } => {
                ErrorV::UnexpectedSequenceLen {
                    attribute: *attribute,
                    expected: *expected as nat,
                    actual: *actual as nat,
                }
            },
            Error::UnexpectedUuid { attribute, expected, actual } => {
                ErrorV::UnexpectedUuid {
                    attribute: *attribute,
                    expected: *expected,
                    actual: *actual,
                }
            },
            Error::DuplicateValue(a) => ErrorV::DuplicateValue(*a),
            Error::DuplicateAttribute(a, name) => ErrorV::DuplicateAttribute(*a, name@),
            Error::DuplicateDescriptorId => ErrorV::DuplicateDescriptorId,
            Error::DuplicateDescriptorText => ErrorV::DuplicateDescriptorText,
            Error::MissingRecord(name) => ErrorV::MissingRecord(name@),
            Error::UnexpectedTag(t) => ErrorV::UnexpectedTag(tag_view(*t)),
        }
    }
}

/// What matching a tag as a boolean yields.
pub open spec fn spec_expect_boolean(attribute: u16, t: TagV) -> Result<bool, ErrorV> {
    match t {
        TagV::Boolean(value) => Ok(value),
        _ => Err(ErrorV::ExpectedBoolean(attribute, t)),
    }
}

/// Match the given tag as a boolean, or return an error.
fn expect_boolean(attribute: u16, tag: Tag) -> (r: Result<bool, Error>)
    ensures
        match r {
            Ok(v) => spec_expect_boolean(attribute, tag_view(tag)) == Ok::<bool, ErrorV>(v),
            Err(e) => spec_expect_boolean(attribute, tag_view(tag)) == Err::<bool, ErrorV>(e@),
        },
{
    match tag {
        Tag::Boolean(value) => Ok(value),
        _ => Err(Error::ExpectedBoolean(attribute, tag)),
    }
}

/// What matching a tag as an 8-bit integer yields.
pub open spec fn spec_expect_uint8(attribute: u16, t: TagV) -> Result<u8, ErrorV> {
    match t {
        TagV::UInt8(value) => Ok(value),
        _ => Err(ErrorV::ExpectedUInt8(attribute, t)),
    }
}

/// Match the given tag as a UInt8, or return an error.
fn expect_uint8(attribute: u16, tag: Tag) -> (r: Result<u8, Error>)
    ensures
        match r {
            Ok(v) => spec_expect_uint8(attribute, tag_view(tag)) == Ok::<u8, ErrorV>(v),
            Err(e) => spec_expect_uint8(attribute, tag_view(tag)) == Err::<u8, ErrorV>(e@),
        },
{
    match tag {
        Tag::UInt8(value) => Ok(value),
        _ => Err(Error::ExpectedUInt8(attribute, tag)),
    }
}

/// What matching a tag as a 16-bit integer yields.
pub open spec fn spec_expect_uint16(attribute: u16, t: TagV) -> Result<u16, ErrorV> {
    match t {
        TagV::UInt16(value) => Ok(value),
        _ => Err(ErrorV::ExpectedUInt16(attribute, t)),
    }
}

/// Match the given tag as a UInt16, or return an error.
fn expect_uint16(attribute: u16, tag: Tag) -> (r: Result<u16, Error>)
    ensures
        match r {
            Ok(v) => spec_expect_uint16(attribute, tag_view(tag)) == Ok::<u16, ErrorV>(v),
            Err(e) => spec_expect_uint16(attribute, tag_view(tag)) == Err::<u16, ErrorV>(e@),
        },
{
    match tag {
        Tag::UInt16(value) => Ok(value),
        _ => Err(Error::ExpectedUInt16(attribute, tag)),
    }
}

/// What matching a tag as text yields.
pub open spec fn spec_expect_text(attribute: u16, t: TagV) -> Result<Seq<char>, ErrorV> {
    match t {
        TagV::Text(value) => Ok(value),
        _ => Err(ErrorV::ExpectedText(attribute, t)),
    }
}

/// Match the given tag as text, or return an error.
fn expect_text(attribute: u16, tag: Tag) -> (r: Result<String, Error>)
    ensures
        match r {
            Ok(v) => spec_expect_text(attribute, tag_view(tag)) == Ok::<Seq<char>, ErrorV>(v@),
            Err(e) => spec_expect_text(attribute, tag_view(tag)) == Err::<Seq<char>, ErrorV>(e@),
        },
{
    match tag {
        Tag::Text(value) => Ok(value),
        _ => Err(Error::ExpectedText(attribute, tag)),
    }
}

/// What matching a tag as a sequence yields: the sequence's children.
pub open spec fn spec_expect_sequence(attribute: u16, t: TagV) -> Result<Seq<TagV>, ErrorV> {
    match t {
        TagV::Sequence(children) => Ok(children),
        _ => Err(ErrorV::ExpectedSequence(attribute, t)),
    }
}

/// Match the given tag as a sequence, or return an error.
fn expect_sequence(attribute: u16, tag: Tag) -> (r: Result<Vec<Tag>, Error>)
    ensures
        match r {
            Ok(v) => spec_expect_sequence(attribute, tag_view(tag)) == Ok::<Seq<TagV>, ErrorV>(
                tag_seq_view(v@),
            ),
            Err(e) => spec_expect_sequence(attribute, tag_view(tag)) == Err::<Seq<TagV>, ErrorV>(
                e@,
            ),
        },
{
    match tag {
        Tag::Sequence(children) => Ok(children),
        _ => Err(Error::ExpectedSequence(attribute, tag)),
    }
}

/// What checking a sequence length yields.
pub open spec fn spec_expect_len(attribute: u16, actual: nat, expected: nat) -> Result<
    (),
    ErrorV,
> {
    if actual != expected {
        Err(ErrorV::UnexpectedSequenceLen { attribute, expected, actual })
    } else {
        Ok(())
    }
}

/// Return an error if the sequence does not have the given length.
fn expect_len(attribute: u16, sequence: &Vec<Tag>, len: usize) -> (r: Result<(), Error>)
    ensures
        match r {
            Ok(()) => spec_expect_len(attribute, sequence@.len(), len as nat) == Ok::<(), ErrorV>(
                (),
            ),
            Err(e) => spec_expect_len(attribute, sequence@.len(), len as nat) == Err::<(), ErrorV>(
                e@,
            ),
        },
{
    if sequence.len() != len {
        Err(Error::UnexpectedSequenceLen { attribute, expected: len, actual: sequence.len() })
    } else {
        Ok(())
    }
}

/// What matching a tag as one fixed UUID yields.
pub open spec fn spec_expect_uuid(attribute: u16, t: TagV, expected: u128) -> Result<(), ErrorV> {
    match t {
        TagV::Uuid(actual) => {
            if expected == actual {
                Ok(())
            } else {
                Err(ErrorV::UnexpectedUuid { attribute, expected, actual })
            }
        },
        _ => Err(ErrorV::ExpectedUuid(attribute, t)),
    }
}

/// Match the given tag as the given UUID, or return an error.
fn expect_uuid(attribute: u16, tag: Tag, expected: u128) -> (r: Result<(), Error>)
    ensures
        match r {
            Ok(()) => spec_expect_uuid(attribute, tag_view(tag), expected) == Ok::<(), ErrorV>(()),
            Err(e) => spec_expect_uuid(attribute, tag_view(tag), expected) == Err::<(), ErrorV>(
                e@,
            ),
        },
{
    match tag {
        Tag::Uuid(actual) => {
            if expected == actual {
                Ok(())
            } else {
                Err(Error::UnexpectedUuid { attribute, expected, actual })
            }
        },
        _ => Err(Error::ExpectedUuid(attribute, tag)),
    }
}

/// Initialize the given attribute with the given value, if the attribute has
/// no prior value. If the attribute is already initialized, return an error
/// using the given attribute id and name.
fn try_initialize_attribute<T>(
    attribute: &mut Option<T>,
    value: T,
    attribute_id: u16,
    attribute_name: &'static str,
) -> (r: Result<(), Error>)
    ensures
        match r {
            Ok(()) => (*old(attribute)) is None && *final(attribute) == Some(value),
            Err(e) => (*old(attribute)) is Some && *final(attribute) == *old(attribute) && e@
                == ErrorV::DuplicateAttribute(attribute_id, attribute_name@),
        },
{
    if attribute.is_some() {
        return Err(Error::DuplicateAttribute(attribute_id, attribute_name));
    }
    *attribute = Some(value);
    Ok(())
}

/// Initialize an option with the given value, if it is uninitialized. Return
/// an error otherwise.
pub fn try_initialize<T>(attribute: u16, dest: &mut Option<T>, value: T) -> (r: Result<(), Error>)
    ensures
        match r {
            Ok(()) => (*old(dest)) is None && *final(dest) == Some(value),
            Err(e) => (*old(dest)) is Some && *final(dest) == *old(dest) && e@
                == ErrorV::DuplicateValue(attribute),
        },
{
    if dest.is_some() {
        return Err(Error::DuplicateValue(attribute));
    }
    *dest = Some(value);
    Ok(())
}

} // verus!

// The spec-level decoder: what one linear pass over the record's attributes
// accumulates into the draft, and what the validation of the draft yields.

verus! {

/// Mathematical model of a [`PartialConfiguration`]: every scalar optional,
/// every list accumulated in order.
#[verifier::ext_equal]
pub struct PartialV {
    /// ISO code of the primary language, once seen.
    pub primary_language: Option<u16>,
    /// Character-encoding id, once seen.
    pub encoding: Option<u16>,
    /// Service name, once seen.
    pub service_name: Option<Seq<char>>,
    /// Service description, once seen.
    pub service_description: Option<Seq<char>>,
    /// Provider name, once seen.
    pub provider_name: Option<Seq<char>>,
    /// Profile version, once seen.
    pub version: Option<u16>,
    /// HID device subclass, once seen.
    pub hid_device_subclass: Option<u8>,
    /// HID country code, once seen.
    pub hid_country_code: Option<u8>,
    /// HID virtual cable flag, once seen.
    pub hid_virtual_cable: Option<bool>,
    /// HID reconnect initiate flag, once seen.
    pub hid_reconnect_initiate: Option<bool>,
    /// Class descriptors, in decoded order.
    pub hid_descriptor_list: Seq<ClassDescriptorV>,
    /// Language bases, in decoded order.
    pub hid_lang_base_id_list: Seq<LanguageBase>,
    /// HID battery power flag, once seen.
    pub hid_battery_power: Option<bool>,
    /// HID remote wake flag, once seen.
    pub hid_remote_wake: Option<bool>,
    /// HID supervision timeout, once seen.
    pub hid_supervision_timeout: Option<u16>,
    /// HID normally connectable flag, once seen.
    pub hid_normally_connectable: Option<bool>,
    /// HID boot device flag, once seen.
    pub hid_boot_device: Option<bool>,
    /// HID SSR host maximum latency, once seen.
    pub hid_ssr_host_max_latency: Option<u16>,
    /// HID SSR host minimum timeout, once seen.
    pub hid_ssr_host_min_timeout: Option<u16>,
}

/// The draft a decode call starts from: nothing seen yet.
pub open spec fn empty_partial() -> PartialV {
    PartialV {
        primary_language: None,
        encoding: None,
        service_name: None,
        service_description: None,
        provider_name: None,
        version: None,
        hid_device_subclass: None,
        hid_country_code: None,
        hid_virtual_cable: None,
        hid_reconnect_initiate: None,
        hid_descriptor_list: Seq::empty(),
        hid_lang_base_id_list: Seq::empty(),
        hid_battery_power: None,
        hid_remote_wake: None,
        hid_supervision_timeout: None,
        hid_normally_connectable: None,
        hid_boot_device: None,
        hid_ssr_host_max_latency: None,
        hid_ssr_host_min_timeout: None,
    }
}

/// Writing a scalar attribute that may be written at most once: a second
/// write is a duplicate-attribute error naming the attribute.
pub open spec fn set_once<T>(current: Option<T>, value: T, id: u16, name: Seq<char>) -> Result<
    Option<T>,
    ErrorV,
> {
    if current is Some {
        Err(ErrorV::DuplicateAttribute(id, name))
    } else {
        Ok(Some(value))
    }
}

/// The human-readable label of the language base attribute id list.
pub open spec fn lang_base_id_list_name() -> Seq<char> {
    "Language Base Attribute ID List"@
}

/// What decoding the language base attribute id list does to the draft:
/// a sequence of exactly three elements `[language, encoding, base]`, whose
/// first two members set the primary language and the encoding.
pub open spec fn step_language_base_id_list(p: PartialV, id: u16, v: TagV) -> Result<
    PartialV,
    ErrorV,
> {
    match spec_expect_sequence(id, v) {
        Ok(s) => match spec_expect_len(id, s.len(), 3) {
            Ok(_) => match spec_expect_uint16(id, s[0]) {
                Ok(lang) => match spec_expect_uint16(id, s[1]) {
                    Ok(enc) => match set_once(
                        p.primary_language,
                        lang,
                        id,
                        lang_base_id_list_name(),
                    ) {
                        Ok(pl) => match set_once(p.encoding, enc, id, lang_base_id_list_name()) {
                            Ok(en) => Ok(PartialV { primary_language: pl, encoding: en, ..p }),
                            Err(e) => Err(e),
                        },
                        Err(e) => Err(e),
                    },
                    Err(e) => Err(e),
                },
                Err(e) => Err(e),
            },
            Err(e) => Err(e),
        },
        Err(e) => Err(e),
    }
}

/// What decoding the Bluetooth profile descriptor list does to the draft:
/// a one-element sequence holding `[UUID, version]`, where the UUID must be
/// the HID service-class UUID; the version is recorded.
pub open spec fn step_profile_descriptor_list(p: PartialV, id: u16, v: TagV) -> Result<
    PartialV,
    ErrorV,
> {
    match spec_expect_sequence(id, v) {
        Ok(outer) => match spec_expect_len(id, outer.len(), 1) {
            Ok(_) => match spec_expect_sequence(id, outer[0]) {
                Ok(inner) => match spec_expect_len(id, inner.len(), 2) {
                    Ok(_) => match spec_expect_uuid(
                        id,
                        inner[0],
                        ids::spec_uuid_from_u16(ids::HID_SERVICE_CLASS),
                    ) {
                        Ok(_) => match spec_expect_uint16(id, inner[1]) {
                            Ok(version) => match set_once(
                                p.version,
                                version,
                                id,
                                "Profile Descriptor List"@,
                            ) {
                                Ok(f) => Ok(PartialV { version: f, ..p }),
                                Err(e) => Err(e),
                            },
                            Err(e) => Err(e),
                        },
                        Err(e) => Err(e),
                    },
                    Err(e) => Err(e),
                },
                Err(e) => Err(e),
            },
            Err(e) => Err(e),
        },
        Err(e) => Err(e),
    }
}

/// One pass over the elements of a class descriptor entry, looking for
/// exactly one kind byte and exactly one payload, in either order.
pub open spec fn scan_descriptor_elems(
    elems: Seq<TagV>,
    kind: Option<u8>,
    data: Option<Seq<u8>>,
) -> Result<(Option<u8>, Option<Seq<u8>>), ErrorV>
    decreases elems.len(),
{
    if elems.len() == 0 {
        Ok((kind, data))
    } else {
        match elems[0] {
            TagV::UInt8(v) => {
                if kind is Some {
                    Err(ErrorV::DuplicateDescriptorId)
                } else {
                    scan_descriptor_elems(elems.drop_first(), Some(v), data)
                }
            },
            TagV::Text(t) => {
                if data is Some {
                    Err(ErrorV::DuplicateDescriptorText)
                } else {
                    scan_descriptor_elems(elems.drop_first(), kind, Some(encode_utf8(t)))
                }
            },
            TagV::RawText(b) => {
                if data is Some {
                    Err(ErrorV::DuplicateDescriptorText)
                } else {
                    scan_descriptor_elems(elems.drop_first(), kind, Some(b))
                }
            },
            e => Err(ErrorV::UnexpectedTag(e)),
        }
    }
}

/// What one class descriptor entry decodes to: a sequence whose elements
/// supply one kind byte and one text-or-raw-bytes payload.
pub open spec fn decode_descriptor_entry(id: u16, entry: TagV) -> Result<ClassDescriptorV, ErrorV> {
    match spec_expect_sequence(id, entry) {
        Ok(elems) => match scan_descriptor_elems(elems, None, None) {
            Ok((Some(kind), Some(data))) => Ok(ClassDescriptorV { kind, data }),
            Ok((None, _)) => Err(ErrorV::MissingRecord("descriptor id"@)),
            Ok((Some(_), None)) => Err(ErrorV::MissingRecord("descriptor value"@)),
            Err(e) => Err(e),
        },
        Err(e) => Err(e),
    }
}

/// What the entries of the HID descriptor list decode to, appended in order
/// onto the descriptors accumulated so far.
pub open spec fn decode_descriptor_entries(
    id: u16,
    entries: Seq<TagV>,
    acc: Seq<ClassDescriptorV>,
) -> Result<Seq<ClassDescriptorV>, ErrorV>
    decreases entries.len(),
{
    if entries.len() == 0 {
        Ok(acc)
    } else {
        match decode_descriptor_entry(id, entries[0]) {
            Ok(cd) => decode_descriptor_entries(id, entries.drop_first(), acc.push(cd)),
            Err(e) => Err(e),
        }
    }
}

/// What decoding the HID descriptor list does to the draft.
pub open spec fn step_descriptor_list(p: PartialV, id: u16, v: TagV) -> Result<PartialV, ErrorV> {
    match spec_expect_sequence(id, v) {
        Ok(entries) => match decode_descriptor_entries(id, entries, p.hid_descriptor_list) {
            Ok(list) => Ok(PartialV { hid_descriptor_list: list, ..p }),
            Err(e) => Err(e),
        },
        Err(e) => Err(e),
    }
}

/// What the entries of the HID language base id list decode to, appended in
/// order onto the language bases accumulated so far. Each entry is a
/// two-element sequence `[language, base]`.
pub open spec fn decode_lang_base_entries(
    id: u16,
    entries: Seq<TagV>,
    acc: Seq<LanguageBase>,
) -> Result<Seq<LanguageBase>, ErrorV>
    decreases entries.len(),
{
    if entries.len() == 0 {
        Ok(acc)
    } else {
        match spec_expect_sequence(id, entries[0]) {
            Ok(s) => match spec_expect_len(id, s.len(), 2) {
                Ok(_) => match spec_expect_uint16(id, s[0]) {
                    Ok(language) => match spec_expect_uint16(id, s[1]) {
                        Ok(base) => decode_lang_base_entries(
                            id,
                            entries.drop_first(),
                            acc.push(LanguageBase { language, base }),
                        ),
                        Err(e) => Err(e),
                    },
                    Err(e) => Err(e),
                },
                Err(e) => Err(e),
            },
            Err(e) => Err(e),
        }
    }
}

/// What decoding the HID language base id list does to the draft.
pub open spec fn step_lang_base_list(p: PartialV, id: u16, v: TagV) -> Result<PartialV, ErrorV> {
    match spec_expect_sequence(id, v) {
        Ok(entries) => match decode_lang_base_entries(id, entries, p.hid_lang_base_id_list) {
            Ok(list) => Ok(PartialV { hid_lang_base_id_list: list, ..p }),
            Err(e) => Err(e),
        },
        Err(e) => Err(e),
    }
}

/// What decoding one attribute does to the draft, dispatching on the
/// attribute id. Unknown ids leave the draft unchanged.
pub open spec fn decode_step(p: PartialV, id: u16, v: TagV) -> Result<PartialV, ErrorV> {
    if id == ids::LANGUAGE_BASE_ATTRIBUTE_ID_LIST {
        step_language_base_id_list(p, id, v)
    } else if id == ids::SERVICE_NAME {
        match spec_expect_text(id, v) {
            Ok(text) => match set_once(p.service_name, text, id, "Service Name"@) {
                Ok(f) => Ok(PartialV { service_name: f, ..p }),
                Err(e) => Err(e),
            },
            Err(e) => Err(e),
        }
    } else if id == ids::SERVICE_DESCRIPTION {
        match spec_expect_text(id, v) {
            Ok(text) => match set_once(p.service_description, text, id, "Service Description"@) {
                Ok(f) => Ok(PartialV { service_description: f, ..p }),
                Err(e) => Err(e),
            },
            Err(e) => Err(e),
        }
    } else if id == ids::PROVIDER_NAME {
        match spec_expect_text(id, v) {
            Ok(text) => match set_once(p.provider_name, text, id, "Provider Name"@) {
                Ok(f) => Ok(PartialV { provider_name: f, ..p }),
                Err(e) => Err(e),
            },
            Err(e) => Err(e),
        }
    } else if id == ids::BLUETOOTH_PROFILE_DESCRIPTOR_LIST {
        step_profile_descriptor_list(p, id, v)
    } else if id == ids::HID_DEVICE_SUBCLASS {
        match spec_expect_uint8(id, v) {
            Ok(value) => match set_once(p.hid_device_subclass, value, id, "HID Device Subclass"@) {
                Ok(f) => Ok(PartialV { hid_device_subclass: f, ..p }),
                Err(e) => Err(e),
            },
            Err(e) => Err(e),
        }
    } else if id == ids::HID_COUNTRY_CODE {
        match spec_expect_uint8(id, v) {
            Ok(value) => match set_once(p.hid_country_code, value, id, "HID Country Code"@) {
                Ok(f) => Ok(PartialV { hid_country_code: f, ..p }),
                Err(e) => Err(e),
            },
            Err(e) => Err(e),
        }
    } else if id == ids::HID_VIRTUAL_CABLE {
        match spec_expect_boolean(id, v) {
            Ok(value) => match set_once(p.hid_virtual_cable, value, id, "HID Virtual Cable"@) {
                Ok(f) => Ok(PartialV { hid_virtual_cable: f, ..p }),
                Err(e) => Err(e),
            },
            Err(e) => Err(e),
        }
    } else if id == ids::HID_RECONNECT_INITIATE {
        match spec_expect_boolean(id, v) {
            Ok(value) => match set_once(
                p.hid_reconnect_initiate,
                value,
                id,
                "HID Reconnect Initiate"@,
            ) {
                Ok(f) => Ok(PartialV { hid_reconnect_initiate: f, ..p }),
                Err(e) => Err(e),
            },
            Err(e) => Err(e),
        }
    } else if id == ids::HID_DESCRIPTOR_LIST {
        step_descriptor_list(p, id, v)
    } else if id == ids::HID_LANG_BASE_ATTRIBUTE {
        step_lang_base_list(p, id, v)
    } else if id == ids::HID_BATTERY_POWER {
        match spec_expect_boolean(id, v) {
            Ok(value) => match set_once(p.hid_battery_power, value, id, "HID Battery Power"@) {
                Ok(f) => Ok(PartialV { hid_battery_power: f, ..p }),
                Err(e) => Err(e),
            },
            Err(e) => Err(e),
        }
    } else if id == ids::HID_REMOTE_WAKE {
        match spec_expect_boolean(id, v) {
            Ok(value) => match set_once(p.hid_remote_wake, value, id, "HID Remote Wake"@) {
                Ok(f) => Ok(PartialV { hid_remote_wake: f, ..p }),
                Err(e) => Err(e),
            },
            Err(e) => Err(e),
        }
    } else if id == ids::HID_SUPERVISION_TIMEOUT {
        match spec_expect_uint16(id, v) {
            Ok(value) => match set_once(
                p.hid_supervision_timeout,
                value,
                id,
                "HID Supervision Timeout"@,
            ) {
                Ok(f) => Ok(PartialV { hid_supervision_timeout: f, ..p }),
                Err(e) => Err(e),
            },
            Err(e) => Err(e),
        }
    } else if id == ids::HID_NORMALLY_CONNECTABLE {
        match spec_expect_boolean(id, v) {
            Ok(value) => match set_once(
                p.hid_normally_connectable,
                value,
                id,
                "HID Normally Connectable"@,
            ) {
                Ok(f) => Ok(PartialV { hid_normally_connectable: f, ..p }),
                Err(e) => Err(e),
            },
            Err(e) => Err(e),
        }
    } else if id == ids::HID_BOOT_DEVICE {
        match spec_expect_boolean(id, v) {
            Ok(value) => match set_once(p.hid_boot_device, value, id, "HID Boot Device"@) {
                Ok(f) => Ok(PartialV { hid_boot_device: f, ..p }),
                Err(e) => Err(e),
            },
            Err(e) => Err(e),
        }
    } else if id == ids::HID_SSR_HOST_MAX_LATENCY {
        match spec_expect_uint16(id, v) {
            Ok(value) => match set_once(
                p.hid_ssr_host_max_latency,
                value,
                id,
                "HID SSR Host Max Latency"@,
            ) {
                Ok(f) => Ok(PartialV { hid_ssr_host_max_latency: f, ..p }),
                Err(e) => Err(e),
            },
            Err(e) => Err(e),
        }
    } else if id == ids::HID_SSR_HOST_MIN_TIMEOUT {
        match spec_expect_uint16(id, v) {
            Ok(value) => match set_once(
                p.hid_ssr_host_min_timeout,
                value,
                id,
                "HID SSR Host Min Timeout"@,
            ) {
                Ok(f) => Ok(PartialV { hid_ssr_host_min_timeout: f, ..p }),
                Err(e) => Err(e),
            },
            Err(e) => Err(e),
        }
    } else {
        // Unknown attribute ids are ignored, for forward compatibility.
        Ok(p)
    }
}

/// What turning the record's children into `(id, value)` pairs yields:
/// the first non-attribute child is a schema error naming it.
pub open spec fn to_attr_pairs(children: Seq<TagV>) -> Result<Seq<(u16, TagV)>, ErrorV>
    decreases children.len(),
{
    if children.len() == 0 {
        Ok(Seq::empty())
    } else {
        match children[0] {
            TagV::Attribute(id, value) => match to_attr_pairs(children.drop_first()) {
                Ok(rest) => Ok(seq![(id, *value)] + rest),
                Err(e) => Err(e),
            },
            t => Err(ErrorV::ExpectedAttribute(t)),
        }
    }
}

/// What one linear pass of `decode_step` over the attribute pairs yields.
pub open spec fn decode_pairs(p: PartialV, pairs: Seq<(u16, TagV)>) -> Result<PartialV, ErrorV>
    decreases pairs.len(),
{
    if pairs.len() == 0 {
        Ok(p)
    } else {
        match decode_step(p, pairs[0].0, pairs[0].1) {
            Ok(q) => decode_pairs(q, pairs.drop_first()),
            Err(e) => Err(e),
        }
    }
}

/// What decoding a whole tag tree yields: the tree must be a record whose
/// every child is an attribute; the attributes are folded into a draft.
pub open spec fn spec_decode(t: TagV) -> Result<PartialV, ErrorV> {
    match t {
        TagV::Record(children) => match to_attr_pairs(children) {
            Ok(pairs) => decode_pairs(empty_partial(), pairs),
            Err(e) => Err(e),
        },
        _ => Err(ErrorV::ExpectedRecord(t)),
    }
}

/// What validating a draft yields: every required field must be present, the
/// primary language pairs the ISO code with the HID code of the first
/// language base entry, and the remaining language bases become the
/// additional languages.
pub open spec fn spec_finalize(p: PartialV) -> Result<ConfigurationV, ErrorV> {
    if p.primary_language is None {
        Err(ErrorV::MissingRecord("primary language"@))
    } else if p.hid_lang_base_id_list.len() == 0 {
        Err(ErrorV::MissingRecord("HID language"@))
    } else if p.encoding is None {
        Err(ErrorV::MissingRecord("encoding"@))
    } else if p.version is None {
        Err(ErrorV::MissingRecord("version"@))
    } else if p.hid_device_subclass is None {
        Err(ErrorV::MissingRecord("device subclass"@))
    } else if p.hid_country_code is None {
        Err(ErrorV::MissingRecord("country code"@))
    } else if p.hid_virtual_cable is None {
        Err(ErrorV::MissingRecord("virtual cable"@))
    } else if p.hid_reconnect_initiate is None {
        Err(ErrorV::MissingRecord("reconnect initiate"@))
    } else if p.hid_boot_device is None {
        Err(ErrorV::MissingRecord("boot device"@))
    } else {
        Ok(ConfigurationV {
            primary_language: LanguageCode {
                iso_code: p.primary_language->0,
                hid_code: p.hid_lang_base_id_list[0].language,
            },
            encoding: p.encoding->0,
            service_name: p.service_name,
            service_description: p.service_description,
            provider_name: p.provider_name,
            version: p.version->0,
            hid: crate::hid::ConfigurationV {
                device_subclass: p.hid_device_subclass->0,
                country_code: p.hid_country_code->0,
                virtual_cable: p.hid_virtual_cable->0,
                reconnect_initiate: p.hid_reconnect_initiate->0,
                class_descriptors: p.hid_descriptor_list,
                additional_languages: p.hid_lang_base_id_list.drop_first(),
                battery_power: p.hid_battery_power,
                remote_wake: p.hid_remote_wake,
                supervision_timeout: p.hid_supervision_timeout,
                normally_connectable: p.hid_normally_connectable,
                boot_device: p.hid_boot_device->0,
                ssr_host_max_latency: p.hid_ssr_host_max_latency,
                ssr_host_min_timeout: p.hid_ssr_host_min_timeout,
            },
        })
    }
}

} // verus!

// The executable decoder, verified against the spec-level decoder above.

verus! {

/// The decode-time accumulator: structurally mirrors [`Configuration`] but
/// every scalar is optional and every list starts empty. It exists only for
/// the duration of one decode call and is consumed by the validation into a
/// [`Configuration`].
#[derive(Clone, Debug)]
pub struct PartialConfiguration {
    primary_language: Option<u16>,
    encoding: Option<u16>,
    service_name: Option<String>,
    service_description: Option<String>,
    provider_name: Option<String>,
    version: Option<u16>,
    hid_device_subclass: Option<u8>,
    hid_country_code: Option<u8>,
    hid_virtual_cable: Option<bool>,
    hid_reconnect_initiate: Option<bool>,
    hid_descriptor_list: Vec<ClassDescriptor>,
    hid_lang_base_id_list: Vec<LanguageBase>,
    hid_battery_power: Option<bool>,
    hid_remote_wake: Option<bool>,
    hid_supervision_timeout: Option<u16>,
    hid_normally_connectable: Option<bool>,
    hid_boot_device: Option<bool>,
    hid_ssr_host_max_latency: Option<u16>,
    hid_ssr_host_min_timeout: Option<u16>,
}

impl View for PartialConfiguration {
    type V = PartialV;

    closed spec fn view(&self) -> PartialV {
        PartialV {
            primary_language: self.primary_language,
            encoding: self.encoding,
            service_name: self.service_name.deep_view(),
            service_description: self.service_description.deep_view(),
            provider_name: self.provider_name.deep_view(),
            version: self.version,
            hid_device_subclass: self.hid_device_subclass,
            hid_country_code: self.hid_country_code,
            hid_virtual_cable: self.hid_virtual_cable,
            hid_reconnect_initiate: self.hid_reconnect_initiate,
            hid_descriptor_list: self.hid_descriptor_list.deep_view(),
            hid_lang_base_id_list: self.hid_lang_base_id_list@,
            hid_battery_power: self.hid_battery_power,
            hid_remote_wake: self.hid_remote_wake,
            hid_supervision_timeout: self.hid_supervision_timeout,
            hid_normally_connectable: self.hid_normally_connectable,
            hid_boot_device: self.hid_boot_device,
            hid_ssr_host_max_latency: self.hid_ssr_host_max_latency,
            hid_ssr_host_min_timeout: self.hid_ssr_host_min_timeout,
        }
    }
}

impl Default for PartialConfiguration {
    /// The draft a decode call starts from: nothing seen yet.
    fn default() -> (r: Self)
        ensures
            r@ == empty_partial(),
    {
        let r = PartialConfiguration {
            primary_language: None,
            encoding: None,
            service_name: None,
            service_description: None,
            provider_name: None,
            version: None,
            hid_device_subclass: None,
            hid_country_code: None,
            hid_virtual_cable: None,
            hid_reconnect_initiate: None,
            hid_descriptor_list: Vec::new(),
            hid_lang_base_id_list: Vec::new(),
            hid_battery_power: None,
            hid_remote_wake: None,
            hid_supervision_timeout: None,
            hid_normally_connectable: None,
            hid_boot_device: None,
            hid_ssr_host_max_latency: None,
            hid_ssr_host_min_timeout: None,
        };
        proof {
            assert(r@ =~= empty_partial());
        }
        r
    }
}

/// Decode the language base attribute id list into the draft.
fn apply_language_base_id_list(p: &mut PartialConfiguration, id: u16, value: Tag) -> (r: Result<
    (),
    Error,
>)
    ensures
        match r {
            Ok(()) => step_language_base_id_list(old(p)@, id, tag_view(value)) == Ok::<
                PartialV,
                ErrorV,
            >(final(p)@),
            Err(e) => step_language_base_id_list(old(p)@, id, tag_view(value)) == Err::<
                PartialV,
                ErrorV,
            >(e@),
        },
{
    let mut children = match expect_sequence(id, value) {
        Ok(s) => s,
        Err(e) => return Err(e),
    };
    let ghost s0 = tag_seq_view(children@);
    match expect_len(id, &children, 3) {
        Ok(()) => (),
        Err(e) => return Err(e),
    };
    let first = children.remove(0);
    proof {
        assert(tag_view(first) == s0[0]);
    }
    let lang = match expect_uint16(id, first) {
        Ok(v) => v,
        Err(e) => return Err(e),
    };
    let second = children.remove(0);
    proof {
        assert(children@.len() == 1);
        assert(tag_view(second) == s0[1]);
    }
    let encoding = match expect_uint16(id, second) {
        Ok(v) => v,
        Err(e) => return Err(e),
    };
    match try_initialize_attribute(
        &mut p.primary_language,
        lang,
        id,
        "Language Base Attribute ID List",
    ) {
        Ok(()) => (),
        Err(e) => return Err(e),
    };
    match try_initialize_attribute(&mut p.encoding, encoding, id, "Language Base Attribute ID List")
        {
        Ok(()) => (),
        Err(e) => return Err(e),
    };
    proof {
        assert(p@ =~= (PartialV {
            primary_language: Some(lang),
            encoding: Some(encoding),
            ..old(p)@
        }));
    }
    Ok(())
}

/// Decode the Bluetooth profile descriptor list into the draft.
fn apply_profile_descriptor_list(p: &mut PartialConfiguration, id: u16, value: Tag) -> (r: Result<
    (),
    Error,
>)
    ensures
        match r {
            Ok(()) => step_profile_descriptor_list(old(p)@, id, tag_view(value)) == Ok::<
                PartialV,
                ErrorV,
            >(final(p)@),
            Err(e) => step_profile_descriptor_list(old(p)@, id, tag_view(value)) == Err::<
                PartialV,
                ErrorV,
            >(e@),
        },
{
    let mut outer = match expect_sequence(id, value) {
        Ok(s) => s,
        Err(e) => return Err(e),
    };
    let ghost o0 = tag_seq_view(outer@);
    match expect_len(id, &outer, 1) {
        Ok(()) => (),
        Err(e) => return Err(e),
    };
    let first = outer.remove(0);
    proof {
        assert(tag_view(first) == o0[0]);
    }
    let mut inner = match expect_sequence(id, first) {
        Ok(s) => s,
        Err(e) => return Err(e),
    };
    let ghost i0 = tag_seq_view(inner@);
    match expect_len(id, &inner, 2) {
        Ok(()) => (),
        Err(e) => return Err(e),
    };
    let uuid_tag = inner.remove(0);
    proof {
        assert(tag_view(uuid_tag) == i0[0]);
    }
    match expect_uuid(id, uuid_tag, ids::uuid_from_u16(ids::HID_SERVICE_CLASS)) {
        Ok(()) => (),
        Err(e) => return Err(e),
    };
    let version_tag = inner.remove(0);
    proof {
        assert(tag_view(version_tag) == i0[1]);
    }
    let version = match expect_uint16(id, version_tag) {
        Ok(v) => v,
        Err(e) => return Err(e),
    };
    match try_initialize_attribute(&mut p.version, version, id, "Profile Descriptor List") {
        Ok(()) => (),
        Err(e) => return Err(e),
    };
    proof {
        assert(p@ =~= (PartialV { version: Some(version), ..old(p)@ }));
    }
    Ok(())
}

/// Decode the HID descriptor list into the draft, appending each entry's
/// class descriptor in order.
#[verifier::loop_isolation(false)]
fn apply_descriptor_list(p: &mut PartialConfiguration, id: u16, value: Tag) -> (r: Result<
    (),
    Error,
>)
    ensures
        match r {
            Ok(()) => step_descriptor_list(old(p)@, id, tag_view(value)) == Ok::<PartialV, ErrorV>(
                final(p)@,
            ),
            Err(e) => step_descriptor_list(old(p)@, id, tag_view(value)) == Err::<
                PartialV,
                ErrorV,
            >(e@),
        },
{
    let mut entries = match expect_sequence(id, value) {
        Ok(s) => s,
        Err(e) => return Err(e),
    };
    let ghost e0 = tag_seq_view(entries@);
    while entries.len() > 0
        invariant
            decode_descriptor_entries(id, e0, old(p)@.hid_descriptor_list)
                == decode_descriptor_entries(
                id,
                tag_seq_view(entries@),
                p@.hid_descriptor_list,
            ),
            p@ =~= (PartialV { hid_descriptor_list: p@.hid_descriptor_list, ..old(p)@ }),
        decreases entries.len(),
    {
        let ghost entries_pre = entries@;
        let ghost p_pre = p@;
        let entry = entries.remove(0);
        proof {
            assert(entries@ =~= entries_pre.drop_first());
            assert(tag_seq_view(entries_pre).drop_first() =~= tag_seq_view(entries@));
            assert(tag_view(entry) == tag_seq_view(entries_pre)[0]);
        }
        let mut elems = match expect_sequence(id, entry) {
            Ok(s) => s,
            Err(e) => return Err(e),
        };
        let ghost el0 = tag_seq_view(elems@);
        let mut descriptor_kind: Option<u8> = None;
        let mut descriptor_value: Option<Vec<u8>> = None;
        while elems.len() > 0
            invariant
                scan_descriptor_elems(el0, None, None) == scan_descriptor_elems(
                    tag_seq_view(elems@),
                    descriptor_kind,
                    descriptor_value.deep_view(),
                ),
            decreases elems.len(),
        {
            let ghost elems_pre = elems@;
            let element = elems.remove(0);
            proof {
                assert(elems@ =~= elems_pre.drop_first());
                assert(tag_seq_view(elems_pre).drop_first() =~= tag_seq_view(elems@));
                assert(tag_view(element) == tag_seq_view(elems_pre)[0]);
            }
            match element {
                Tag::UInt8(v) => {
                    match try_initialize(id, &mut descriptor_kind, v) {
                        Ok(()) => (),
                        Err(_) => return Err(Error::DuplicateDescriptorId),
                    };
                },
                Tag::Text(v) => {
                    let bytes = v.as_str().as_bytes_vec();
                    match try_initialize(id, &mut descriptor_value, bytes) {
                        Ok(()) => (),
                        Err(_) => return Err(Error::DuplicateDescriptorText),
                    };
                    proof {
                        assert(descriptor_value.deep_view() =~= Some(encode_utf8(v@)));
                    }
                },
                Tag::RawText(v) => {
                    match try_initialize(id, &mut descriptor_value, v) {
                        Ok(()) => (),
                        Err(_) => return Err(Error::DuplicateDescriptorText),
                    };
                    proof {
                        assert(descriptor_value.deep_view() =~= Some(v@));
                    }
                },
                other => {
                    return Err(Error::UnexpectedTag(other));
                },
            };
        }
        proof {
            assert(tag_seq_view(elems@) =~= Seq::<TagV>::empty());
        }
        let class_descriptor = match (descriptor_kind, descriptor_value) {
            (Some(t), Some(v)) => ClassDescriptor(t, v),
            (None, _) => {
                return Err(Error::MissingRecord("descriptor id"));
            },
            (Some(_), None) => {
                return Err(Error::MissingRecord("descriptor value"));
            },
        };
        p.hid_descriptor_list.push(class_descriptor);
        proof {
            assert(decode_descriptor_entry(id, tag_view(entry)) == Ok::<ClassDescriptorV, ErrorV>(
                class_descriptor.deep_view(),
            ));
            assert(p@.hid_descriptor_list =~= p_pre.hid_descriptor_list.push(
                class_descriptor.deep_view(),
            ));
            assert(p@ =~= (PartialV { hid_descriptor_list: p@.hid_descriptor_list, ..old(p)@ }));
        }
    }
    proof {
        assert(tag_seq_view(entries@) =~= Seq::<TagV>::empty());
        assert(step_descriptor_list(old(p)@, id, tag_view(value)) == Ok::<PartialV, ErrorV>(p@));
    }
    Ok(())
}

/// Decode the HID language base id list into the draft, appending each
/// entry's language base in order.
#[verifier::loop_isolation(false)]
fn apply_lang_base_list(p: &mut PartialConfiguration, id: u16, value: Tag) -> (r: Result<
    (),
    Error,
>)
    ensures
        match r {
            Ok(()) => step_lang_base_list(old(p)@, id, tag_view(value)) == Ok::<PartialV, ErrorV>(
                final(p)@,
            ),
            Err(e) => step_lang_base_list(old(p)@, id, tag_view(value)) == Err::<PartialV, ErrorV>(
                e@,
            ),
        },
{
    let mut entries = match expect_sequence(id, value) {
        Ok(s) => s,
        Err(e) => return Err(e),
    };
    let ghost e0 = tag_seq_view(entries@);
    while entries.len() > 0
        invariant
            decode_lang_base_entries(id, e0, old(p)@.hid_lang_base_id_list)
                == decode_lang_base_entries(
                id,
                tag_seq_view(entries@),
                p@.hid_lang_base_id_list,
            ),
            p@ =~= (PartialV { hid_lang_base_id_list: p@.hid_lang_base_id_list, ..old(p)@ }),
        decreases entries.len(),
    {
        let ghost entries_pre = entries@;
        let ghost p_pre = p@;
        let entry = entries.remove(0);
        proof {
            assert(entries@ =~= entries_pre.drop_first());
            assert(tag_seq_view(entries_pre).drop_first() =~= tag_seq_view(entries@));
            assert(tag_view(entry) == tag_seq_view(entries_pre)[0]);
        }
        let mut pair = match expect_sequence(id, entry) {
            Ok(s) => s,
            Err(e) => return Err(e),
        };
        let ghost pr0 = tag_seq_view(pair@);
        match expect_len(id, &pair, 2) {
            Ok(()) => (),
            Err(e) => return Err(e),
        };
        let first = pair.remove(0);
        proof {
            assert(tag_view(first) == pr0[0]);
        }
        let language = match expect_uint16(id, first) {
            Ok(v) => v,
            Err(e) => return Err(e),
        };
        let second = pair.remove(0);
        proof {
            assert(tag_view(second) == pr0[1]);
        }
        let base = match expect_uint16(id, second) {
            Ok(v) => v,
            Err(e) => return Err(e),
        };
        p.hid_lang_base_id_list.push(LanguageBase { language, base });
        proof {
            assert(p@.hid_lang_base_id_list =~= p_pre.hid_lang_base_id_list.push(
                LanguageBase { language, base },
            ));
            assert(p@ =~= (PartialV {
                hid_lang_base_id_list: p@.hid_lang_base_id_list,
                ..old(p)@
            }));
        }
    }
    proof {
        assert(tag_seq_view(entries@) =~= Seq::<TagV>::empty());
        assert(step_lang_base_list(old(p)@, id, tag_view(value)) == Ok::<PartialV, ErrorV>(p@));
    }
    Ok(())
}

} // verus!

// Dispatch, the decode entry point, and validation of the draft.

verus! {

/// Decode one attribute into the draft, dispatching on its id. Unknown ids
/// leave the draft unchanged.
fn apply_attribute(p: &mut PartialConfiguration, id: u16, value: Tag) -> (r: Result<(), Error>)
    ensures
        match r {
            Ok(()) => decode_step(old(p)@, id, tag_view(value)) == Ok::<PartialV, ErrorV>(
                final(p)@,
            ),
            Err(e) => decode_step(old(p)@, id, tag_view(value)) == Err::<PartialV, ErrorV>(e@),
        },
{
    if id == ids::LANGUAGE_BASE_ATTRIBUTE_ID_LIST {
        apply_language_base_id_list(p, id, value)
    } else if id == ids::SERVICE_NAME {
        let text = match expect_text(id, value) {
            Ok(t) => t,
            Err(e) => return Err(e),
        };
        match try_initialize_attribute(&mut p.service_name, text, id, "Service Name") {
            Ok(()) => (),
            Err(e) => return Err(e),
        };
        proof {
            assert(p@ =~= (PartialV { service_name: p@.service_name, ..old(p)@ }));
        }
        Ok(())
    } else if id == ids::SERVICE_DESCRIPTION {
        let text = match expect_text(id, value) {
            Ok(t) => t,
            Err(e) => return Err(e),
        };
        match try_initialize_attribute(&mut p.service_description, text, id, "Service Description")
            {
            Ok(()) => (),
            Err(e) => return Err(e),
        };
        proof {
            assert(p@ =~= (PartialV { service_description: p@.service_description, ..old(p)@ }));
        }
        Ok(())
    } else if id == ids::PROVIDER_NAME {
        let text = match expect_text(id, value) {
            Ok(t) => t,
            Err(e) => return Err(e),
        };
        match try_initialize_attribute(&mut p.provider_name, text, id, "Provider Name") {
            Ok(()) => (),
            Err(e) => return Err(e),
        };
        proof {
            assert(p@ =~= (PartialV { provider_name: p@.provider_name, ..old(p)@ }));
        }
        Ok(())
    } else if id == ids::BLUETOOTH_PROFILE_DESCRIPTOR_LIST {
        apply_profile_descriptor_list(p, id, value)
    } else if id == ids::HID_DEVICE_SUBCLASS {
        let v = match expect_uint8(id, value) {
            Ok(v) => v,
            Err(e) => return Err(e),
        };
        match try_initialize_attribute(&mut p.hid_device_subclass, v, id, "HID Device Subclass") {
            Ok(()) => (),
            Err(e) => return Err(e),
        };
        proof {
            assert(p@ =~= (PartialV { hid_device_subclass: p@.hid_device_subclass, ..old(p)@ }));
        }
        Ok(())
    } else if id == ids::HID_COUNTRY_CODE {
        let v = match expect_uint8(id, value) {
            Ok(v) => v,
            Err(e) => return Err(e),
        };
        match try_initialize_attribute(&mut p.hid_country_code, v, id, "HID Country Code") {
            Ok(()) => (),
            Err(e) => return Err(e),
        };
        proof {
            assert(p@ =~= (PartialV { hid_country_code: p@.hid_country_code, ..old(p)@ }));
        }
        Ok(())
    } else if id == ids::HID_VIRTUAL_CABLE {
        let v = match expect_boolean(id, value) {
            Ok(v) => v,
            Err(e) => return Err(e),
        };
        match try_initialize_attribute(&mut p.hid_virtual_cable, v, id, "HID Virtual Cable") {
            Ok(()) => (),
            Err(e) => return Err(e),
        };
        proof {
            assert(p@ =~= (PartialV { hid_virtual_cable: p@.hid_virtual_cable, ..old(p)@ }));
        }
        Ok(())
    } else if id == ids::HID_RECONNECT_INITIATE {
        let v = match expect_boolean(id, value) {
            Ok(v) => v,
            Err(e) => return Err(e),
        };
        match try_initialize_attribute(
            &mut p.hid_reconnect_initiate,
            v,
            id,
            "HID Reconnect Initiate",
        ) {
            Ok(()) => (),
            Err(e) => return Err(e),
        };
        proof {
            assert(p@ =~= (PartialV {
                hid_reconnect_initiate: p@.hid_reconnect_initiate,
                ..old(p)@
            }));
        }
        Ok(())
    } else if id == ids::HID_DESCRIPTOR_LIST {
        apply_descriptor_list(p, id, value)
    } else if id == ids::HID_LANG_BASE_ATTRIBUTE {
        apply_lang_base_list(p, id, value)
    } else if id == ids::HID_BATTERY_POWER {
        let v = match expect_boolean(id, value) {
            Ok(v) => v,
            Err(e) => return Err(e),
        };
        match try_initialize_attribute(&mut p.hid_battery_power, v, id, "HID Battery Power") {
            Ok(()) => (),
            Err(e) => return Err(e),
        };
        proof {
            assert(p@ =~= (PartialV { hid_battery_power: p@.hid_battery_power, ..old(p)@ }));
        }
        Ok(())
    } else if id == ids::HID_REMOTE_WAKE {
        let v = match expect_boolean(id, value) {
            Ok(v) => v,
            Err(e) => return Err(e),
        };
        match try_initialize_attribute(&mut p.hid_remote_wake, v, id, "HID Remote Wake") {
            Ok(()) => (),
            Err(e) => return Err(e),
        };
        proof {
            assert(p@ =~= (PartialV { hid_remote_wake: p@.hid_remote_wake, ..old(p)@ }));
        }
        Ok(())
    } else if id == ids::HID_SUPERVISION_TIMEOUT {
        let v = match expect_uint16(id, value) {
            Ok(v) => v,
            Err(e) => return Err(e),
        };
        match try_initialize_attribute(
            &mut p.hid_supervision_timeout,
            v,
            id,
            "HID Supervision Timeout",
        ) {
            Ok(()) => (),
            Err(e) => return Err(e),
        };
        proof {
            assert(p@ =~= (PartialV {
                hid_supervision_timeout: p@.hid_supervision_timeout,
                ..old(p)@
            }));
        }
        Ok(())
    } else if id == ids::HID_NORMALLY_CONNECTABLE {
        let v = match expect_boolean(id, value) {
            Ok(v) => v,
            Err(e) => return Err(e),
        };
        match try_initialize_attribute(
            &mut p.hid_normally_connectable,
            v,
            id,
            "HID Normally Connectable",
        ) {
            Ok(()) => (),
            Err(e) => return Err(e),
        };
        proof {
            assert(p@ =~= (PartialV {
                hid_normally_connectable: p@.hid_normally_connectable,
                ..old(p)@
            }));
        }
        Ok(())
    } else if id == ids::HID_BOOT_DEVICE {
        let v = match expect_boolean(id, value) {
            Ok(v) => v,
            Err(e) => return Err(e),
        };
        match try_initialize_attribute(&mut p.hid_boot_device, v, id, "HID Boot Device") {
            Ok(()) => (),
            Err(e) => return Err(e),
        };
        proof {
            assert(p@ =~= (PartialV { hid_boot_device: p@.hid_boot_device, ..old(p)@ }));
        }
        Ok(())
    } else if id == ids::HID_SSR_HOST_MAX_LATENCY {
        let v = match expect_uint16(id, value) {
            Ok(v) => v,
            Err(e) => return Err(e),
        };
        match try_initialize_attribute(
            &mut p.hid_ssr_host_max_latency,
            v,
            id,
            "HID SSR Host Max Latency",
        ) {
            Ok(()) => (),
            Err(e) => return Err(e),
        };
        proof {
            assert(p@ =~= (PartialV {
                hid_ssr_host_max_latency: p@.hid_ssr_host_max_latency,
                ..old(p)@
            }));
        }
        Ok(())
    } else if id == ids::HID_SSR_HOST_MIN_TIMEOUT {
        let v = match expect_uint16(id, value) {
            Ok(v) => v,
            Err(e) => return Err(e),
        };
        match try_initialize_attribute(
            &mut p.hid_ssr_host_min_timeout,
            v,
            id,
            "HID SSR Host Min Timeout",
        ) {
            Ok(()) => (),
            Err(e) => return Err(e),
        };
        proof {
            assert(p@ =~= (PartialV {
                hid_ssr_host_min_timeout: p@.hid_ssr_host_min_timeout,
                ..old(p)@
            }));
        }
        Ok(())
    } else {
        // Unknown attribute ids are ignored, for forward compatibility.
        Ok(())
    }
}

/// The deep view of a sequence of attribute pairs.
pub open spec fn pairs_view(pairs: Seq<(u16, Tag)>) -> Seq<(u16, TagV)> {
    Seq::new(pairs.len(), |i: int| (pairs[i].0, tag_view(pairs[i].1)))
}

impl PartialConfiguration {
    /// Decode an SDP record tree into a draft configuration.
    ///
    /// The tree must be a record whose every child is an attribute; each
    /// known attribute id is decoded into the draft, unknown ids are ignored,
    /// and the first error aborts the whole call.
    #[verifier::loop_isolation(false)]
    pub fn from_sdp_tag(tag: Tag) -> (r: Result<PartialConfiguration, Error>)
        ensures
            match r {
                Ok(p) => spec_decode(tag_view(tag)) == Ok::<PartialV, ErrorV>(p@),
                Err(e) => spec_decode(tag_view(tag)) == Err::<PartialV, ErrorV>(e@),
            },
    {
        let mut children = match tag {
            Tag::Record(children) => children,
            other => {
                return Err(Error::ExpectedRecord(other));
            },
        };
        let ghost c0 = tag_seq_view(children@);

        // First pass: every child must be an attribute; collect the pairs.
        let mut pairs: Vec<(u16, Tag)> = Vec::new();
        while children.len() > 0
            invariant
                match to_attr_pairs(tag_seq_view(children@)) {
                    Ok(rest) => to_attr_pairs(c0) == Ok::<Seq<(u16, TagV)>, ErrorV>(
                        pairs_view(pairs@) + rest,
                    ),
                    Err(e) => to_attr_pairs(c0) == Err::<Seq<(u16, TagV)>, ErrorV>(e),
                },
            decreases children.len(),
        {
            let ghost children_pre = children@;
            let ghost pairs_pre = pairs@;
            let child = children.remove(0);
            proof {
                assert(children@ =~= children_pre.drop_first());
                assert(tag_seq_view(children_pre).drop_first() =~= tag_seq_view(children@));
                assert(tag_view(child) == tag_seq_view(children_pre)[0]);
            }
            match child {
                Tag::Attribute(id, value) => {
                    pairs.push((id, *value));
                    proof {
                        assert(pairs_view(pairs@) =~= pairs_view(pairs_pre).push(
                            (id, tag_view(*value)),
                        ));
                        if let Ok(rest) = to_attr_pairs(tag_seq_view(children@)) {
                            assert(pairs_view(pairs_pre) + (seq![(id, tag_view(*value))] + rest)
                                =~= pairs_view(pairs@) + rest);
                        }
                    }
                },
                other => {
                    return Err(Error::ExpectedAttribute(other));
                },
            };
        }
        proof {
            assert(tag_seq_view(children@) =~= Seq::<TagV>::empty());
            assert(pairs_view(pairs@) + Seq::<(u16, TagV)>::empty() =~= pairs_view(pairs@));
            assert(to_attr_pairs(c0) == Ok::<Seq<(u16, TagV)>, ErrorV>(pairs_view(pairs@)));
        }

        // Second pass: fold each attribute into the draft.
        let ghost all_pairs = pairs_view(pairs@);
        let mut partial = PartialConfiguration::default();
        let mut rest = pairs;
        while rest.len() > 0
            invariant
                decode_pairs(empty_partial(), all_pairs) == decode_pairs(
                    partial@,
                    pairs_view(rest@),
                ),
            decreases rest.len(),
        {
            let ghost rest_pre = rest@;
            let ghost partial_pre = partial@;
            let (id, value) = rest.remove(0);
            proof {
                assert(rest@ =~= rest_pre.drop_first());
                assert(pairs_view(rest_pre).drop_first() =~= pairs_view(rest@));
                assert(pairs_view(rest_pre)[0] == (id, tag_view(value)));
            }
            match apply_attribute(&mut partial, id, value) {
                Ok(()) => (),
                Err(e) => return Err(e),
            };
        }
        proof {
            assert(pairs_view(rest@) =~= Seq::<(u16, TagV)>::empty());
        }
        Ok(partial)
    }
}

impl Configuration {
    /// Validate a decoded draft into a configuration.
    ///
    /// Every required field must be present and at least one language base
    /// entry must have been decoded; the first entry supplies the HID side of
    /// the primary language and the remaining entries become the additional
    /// languages. Each missing field is a completeness error naming it.
    pub fn try_from(partial: PartialConfiguration) -> (r: Result<Configuration, Error>)
        ensures
            match r {
                Ok(c) => spec_finalize(partial@) == Ok::<ConfigurationV, ErrorV>(c@),
                Err(e) => spec_finalize(partial@) == Err::<ConfigurationV, ErrorV>(e@),
            },
    {
        let ghost p0 = partial@;
        let iso_code = match partial.primary_language {
            Some(v) => v,
            None => return Err(Error::MissingRecord("primary language")),
        };
        if partial.hid_lang_base_id_list.len() == 0 {
            return Err(Error::MissingRecord("HID language"));
        }
        let hid_code = partial.hid_lang_base_id_list[0].language;
        let encoding = match partial.encoding {
            Some(v) => v,
            None => return Err(Error::MissingRecord("encoding")),
        };
        let version = match partial.version {
            Some(v) => v,
            None => return Err(Error::MissingRecord("version")),
        };
        let device_subclass = match partial.hid_device_subclass {
            Some(v) => v,
            None => return Err(Error::MissingRecord("device subclass")),
        };
        let country_code = match partial.hid_country_code {
            Some(v) => v,
            None => return Err(Error::MissingRecord("country code")),
        };
        let virtual_cable = match partial.hid_virtual_cable {
            Some(v) => v,
            None => return Err(Error::MissingRecord("virtual cable")),
        };
        let reconnect_initiate = match partial.hid_reconnect_initiate {
            Some(v) => v,
            None => return Err(Error::MissingRecord("reconnect initiate")),
        };
        let boot_device = match partial.hid_boot_device {
            Some(v) => v,
            None => return Err(Error::MissingRecord("boot device")),
        };
        let mut additional_languages = partial.hid_lang_base_id_list;
        additional_languages.remove(0);
        proof {
            assert(additional_languages@ =~= p0.hid_lang_base_id_list.drop_first());
        }
        let configuration = Configuration {
            primary_language: LanguageCode { iso_code, hid_code },
            encoding,
            service_name: partial.service_name,
            service_description: partial.service_description,
            provider_name: partial.provider_name,
            version,
            hid: crate::hid::Configuration {
                device_subclass,
                country_code,
                virtual_cable,
                reconnect_initiate,
                class_descriptors: partial.hid_descriptor_list,
                additional_languages,
                battery_power: partial.hid_battery_power,
                remote_wake: partial.hid_remote_wake,
                supervision_timeout: partial.hid_supervision_timeout,
                normally_connectable: partial.hid_normally_connectable,
                boot_device,
                ssr_host_max_latency: partial.hid_ssr_host_max_latency,
                ssr_host_min_timeout: partial.hid_ssr_host_min_timeout,
            },
        };
        proof {
            assert(configuration@ =~= spec_finalize(p0)->Ok_0);
        }
        Ok(configuration)
    }
}

} // verus!

// Human-readable error messages.

verus! {

/// The human-readable message of an error.
pub open spec fn spec_message(e: ErrorV) -> Seq<char> {
    match e {
        ErrorV::ExpectedRecord(t) => "expected record, received "@ + spec_tag_name(t),
        ErrorV::ExpectedAttribute(t) => "expected attribute, received "@ + spec_tag_name(t),
        ErrorV::ExpectedSequence(a, t) => "in attribute 0x"@ + hex4_of(a)
            + ": expected sequence, received "@ + spec_tag_name(t),
        ErrorV::ExpectedBoolean(a, t) => "in attribute 0x"@ + hex4_of(a)
            + ": expected boolean, received "@ + spec_tag_name(t),
        ErrorV::ExpectedUInt8(a, t) => "in attribute 0x"@ + hex4_of(a)
            + ": expected uint8, received "@ + spec_tag_name(t),
        ErrorV::ExpectedUInt16(a, t) => "in attribute 0x"@ + hex4_of(a)
            + ": expected uint16, received "@ + spec_tag_name(t),
        ErrorV::ExpectedText(a, t) => "in attribute 0x"@ + hex4_of(a)
            + ": expected text, received "@ + spec_tag_name(t),
        ErrorV::ExpectedUuid(a, t) => "in attribute 0x"@ + hex4_of(a)
            + ": expected uuid, received "@ + spec_tag_name(t),
        ErrorV::UnexpectedSequenceLen { attribute, expected, actual } => "in attribute 0x"@
            + hex4_of(attribute) + ": expected sequence of length "@ + dec_of(expected as int)
            + ", received sequence of length "@ + dec_of(actual as int),
        ErrorV::UnexpectedUuid { attribute, expected, actual } => "in attribute 0x"@ + hex4_of(
            attribute,
        ) + ": expected uuid "@ + uuid_of(expected) + ", received "@ + uuid_of(actual),
        ErrorV::DuplicateValue(a) => "in attribute 0x"@ + hex4_of(a)
            + ": unexpected duplicate value"@,
        ErrorV::DuplicateAttribute(a, name) => "duplicate attribute "@ + name + " (0x"@ + hex4_of(
            a,
        ) + ")"@,
        ErrorV::DuplicateDescriptorId => "unexpected duplicate descriptor ID"@,
        ErrorV::DuplicateDescriptorText => "unexpected duplicate descriptor text"@,
        ErrorV::MissingRecord(name) => "missing record "@ + name,
        ErrorV::UnexpectedTag(t) => "unexpected tag "@ + spec_tag_name(t),
    }
}

impl Error {
    /// The human-readable message of this error.
    pub fn message(&self) -> (r: String)
        ensures
            r@ == spec_message(self@),
    {
        match self {
            Error::ExpectedRecord(t) => {
                let mut s = "expected record, received ".to_owned();
                s.append(t.name());
                s
            },
            Error::ExpectedAttribute(t) => {
                let mut s = "expected attribute, received ".to_owned();
                s.append(t.name());
                s
            },
            Error::ExpectedSequence(a, t) => {
                let mut s = "in attribute 0x".to_owned();
                s.append(hex4(*a).as_str());
                s.append(": expected sequence, received ");
                s.append(t.name());
                s
            },
            Error::ExpectedBoolean(a, t) => {
                let mut s = "in attribute 0x".to_owned();
                s.append(hex4(*a).as_str());
                s.append(": expected boolean, received ");
                s.append(t.name());
                s
            },
            Error::ExpectedUInt8(a, t) => {
                let mut s = "in attribute 0x".to_owned();
                s.append(hex4(*a).as_str());
                s.append(": expected uint8, received ");
                s.append(t.name());
                s
            },
            Error::ExpectedUInt16(a, t) => {
                let mut s = "in attribute 0x".to_owned();
                s.append(hex4(*a).as_str());
                s.append(": expected uint16, received ");
                s.append(t.name());
                s
            },
            Error::ExpectedText(a, t) => {
                let mut s = "in attribute 0x".to_owned();
                s.append(hex4(*a).as_str());
                s.append(": expected text, received ");
                s.append(t.name());
                s
            },
            Error::ExpectedUuid(a, t) => {
                let mut s = "in attribute 0x".to_owned();
                s.append(hex4(*a).as_str());
                s.append(": expected uuid, received ");
                s.append(t.name());
                s
            },
            Error::UnexpectedSequenceLen { attribute, expected, actual } => {
                let mut s = "in attribute 0x".to_owned();
                s.append(hex4(*attribute).as_str());
                s.append(": expected sequence of length ");
                s.append(decimal(*expected).as_str());
                s.append(", received sequence of length ");
                s.append(decimal(*actual).as_str());
                s
            },
            Error::UnexpectedUuid { attribute, expected, actual } => {
                let mut s = "in attribute 0x".to_owned();
                s.append(hex4(*attribute).as_str());
                s.append(": expected uuid ");
                s.append(uuid_string(*expected).as_str());
                s.append(", received ");
                s.append(uuid_string(*actual).as_str());
                s
            },
            Error::DuplicateValue(a) => {
                let mut s = "in attribute 0x".to_owned();
                s.append(hex4(*a).as_str());
                s.append(": unexpected duplicate value");
                s
            },
            Error::DuplicateAttribute(a, name) => {
                let mut s = "duplicate attribute ".to_owned();
                s.append(name);
                s.append(" (0x");
                s.append(hex4(*a).as_str());
                s.append(")");
                s
            },
            Error::DuplicateDescriptorId => "unexpected duplicate descriptor ID".to_owned(),
            Error::DuplicateDescriptorText => "unexpected duplicate descriptor text".to_owned(),
            Error::MissingRecord(name) => {
                let mut s = "missing record ".to_owned();
                s.append(name);
                s
            },
            Error::UnexpectedTag(t) => {
                let mut s = "unexpected tag ".to_owned();
                s.append(t.name());
                s
            },
        }
    }
}

} // verus!
