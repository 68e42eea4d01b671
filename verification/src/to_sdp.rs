//! The encode path: from a validated [`Configuration`] to a record tag tree,
//! in the fixed, protocol-mandated attribute order.
//!
//! Encoding is total: a well-typed configuration is always structurally
//! valid, so there is no failure path. Absent optional fields are omitted
//! entirely, never emitted as a placeholder tag.

use vstd::prelude::*;

use crate::hid::ClassDescriptorV;
use crate::hid::LanguageBase;
use crate::ids;
use crate::tag::{tag_seq_view, tag_view, Tag, TagV};
use crate::{Configuration, ConfigurationV};

verus! {

broadcast use crate::tag::lemma_tag_seq_view;

/// An attribute node pairing an id with a value.
pub open spec fn attr_v(id: u16, v: TagV) -> TagV {
    TagV::Attribute(id, Box::new(v))
}

/// The attribute an optional text field encodes to: one text attribute if
/// present, nothing at all if absent.
pub open spec fn opt_text_attr(id: u16, v: Option<Seq<char>>) -> Seq<TagV> {
    match v {
        Some(s) => seq![attr_v(id, TagV::Text(s))],
        None => Seq::empty(),
    }
}

/// The attribute an optional boolean field encodes to: one boolean attribute
/// if present, nothing at all if absent.
pub open spec fn opt_bool_attr(id: u16, v: Option<bool>) -> Seq<TagV> {
    match v {
        Some(b) => seq![attr_v(id, TagV::Boolean(b))],
        None => Seq::empty(),
    }
}

/// The attribute an optional 16-bit field encodes to: one integer attribute
/// if present, nothing at all if absent.
pub open spec fn opt_u16_attr(id: u16, v: Option<u16>) -> Seq<TagV> {
    match v {
        Some(x) => seq![attr_v(id, TagV::UInt16(x))],
        None => Seq::empty(),
    }
}

/// The service-class id list: the HID service class alone.
pub open spec fn service_class_id_list_attr() -> TagV {
    attr_v(
        ids::SERVICE_CLASS_ID_LIST,
        TagV::Sequence(seq![TagV::Uuid(ids::spec_uuid_from_u16(ids::HID_SERVICE_CLASS))]),
    )
}

/// The protocol descriptor list: L2CAP on the HID control channel, then the
/// HID protocol. Built purely from fixed protocol constants.
pub open spec fn protocol_descriptor_list_attr() -> TagV {
    attr_v(
        ids::PROTOCOL_DESCRIPTOR_LIST,
        TagV::Sequence(
            seq![
                TagV::Sequence(
                    seq![
                        TagV::Uuid(ids::spec_uuid_from_u16(ids::L2CAP_PROTOCOL)),
                        TagV::UInt16(ids::HID_CONTROL_PSM),
                    ],
                ),
                TagV::Sequence(seq![TagV::Uuid(ids::spec_uuid_from_u16(ids::HID_PROTOCOL))]),
            ],
        ),
    )
}

/// The browse group list: the public browse group alone.
pub open spec fn browse_group_list_attr() -> TagV {
    attr_v(
        ids::BROWSE_GROUP_LIST,
        TagV::Sequence(seq![TagV::Uuid(ids::spec_uuid_from_u16(ids::PUBLIC_BROWSE_GROUP))]),
    )
}

/// The additional protocol descriptor lists: L2CAP on the HID interrupt
/// channel, then the HID protocol. Built purely from fixed protocol constants.
pub open spec fn additional_protocol_descriptor_lists_attr() -> TagV {
    attr_v(
        ids::ADDITIONAL_PROTOCOL_DESCRIPTOR_LISTS,
        TagV::Sequence(
            seq![
                TagV::Sequence(
                    seq![
                        TagV::Sequence(
                            seq![
                                TagV::Uuid(ids::spec_uuid_from_u16(ids::L2CAP_PROTOCOL)),
                                TagV::UInt16(ids::HID_INTERRUPT_PSM),
                            ],
                        ),
                        TagV::Sequence(
                            seq![TagV::Uuid(ids::spec_uuid_from_u16(ids::HID_PROTOCOL))],
                        ),
                    ],
                ),
            ],
        ),
    )
}

/// The language base attribute id list: primary ISO language, encoding, and
/// the reserved primary base offset.
pub open spec fn language_base_id_list_attr(c: ConfigurationV) -> TagV {
    attr_v(
        ids::LANGUAGE_BASE_ATTRIBUTE_ID_LIST,
        TagV::Sequence(
            seq![
                TagV::UInt16(c.primary_language.iso_code),
                TagV::UInt16(c.encoding),
                TagV::UInt16(ids::PRIMARY_LANGUAGE_BASE),
            ],
        ),
    )
}

/// The profile descriptor list: the HID service-class UUID and the version.
pub open spec fn profile_descriptor_list_attr(c: ConfigurationV) -> TagV {
    attr_v(
        ids::BLUETOOTH_PROFILE_DESCRIPTOR_LIST,
        TagV::Sequence(
            seq![
                TagV::Sequence(
                    seq![
                        TagV::Uuid(ids::spec_uuid_from_u16(ids::HID_SERVICE_CLASS)),
                        TagV::UInt16(c.version),
                    ],
                ),
            ],
        ),
    )
}

/// What a class descriptor is serialized as: its kind byte and its payload as
/// raw bytes. A text payload seen at decode time collapses to bytes here.
pub open spec fn descriptor_entries_v(descriptors: Seq<ClassDescriptorV>) -> Seq<TagV> {
    Seq::new(
        descriptors.len(),
        |i: int|
            TagV::Sequence(
                seq![TagV::UInt8(descriptors[i].kind), TagV::RawText(descriptors[i].data)],
            ),
    )
}

/// The entries the additional languages contribute to the HID language base
/// list, in stored order.
pub open spec fn lang_base_tail_v(additional: Seq<LanguageBase>) -> Seq<TagV> {
    Seq::new(
        additional.len(),
        |i: int|
            TagV::Sequence(
                seq![TagV::UInt16(additional[i].language), TagV::UInt16(additional[i].base)],
            ),
    )
}

/// The entries of the HID language base list: the primary language first,
/// with the reserved base offset, then the additional languages in stored
/// order.
pub open spec fn lang_base_entries_v(hid_code: u16, additional: Seq<LanguageBase>) -> Seq<TagV> {
    seq![
        TagV::Sequence(seq![TagV::UInt16(hid_code), TagV::UInt16(ids::PRIMARY_LANGUAGE_BASE)]),
    ] + lang_base_tail_v(additional)
}

/// The attributes a configuration encodes to, in the fixed, protocol-mandated
/// order. Absent optional fields contribute nothing.
pub open spec fn spec_encode_attrs(c: ConfigurationV) -> Seq<TagV> {
    seq![
        service_class_id_list_attr(),
        protocol_descriptor_list_attr(),
        browse_group_list_attr(),
        language_base_id_list_attr(c),
        additional_protocol_descriptor_lists_attr(),
    ] + opt_text_attr(ids::SERVICE_NAME, c.service_name) + opt_text_attr(
        ids::SERVICE_DESCRIPTION,
        c.service_description,
    ) + opt_text_attr(ids::PROVIDER_NAME, c.provider_name) + seq![
        profile_descriptor_list_attr(c),
        attr_v(ids::HID_PARSER_VERSION, TagV::UInt16(ids::HID_PARSER_VERSION_VALUE)),
        attr_v(ids::HID_DEVICE_SUBCLASS, TagV::UInt8(c.hid.device_subclass)),
        attr_v(ids::HID_COUNTRY_CODE, TagV::UInt8(c.hid.country_code)),
        attr_v(ids::HID_VIRTUAL_CABLE, TagV::Boolean(c.hid.virtual_cable)),
        attr_v(ids::HID_RECONNECT_INITIATE, TagV::Boolean(c.hid.reconnect_initiate)),
        attr_v(ids::HID_DESCRIPTOR_LIST, TagV::Sequence(descriptor_entries_v(c.hid.class_descriptors))),
        attr_v(
            ids::HID_LANG_BASE_ATTRIBUTE,
            TagV::Sequence(
                lang_base_entries_v(c.primary_language.hid_code, c.hid.additional_languages),
            ),
        ),
    ] + opt_bool_attr(ids::HID_BATTERY_POWER, c.hid.battery_power) + opt_bool_attr(
        ids::HID_REMOTE_WAKE,
        c.hid.remote_wake,
    ) + opt_u16_attr(ids::HID_SUPERVISION_TIMEOUT, c.hid.supervision_timeout) + opt_bool_attr(
        ids::HID_NORMALLY_CONNECTABLE,
        c.hid.normally_connectable,
    ) + seq![attr_v(ids::HID_BOOT_DEVICE, TagV::Boolean(c.hid.boot_device))] + opt_u16_attr(
        ids::HID_SSR_HOST_MAX_LATENCY,
        c.hid.ssr_host_max_latency,
    ) + opt_u16_attr(ids::HID_SSR_HOST_MIN_TIMEOUT, c.hid.ssr_host_min_timeout)
}

/// What a configuration encodes to: a record of the attributes in the fixed
/// order.
pub open spec fn spec_encode(c: ConfigurationV) -> TagV {
    TagV::Record(spec_encode_attrs(c))
}

/// Copy a byte payload.
fn clone_bytes(v: &Vec<u8>) -> (r: Vec<u8>)
    ensures
        r@ == v@,
{
    let r = v.clone();
    proof {
        assert(r@ =~= v@);
    }
    r
}

/// A sequence node of one element.
fn seq1(a: Tag) -> (r: Tag)
    ensures
        tag_view(r) == TagV::Sequence(seq![tag_view(a)]),
{
    let ghost av = tag_view(a);
    let r = Tag::Sequence(vec![a]);
    proof {
        assert(tag_seq_view(r->Sequence_0@) =~= seq![av]);
    }
    r
}

/// A sequence node of two elements.
fn seq2(a: Tag, b: Tag) -> (r: Tag)
    ensures
        tag_view(r) == TagV::Sequence(seq![tag_view(a), tag_view(b)]),
{
    let ghost av = tag_view(a);
    let ghost bv = tag_view(b);
    let r = Tag::Sequence(vec![a, b]);
    proof {
        assert(tag_seq_view(r->Sequence_0@) =~= seq![av, bv]);
    }
    r
}

/// A sequence node of three elements.
fn seq3(a: Tag, b: Tag, c: Tag) -> (r: Tag)
    ensures
        tag_view(r) == TagV::Sequence(seq![tag_view(a), tag_view(b), tag_view(c)]),
{
    let ghost av = tag_view(a);
    let ghost bv = tag_view(b);
    let ghost cv = tag_view(c);
    let r = Tag::Sequence(vec![a, b, c]);
    proof {
        assert(tag_seq_view(r->Sequence_0@) =~= seq![av, bv, cv]);
    }
    r
}

/// Push one attribute node onto the list.
fn push_attr(attributes: &mut Vec<Tag>, id: u16, value: Tag)
    ensures
        tag_seq_view(final(attributes)@) == tag_seq_view(old(attributes)@) + seq![
            attr_v(id, tag_view(value)),
        ],
{
    attributes.push(Tag::Attribute(id, Box::new(value)));
    proof {
        assert(tag_seq_view(attributes@) =~= tag_seq_view(old(attributes)@) + seq![
            attr_v(id, tag_view(value)),
        ]);
    }
}

/// Push an optional text attribute: nothing at all if the field is absent.
fn push_opt_text(attributes: &mut Vec<Tag>, id: u16, value: &Option<String>)
    ensures
        tag_seq_view(final(attributes)@) == tag_seq_view(old(attributes)@) + opt_text_attr(
            id,
            value.deep_view(),
        ),
{
    match value {
        Some(s) => {
            push_attr(attributes, id, Tag::Text(s.clone()));
        },
        None => {
            proof {
                assert(tag_seq_view(attributes@) =~= tag_seq_view(attributes@) + opt_text_attr(
                    id,
                    value.deep_view(),
                ));
            }
        },
    }
}

/// Push an optional boolean attribute: nothing at all if the field is absent.
fn push_opt_bool(attributes: &mut Vec<Tag>, id: u16, value: Option<bool>)
    ensures
        tag_seq_view(final(attributes)@) == tag_seq_view(old(attributes)@) + opt_bool_attr(
            id,
            value,
        ),
{
    match value {
        Some(b) => {
            push_attr(attributes, id, Tag::Boolean(b));
        },
        None => {
            proof {
                assert(tag_seq_view(attributes@) =~= tag_seq_view(attributes@) + opt_bool_attr(
                    id,
                    value,
                ));
            }
        },
    }
}

/// Push an optional 16-bit attribute: nothing at all if the field is absent.
fn push_opt_u16(attributes: &mut Vec<Tag>, id: u16, value: Option<u16>)
    ensures
        tag_seq_view(final(attributes)@) == tag_seq_view(old(attributes)@) + opt_u16_attr(
            id,
            value,
        ),
{
    match value {
        Some(x) => {
            push_attr(attributes, id, Tag::UInt16(x));
        },
        None => {
            proof {
                assert(tag_seq_view(attributes@) =~= tag_seq_view(attributes@) + opt_u16_attr(
                    id,
                    value,
                ));
            }
        },
    }
}

impl Configuration {
    /// Encode this configuration as an SDP record tree, emitting the
    /// attributes in the fixed, protocol-mandated order.
    #[verifier::loop_isolation(false)]
    #[verifier::rlimit(100)]
    pub fn to_sdp_tag(&self) -> (r: Tag)
        ensures
            tag_view(r) == spec_encode(self@),
    {
        let mut attributes: Vec<Tag> = Vec::new();
        proof {
            assert(tag_seq_view(attributes@) =~= Seq::<TagV>::empty());
        }

        // Fixed service-class, protocol, and browse-group attributes.
        push_attr(
            &mut attributes,
            ids::SERVICE_CLASS_ID_LIST,
            seq1(Tag::Uuid(ids::uuid_from_u16(ids::HID_SERVICE_CLASS))),
        );
        push_attr(
            &mut attributes,
            ids::PROTOCOL_DESCRIPTOR_LIST,
            seq2(
                seq2(
                    Tag::Uuid(ids::uuid_from_u16(ids::L2CAP_PROTOCOL)),
                    Tag::UInt16(ids::HID_CONTROL_PSM),
                ),
                seq1(Tag::Uuid(ids::uuid_from_u16(ids::HID_PROTOCOL))),
            ),
        );
        push_attr(
            &mut attributes,
            ids::BROWSE_GROUP_LIST,
            seq1(Tag::Uuid(ids::uuid_from_u16(ids::PUBLIC_BROWSE_GROUP))),
        );

        // The language base attribute id list, described in 5.1.8 of the
        // Bluetooth core specification: the primary language keeps the
        // reserved base offset.
        push_attr(
            &mut attributes,
            ids::LANGUAGE_BASE_ATTRIBUTE_ID_LIST,
            seq3(
                Tag::UInt16(self.primary_language.iso_code),
                Tag::UInt16(self.encoding),
                Tag::UInt16(ids::PRIMARY_LANGUAGE_BASE),
            ),
        );

        // The interrupt-channel protocol descriptors.
        push_attr(
            &mut attributes,
            ids::ADDITIONAL_PROTOCOL_DESCRIPTOR_LISTS,
            seq1(
                seq2(
                    seq2(
                        Tag::Uuid(ids::uuid_from_u16(ids::L2CAP_PROTOCOL)),
                        Tag::UInt16(ids::HID_INTERRUPT_PSM),
                    ),
                    seq1(Tag::Uuid(ids::uuid_from_u16(ids::HID_PROTOCOL))),
                ),
            ),
        );

        let ghost with_fixed = tag_seq_view(attributes@);
        proof {
            assert(with_fixed =~= seq![
                service_class_id_list_attr(),
                protocol_descriptor_list_attr(),
                browse_group_list_attr(),
                language_base_id_list_attr(self@),
                additional_protocol_descriptor_lists_attr(),
            ]);
        }

        // Optional text attributes, only if present.
        push_opt_text(&mut attributes, ids::SERVICE_NAME, &self.service_name);
        push_opt_text(&mut attributes, ids::SERVICE_DESCRIPTION, &self.service_description);
        push_opt_text(&mut attributes, ids::PROVIDER_NAME, &self.provider_name);

        let ghost with_texts = tag_seq_view(attributes@);

        // The profile descriptor list: the HID service-class UUID and the
        // version.
        push_attr(
            &mut attributes,
            ids::BLUETOOTH_PROFILE_DESCRIPTOR_LIST,
            seq1(
                seq2(
                    Tag::Uuid(ids::uuid_from_u16(ids::HID_SERVICE_CLASS)),
                    Tag::UInt16(self.version),
                ),
            ),
        );

        // The fixed HID parser version, independent of the configuration.
        push_attr(
            &mut attributes,
            ids::HID_PARSER_VERSION,
            Tag::UInt16(ids::HID_PARSER_VERSION_VALUE),
        );

        // Required HID scalar attributes.
        push_attr(&mut attributes, ids::HID_DEVICE_SUBCLASS, Tag::UInt8(self.hid.device_subclass));
        push_attr(&mut attributes, ids::HID_COUNTRY_CODE, Tag::UInt8(self.hid.country_code));
        push_attr(&mut attributes, ids::HID_VIRTUAL_CABLE, Tag::Boolean(self.hid.virtual_cable));
        push_attr(
            &mut attributes,
            ids::HID_RECONNECT_INITIATE,
            Tag::Boolean(self.hid.reconnect_initiate),
        );

        // The descriptor list: each class descriptor as its kind byte and its
        // payload as raw bytes.
        let mut entries: Vec<Tag> = Vec::new();
        let mut i: usize = 0;
        while i < self.hid.class_descriptors.len()
            invariant
                0 <= i <= self.hid.class_descriptors.len(),
                tag_seq_view(entries@) =~= descriptor_entries_v(
                    self@.hid.class_descriptors.take(i as int),
                ),
            decreases self.hid.class_descriptors.len() - i,
        {
            let ghost entries_pre = entries@;
            let descriptor = &self.hid.class_descriptors[i];
            let entry = seq2(Tag::UInt8(descriptor.0), Tag::RawText(clone_bytes(&descriptor.1)));
            proof {
                assert(tag_view(entry) == descriptor_entries_v(
                    self@.hid.class_descriptors,
                )[i as int]);
            }
            entries.push(entry);
            i = i + 1;
            proof {
                assert(tag_seq_view(entries@) =~= tag_seq_view(entries_pre).push(tag_view(entry)));
                assert(self@.hid.class_descriptors.take(i as int)
                    =~= self@.hid.class_descriptors.take(i - 1).push(
                    self@.hid.class_descriptors[i - 1],
                ));
                assert(tag_seq_view(entries@) =~= descriptor_entries_v(
                    self@.hid.class_descriptors.take(i as int),
                ));
            }
        }
        proof {
            assert(self@.hid.class_descriptors.take(i as int) =~= self@.hid.class_descriptors);
        }
        push_attr(&mut attributes, ids::HID_DESCRIPTOR_LIST, Tag::Sequence(entries));

        // The language base list: the primary language first, with the
        // reserved base offset, then the additional languages in stored order.
        let mut language_bases: Vec<Tag> = Vec::new();
        language_bases.push(
            seq2(
                Tag::UInt16(self.primary_language.hid_code),
                Tag::UInt16(ids::PRIMARY_LANGUAGE_BASE),
            ),
        );
        proof {
            assert(tag_seq_view(language_bases@) =~= lang_base_entries_v(
                self@.primary_language.hid_code,
                self@.hid.additional_languages.take(0),
            ));
        }
        let mut j: usize = 0;
        while j < self.hid.additional_languages.len()
            invariant
                0 <= j <= self.hid.additional_languages.len(),
                tag_seq_view(language_bases@) =~= lang_base_entries_v(
                    self@.primary_language.hid_code,
                    self@.hid.additional_languages.take(j as int),
                ),
            decreases self.hid.additional_languages.len() - j,
        {
            let ghost bases_pre = language_bases@;
            let lang = self.hid.additional_languages[j];
            let entry = seq2(Tag::UInt16(lang.language), Tag::UInt16(lang.base));
            language_bases.push(entry);
            j = j + 1;
            proof {
                assert(tag_seq_view(language_bases@) =~= tag_seq_view(bases_pre).push(
                    tag_view(entry),
                ));
                assert(self@.hid.additional_languages.take(j as int)
                    =~= self@.hid.additional_languages.take(j - 1).push(
                    self@.hid.additional_languages[j - 1],
                ));
                assert(tag_seq_view(language_bases@) =~= lang_base_entries_v(
                    self@.primary_language.hid_code,
                    self@.hid.additional_languages.take(j as int),
                ));
            }
        }
        proof {
            assert(self@.hid.additional_languages.take(j as int)
                =~= self@.hid.additional_languages);
        }
        push_attr(&mut attributes, ids::HID_LANG_BASE_ATTRIBUTE, Tag::Sequence(language_bases));

        let ghost with_hid = tag_seq_view(attributes@);
        proof {
            assert(with_hid =~= with_texts + seq![
                profile_descriptor_list_attr(self@),
                attr_v(ids::HID_PARSER_VERSION, TagV::UInt16(ids::HID_PARSER_VERSION_VALUE)),
                attr_v(ids::HID_DEVICE_SUBCLASS, TagV::UInt8(self@.hid.device_subclass)),
                attr_v(ids::HID_COUNTRY_CODE, TagV::UInt8(self@.hid.country_code)),
                attr_v(ids::HID_VIRTUAL_CABLE, TagV::Boolean(self@.hid.virtual_cable)),
                attr_v(ids::HID_RECONNECT_INITIATE, TagV::Boolean(self@.hid.reconnect_initiate)),
                attr_v(
                    ids::HID_DESCRIPTOR_LIST,
                    TagV::Sequence(descriptor_entries_v(self@.hid.class_descriptors)),
                ),
                attr_v(
                    ids::HID_LANG_BASE_ATTRIBUTE,
                    TagV::Sequence(
                        lang_base_entries_v(
                            self@.primary_language.hid_code,
                            self@.hid.additional_languages,
                        ),
                    ),
                ),
            ]);
        }

        // Optional HID attributes, only if present.
        push_opt_bool(&mut attributes, ids::HID_BATTERY_POWER, self.hid.battery_power);
        push_opt_bool(&mut attributes, ids::HID_REMOTE_WAKE, self.hid.remote_wake);
        push_opt_u16(&mut attributes, ids::HID_SUPERVISION_TIMEOUT, self.hid.supervision_timeout);
        push_opt_bool(
            &mut attributes,
            ids::HID_NORMALLY_CONNECTABLE,
            self.hid.normally_connectable,
        );

        // The required boot device attribute.
        push_attr(&mut attributes, ids::HID_BOOT_DEVICE, Tag::Boolean(self.hid.boot_device));

        // Trailing optional SSR attributes.
        push_opt_u16(&mut attributes, ids::HID_SSR_HOST_MAX_LATENCY, self.hid.ssr_host_max_latency);
        push_opt_u16(&mut attributes, ids::HID_SSR_HOST_MIN_TIMEOUT, self.hid.ssr_host_min_timeout);

        proof {
            assert(tag_seq_view(attributes@) == spec_encode_attrs(self@));
        }
        Tag::Record(attributes)
    }
}

} // verus!
