//! The laws the codec obeys, proved over the spec-level decoder, validator
//! and encoder: the round trip, encode determinism, rejection of duplicate
//! scalars, arity and UUID enforcement, tolerance of unknown attributes,
//! completeness errors, and omission of absent optional fields.

use vstd::prelude::*;

use crate::from_sdp::{
    decode_descriptor_entries, decode_lang_base_entries, decode_pairs, decode_step, empty_partial,
    spec_decode, spec_finalize, to_attr_pairs, ErrorV, PartialV,
};
use crate::hid::{ClassDescriptorV, LanguageBase};
use crate::ids;
use crate::tag::TagV;
use crate::to_sdp::{
    attr_v, descriptor_entries_v, lang_base_entries_v, lang_base_tail_v, opt_bool_attr,
    opt_text_attr, opt_u16_attr, spec_encode, spec_encode_attrs,
};
use crate::ConfigurationV;

verus! {

/// Turning a concatenation into attribute pairs splits at the boundary: the
/// pairs of the two parts concatenate, and the first error wins.
pub proof fn lemma_to_attr_pairs_append(a: Seq<TagV>, b: Seq<TagV>)
    ensures
        to_attr_pairs(a + b) == match to_attr_pairs(a) {
            Ok(pa) => match to_attr_pairs(b) {
                Ok(pb) => Ok::<Seq<(u16, TagV)>, ErrorV>(pa + pb),
                Err(e) => Err(e),
            },
            Err(e) => Err(e),
        },
    decreases a.len(),
{
    if a.len() == 0 {
        assert(a + b =~= b);
        if let Ok(pb) = to_attr_pairs(b) {
            assert(Seq::<(u16, TagV)>::empty() + pb =~= pb);
        }
    } else {
        assert((a + b)[0] == a[0]);
        assert((a + b).drop_first() =~= a.drop_first() + b);
        lemma_to_attr_pairs_append(a.drop_first(), b);
        if let TagV::Attribute(id, value) = a[0] {
            if let Ok(pa_rest) = to_attr_pairs(a.drop_first()) {
                if let Ok(pb) = to_attr_pairs(b) {
                    assert(seq![(id, *value)] + (pa_rest + pb) =~= (seq![(id, *value)] + pa_rest)
                        + pb);
                }
            }
        }
    }
}

/// Folding the decoder over a concatenation splits at the boundary: the
/// second part starts from the draft the first part reached, and the first
/// error wins.
pub proof fn lemma_decode_pairs_append(p: PartialV, a: Seq<(u16, TagV)>, b: Seq<(u16, TagV)>)
    ensures
        decode_pairs(p, a + b) == match decode_pairs(p, a) {
            Ok(q) => decode_pairs(q, b),
            Err(e) => Err::<PartialV, ErrorV>(e),
        },
    decreases a.len(),
{
    if a.len() == 0 {
        assert(a + b =~= b);
    } else {
        assert((a + b)[0] == a[0]);
        assert((a + b).drop_first() =~= a.drop_first() + b);
        if let Ok(q) = decode_step(p, a[0].0, a[0].1) {
            lemma_decode_pairs_append(q, a.drop_first(), b);
        }
    }
}

/// A single attribute yields a single pair.
pub proof fn lemma_to_attr_pairs_singleton(id: u16, v: TagV)
    ensures
        to_attr_pairs(seq![attr_v(id, v)]) == Ok::<Seq<(u16, TagV)>, ErrorV>(seq![(id, v)]),
{
    let s = seq![attr_v(id, v)];
    assert(s.drop_first() =~= Seq::<TagV>::empty());
    assert(to_attr_pairs(s.drop_first()) == Ok::<Seq<(u16, TagV)>, ErrorV>(
        Seq::<(u16, TagV)>::empty(),
    ));
    assert(seq![(id, v)] + Seq::<(u16, TagV)>::empty() =~= seq![(id, v)]);
}

/// Folding the decoder over a single pair is one decode step.
pub proof fn lemma_decode_pairs_singleton(p: PartialV, id: u16, v: TagV)
    ensures
        decode_pairs(p, seq![(id, v)]) == match decode_step(p, id, v) {
            Ok(q) => Ok::<PartialV, ErrorV>(q),
            Err(e) => Err(e),
        },
{
    let s = seq![(id, v)];
    assert(s.drop_first() =~= Seq::<(u16, TagV)>::empty());
    if let Ok(q) = decode_step(p, id, v) {
        assert(decode_pairs(q, s.drop_first()) == Ok::<PartialV, ErrorV>(q));
    }
}

/// One attribute appended onto a run of decoded attributes: the pairs extend
/// by one, and the draft advances by one decode step.
proof fn lemma_segment(
    done: Seq<TagV>,
    pairs_done: Seq<(u16, TagV)>,
    q: PartialV,
    id: u16,
    v: TagV,
)
    requires
        to_attr_pairs(done) == Ok::<Seq<(u16, TagV)>, ErrorV>(pairs_done),
        decode_pairs(empty_partial(), pairs_done) == Ok::<PartialV, ErrorV>(q),
        decode_step(q, id, v) is Ok,
    ensures
        to_attr_pairs(done + seq![attr_v(id, v)]) == Ok::<Seq<(u16, TagV)>, ErrorV>(
            pairs_done.push((id, v)),
        ),
        decode_pairs(empty_partial(), pairs_done.push((id, v))) == Ok::<PartialV, ErrorV>(
            decode_step(q, id, v)->Ok_0,
        ),
{
    lemma_to_attr_pairs_append(done, seq![attr_v(id, v)]);
    lemma_to_attr_pairs_singleton(id, v);
    assert(pairs_done + seq![(id, v)] =~= pairs_done.push((id, v)));
    lemma_decode_pairs_append(empty_partial(), pairs_done, seq![(id, v)]);
    lemma_decode_pairs_singleton(q, id, v);
}

/// Decoding the serialized class descriptors appends them, unchanged, onto
/// the accumulated list.
pub proof fn lemma_decode_descriptor_entries_round(
    id: u16,
    descriptors: Seq<ClassDescriptorV>,
    acc: Seq<ClassDescriptorV>,
)
    ensures
        decode_descriptor_entries(id, descriptor_entries_v(descriptors), acc) == Ok::<
            Seq<ClassDescriptorV>,
            ErrorV,
        >(acc + descriptors),
    decreases descriptors.len(),
{
    let entries = descriptor_entries_v(descriptors);
    if descriptors.len() == 0 {
        assert(entries =~= Seq::<TagV>::empty());
        assert(acc + descriptors =~= acc);
    } else {
        let cd = descriptors[0];
        let elems = seq![TagV::UInt8(cd.kind), TagV::RawText(cd.data)];
        assert(entries[0] == TagV::Sequence(elems));
        let elems1 = seq![TagV::RawText(cd.data)];
        assert(elems.drop_first() =~= elems1);
        assert(elems1.drop_first() =~= Seq::<TagV>::empty());
        assert(crate::from_sdp::scan_descriptor_elems(
            Seq::<TagV>::empty(),
            Some(cd.kind),
            Some(cd.data),
        ) == Ok::<(Option<u8>, Option<Seq<u8>>), ErrorV>((Some(cd.kind), Some(cd.data))));
        assert(crate::from_sdp::scan_descriptor_elems(elems1, Some(cd.kind), None) == Ok::<
            (Option<u8>, Option<Seq<u8>>),
            ErrorV,
        >((Some(cd.kind), Some(cd.data))));
        assert(crate::from_sdp::scan_descriptor_elems(elems, None, None) == Ok::<
            (Option<u8>, Option<Seq<u8>>),
            ErrorV,
        >((Some(cd.kind), Some(cd.data))));
        assert(crate::from_sdp::decode_descriptor_entry(id, entries[0]) == Ok::<
            ClassDescriptorV,
            ErrorV,
        >(ClassDescriptorV { kind: cd.kind, data: cd.data }));
        assert(entries.drop_first() =~= descriptor_entries_v(descriptors.drop_first()));
        lemma_decode_descriptor_entries_round(id, descriptors.drop_first(), acc.push(cd));
        assert(cd =~= (ClassDescriptorV { kind: cd.kind, data: cd.data }));
        assert(acc.push(cd) + descriptors.drop_first() =~= acc + descriptors);
    }
}

/// Decoding the serialized additional languages appends them, unchanged,
/// onto the accumulated list.
pub proof fn lemma_decode_lang_base_tail_round(
    id: u16,
    additional: Seq<LanguageBase>,
    acc: Seq<LanguageBase>,
)
    ensures
        decode_lang_base_entries(id, lang_base_tail_v(additional), acc) == Ok::<
            Seq<LanguageBase>,
            ErrorV,
        >(acc + additional),
    decreases additional.len(),
{
    let entries = lang_base_tail_v(additional);
    if additional.len() == 0 {
        assert(entries =~= Seq::<TagV>::empty());
        assert(acc + additional =~= acc);
    } else {
        let lb = additional[0];
        let elems = seq![TagV::UInt16(lb.language), TagV::UInt16(lb.base)];
        assert(entries[0] == TagV::Sequence(elems));
        assert(entries.drop_first() =~= lang_base_tail_v(additional.drop_first()));
        lemma_decode_lang_base_tail_round(
            id,
            additional.drop_first(),
            acc.push(LanguageBase { language: lb.language, base: lb.base }),
        );
        assert(acc.push(LanguageBase { language: lb.language, base: lb.base })
            + additional.drop_first() =~= acc + additional);
    }
}

/// The ids the decoder dispatches on; every other id is ignored.
pub open spec fn known_attribute_id(id: u16) -> bool {
    ||| id == ids::LANGUAGE_BASE_ATTRIBUTE_ID_LIST
    ||| id == ids::SERVICE_NAME
    ||| id == ids::SERVICE_DESCRIPTION
    ||| id == ids::PROVIDER_NAME
    ||| id == ids::BLUETOOTH_PROFILE_DESCRIPTOR_LIST
    ||| id == ids::HID_DEVICE_SUBCLASS
    ||| id == ids::HID_COUNTRY_CODE
    ||| id == ids::HID_VIRTUAL_CABLE
    ||| id == ids::HID_RECONNECT_INITIATE
    ||| id == ids::HID_DESCRIPTOR_LIST
    ||| id == ids::HID_LANG_BASE_ATTRIBUTE
    ||| id == ids::HID_BATTERY_POWER
    ||| id == ids::HID_REMOTE_WAKE
    ||| id == ids::HID_SUPERVISION_TIMEOUT
    ||| id == ids::HID_NORMALLY_CONNECTABLE
    ||| id == ids::HID_BOOT_DEVICE
    ||| id == ids::HID_SSR_HOST_MAX_LATENCY
    ||| id == ids::HID_SSR_HOST_MIN_TIMEOUT
}

/// Law: an attribute whose id is outside the known registry never changes the
/// draft and never fails: decoding tolerates unknown attributes.
pub proof fn lemma_unknown_attribute_ignored(p: PartialV, id: u16, v: TagV)
    requires
        !known_attribute_id(id),
    ensures
        decode_step(p, id, v) == Ok::<PartialV, ErrorV>(p),
{
}

/// The first run of encoded attributes: the fixed lists, the language base
/// id list, and the optional texts.
#[verifier::rlimit(100)]
#[verifier::spinoff_prover]
proof fn round_trip_head(c: ConfigurationV) -> (r: (Seq<TagV>, Seq<(u16, TagV)>, PartialV))
    ensures
        to_attr_pairs(r.0) == Ok::<Seq<(u16, TagV)>, ErrorV>(r.1),
        decode_pairs(empty_partial(), r.1) == Ok::<PartialV, ErrorV>(r.2),
        r.0 == seq![
            crate::to_sdp::service_class_id_list_attr(),
            crate::to_sdp::protocol_descriptor_list_attr(),
            crate::to_sdp::browse_group_list_attr(),
            crate::to_sdp::language_base_id_list_attr(c),
            crate::to_sdp::additional_protocol_descriptor_lists_attr(),
        ] + opt_text_attr(ids::SERVICE_NAME, c.service_name) + opt_text_attr(
            ids::SERVICE_DESCRIPTION,
            c.service_description,
        ) + opt_text_attr(ids::PROVIDER_NAME, c.provider_name),
        r.2 == (PartialV {
            primary_language: Some(c.primary_language.iso_code),
            encoding: Some(c.encoding),
            service_name: c.service_name,
            service_description: c.service_description,
            provider_name: c.provider_name,
            ..empty_partial()
        }),
{
    let p0 = empty_partial();
    let a1 = crate::to_sdp::service_class_id_list_attr();
    let a2 = crate::to_sdp::protocol_descriptor_list_attr();
    let a3 = crate::to_sdp::browse_group_list_attr();
    let a4 = crate::to_sdp::language_base_id_list_attr(c);
    let a5 = crate::to_sdp::additional_protocol_descriptor_lists_attr();

    let d0 = Seq::<TagV>::empty();
    let pr0 = Seq::<(u16, TagV)>::empty();
    assert(to_attr_pairs(d0) == Ok::<Seq<(u16, TagV)>, ErrorV>(pr0));
    assert(decode_pairs(p0, pr0) == Ok::<PartialV, ErrorV>(p0));

    lemma_segment(d0, pr0, p0, ids::SERVICE_CLASS_ID_LIST, *a1->Attribute_1);
    let d1 = d0 + seq![a1];
    let pr1 = pr0.push((ids::SERVICE_CLASS_ID_LIST, *a1->Attribute_1));
    let q1 = p0;

    lemma_segment(d1, pr1, q1, ids::PROTOCOL_DESCRIPTOR_LIST, *a2->Attribute_1);
    let d2 = d1 + seq![a2];
    let pr2 = pr1.push((ids::PROTOCOL_DESCRIPTOR_LIST, *a2->Attribute_1));
    let q2 = q1;

    lemma_segment(d2, pr2, q2, ids::BROWSE_GROUP_LIST, *a3->Attribute_1);
    let d3 = d2 + seq![a3];
    let pr3 = pr2.push((ids::BROWSE_GROUP_LIST, *a3->Attribute_1));
    let q3 = q2;

    // The language base attribute id list sets the primary language and the
    // encoding.
    assert(decode_step(q3, ids::LANGUAGE_BASE_ATTRIBUTE_ID_LIST, *a4->Attribute_1) == Ok::<
        PartialV,
        ErrorV,
    >(
        PartialV {
            primary_language: Some(c.primary_language.iso_code),
            encoding: Some(c.encoding),
            ..q3
        },
    ));
    lemma_segment(d3, pr3, q3, ids::LANGUAGE_BASE_ATTRIBUTE_ID_LIST, *a4->Attribute_1);
    let d4 = d3 + seq![a4];
    let pr4 = pr3.push((ids::LANGUAGE_BASE_ATTRIBUTE_ID_LIST, *a4->Attribute_1));
    let q4 = PartialV {
        primary_language: Some(c.primary_language.iso_code),
        encoding: Some(c.encoding),
        ..q3
    };

    lemma_segment(d4, pr4, q4, ids::ADDITIONAL_PROTOCOL_DESCRIPTOR_LISTS, *a5->Attribute_1);
    let d5 = d4 + seq![a5];
    let pr5 = pr4.push((ids::ADDITIONAL_PROTOCOL_DESCRIPTOR_LISTS, *a5->Attribute_1));
    let q5 = q4;

    // Optional texts: present ones are recorded, absent ones contribute no
    // attribute at all.
    let (d6, pr6, q6): (Seq<TagV>, Seq<(u16, TagV)>, PartialV) = if let Some(s) = c.service_name {
        lemma_segment(d5, pr5, q5, ids::SERVICE_NAME, TagV::Text(s));
        (
            d5 + seq![attr_v(ids::SERVICE_NAME, TagV::Text(s))],
            pr5.push((ids::SERVICE_NAME, TagV::Text(s))),
            PartialV { service_name: Some(s), ..q5 },
        )
    } else {
        assert(d5 + opt_text_attr(ids::SERVICE_NAME, c.service_name) =~= d5);
        (d5, pr5, q5)
    };
    assert(d6 == d5 + opt_text_attr(ids::SERVICE_NAME, c.service_name));
    assert(q6 == (PartialV { service_name: c.service_name, ..q5 }));

    let (d7, pr7, q7): (Seq<TagV>, Seq<(u16, TagV)>, PartialV) = if let Some(s)
        = c.service_description {
        lemma_segment(d6, pr6, q6, ids::SERVICE_DESCRIPTION, TagV::Text(s));
        (
            d6 + seq![attr_v(ids::SERVICE_DESCRIPTION, TagV::Text(s))],
            pr6.push((ids::SERVICE_DESCRIPTION, TagV::Text(s))),
            PartialV { service_description: Some(s), ..q6 },
        )
    } else {
        assert(d6 + opt_text_attr(ids::SERVICE_DESCRIPTION, c.service_description) =~= d6);
        (d6, pr6, q6)
    };
    assert(d7 == d6 + opt_text_attr(ids::SERVICE_DESCRIPTION, c.service_description));
    assert(q7 == (PartialV { service_description: c.service_description, ..q6 }));

    let (d8, pr8, q8): (Seq<TagV>, Seq<(u16, TagV)>, PartialV) = if let Some(s) = c.provider_name {
        lemma_segment(d7, pr7, q7, ids::PROVIDER_NAME, TagV::Text(s));
        (
            d7 + seq![attr_v(ids::PROVIDER_NAME, TagV::Text(s))],
            pr7.push((ids::PROVIDER_NAME, TagV::Text(s))),
            PartialV { provider_name: Some(s), ..q7 },
        )
    } else {
        assert(d7 + opt_text_attr(ids::PROVIDER_NAME, c.provider_name) =~= d7);
        (d7, pr7, q7)
    };
    assert(d8 == d7 + opt_text_attr(ids::PROVIDER_NAME, c.provider_name));
    assert(q8 == (PartialV { provider_name: c.provider_name, ..q7 }));

    (d8, pr8, q8)
}

/// The middle run of encoded attributes: the profile descriptor list, the
/// fixed parser version, the required HID scalars, and the two lists.
#[verifier::rlimit(100)]
#[verifier::spinoff_prover]
proof fn round_trip_middle(
    c: ConfigurationV,
    da: Seq<TagV>,
    pra: Seq<(u16, TagV)>,
    qa: PartialV,
) -> (r: (Seq<TagV>, Seq<(u16, TagV)>, PartialV))
    requires
        to_attr_pairs(da) == Ok::<Seq<(u16, TagV)>, ErrorV>(pra),
        decode_pairs(empty_partial(), pra) == Ok::<PartialV, ErrorV>(qa),
        qa.version is None,
        qa.hid_device_subclass is None,
        qa.hid_country_code is None,
        qa.hid_virtual_cable is None,
        qa.hid_reconnect_initiate is None,
        qa.hid_descriptor_list == Seq::<ClassDescriptorV>::empty(),
        qa.hid_lang_base_id_list == Seq::<LanguageBase>::empty(),
    ensures
        to_attr_pairs(r.0) == Ok::<Seq<(u16, TagV)>, ErrorV>(r.1),
        decode_pairs(empty_partial(), r.1) == Ok::<PartialV, ErrorV>(r.2),
        r.0 == da + seq![
            crate::to_sdp::profile_descriptor_list_attr(c),
            attr_v(ids::HID_PARSER_VERSION, TagV::UInt16(ids::HID_PARSER_VERSION_VALUE)),
            attr_v(ids::HID_DEVICE_SUBCLASS, TagV::UInt8(c.hid.device_subclass)),
            attr_v(ids::HID_COUNTRY_CODE, TagV::UInt8(c.hid.country_code)),
            attr_v(ids::HID_VIRTUAL_CABLE, TagV::Boolean(c.hid.virtual_cable)),
            attr_v(ids::HID_RECONNECT_INITIATE, TagV::Boolean(c.hid.reconnect_initiate)),
            attr_v(
                ids::HID_DESCRIPTOR_LIST,
                TagV::Sequence(descriptor_entries_v(c.hid.class_descriptors)),
            ),
            attr_v(
                ids::HID_LANG_BASE_ATTRIBUTE,
                TagV::Sequence(
                    lang_base_entries_v(
                        c.primary_language.hid_code,
                        c.hid.additional_languages,
                    ),
                ),
            ),
        ],
        r.2 == (PartialV {
            version: Some(c.version),
            hid_device_subclass: Some(c.hid.device_subclass),
            hid_country_code: Some(c.hid.country_code),
            hid_virtual_cable: Some(c.hid.virtual_cable),
            hid_reconnect_initiate: Some(c.hid.reconnect_initiate),
            hid_descriptor_list: c.hid.class_descriptors,
            hid_lang_base_id_list: seq![
                LanguageBase {
                    language: c.primary_language.hid_code,
                    base: ids::PRIMARY_LANGUAGE_BASE,
                },
            ] + c.hid.additional_languages,
            ..qa
        }),
{
    // The profile descriptor list records the version.
    let a9 = crate::to_sdp::profile_descriptor_list_attr(c);
    assert(decode_step(qa, ids::BLUETOOTH_PROFILE_DESCRIPTOR_LIST, *a9->Attribute_1) == Ok::<
        PartialV,
        ErrorV,
    >(PartialV { version: Some(c.version), ..qa }));
    lemma_segment(da, pra, qa, ids::BLUETOOTH_PROFILE_DESCRIPTOR_LIST, *a9->Attribute_1);
    let d9 = da + seq![a9];
    let pr9 = pra.push((ids::BLUETOOTH_PROFILE_DESCRIPTOR_LIST, *a9->Attribute_1));
    let q9 = PartialV { version: Some(c.version), ..qa };

    // The fixed parser version is outside the decoder's registry.
    lemma_segment(
        d9,
        pr9,
        q9,
        ids::HID_PARSER_VERSION,
        TagV::UInt16(ids::HID_PARSER_VERSION_VALUE),
    );
    let d10 = d9 + seq![
        attr_v(ids::HID_PARSER_VERSION, TagV::UInt16(ids::HID_PARSER_VERSION_VALUE)),
    ];
    let pr10 = pr9.push((ids::HID_PARSER_VERSION, TagV::UInt16(ids::HID_PARSER_VERSION_VALUE)));
    let q10 = q9;

    // The required HID scalars.
    lemma_segment(d10, pr10, q10, ids::HID_DEVICE_SUBCLASS, TagV::UInt8(c.hid.device_subclass));
    let d11 = d10 + seq![attr_v(ids::HID_DEVICE_SUBCLASS, TagV::UInt8(c.hid.device_subclass))];
    let pr11 = pr10.push((ids::HID_DEVICE_SUBCLASS, TagV::UInt8(c.hid.device_subclass)));
    let q11 = PartialV { hid_device_subclass: Some(c.hid.device_subclass), ..q10 };

    lemma_segment(d11, pr11, q11, ids::HID_COUNTRY_CODE, TagV::UInt8(c.hid.country_code));
    let d12 = d11 + seq![attr_v(ids::HID_COUNTRY_CODE, TagV::UInt8(c.hid.country_code))];
    let pr12 = pr11.push((ids::HID_COUNTRY_CODE, TagV::UInt8(c.hid.country_code)));
    let q12 = PartialV { hid_country_code: Some(c.hid.country_code), ..q11 };

    lemma_segment(d12, pr12, q12, ids::HID_VIRTUAL_CABLE, TagV::Boolean(c.hid.virtual_cable));
    let d13 = d12 + seq![attr_v(ids::HID_VIRTUAL_CABLE, TagV::Boolean(c.hid.virtual_cable))];
    let pr13 = pr12.push((ids::HID_VIRTUAL_CABLE, TagV::Boolean(c.hid.virtual_cable)));
    let q13 = PartialV { hid_virtual_cable: Some(c.hid.virtual_cable), ..q12 };

    lemma_segment(
        d13,
        pr13,
        q13,
        ids::HID_RECONNECT_INITIATE,
        TagV::Boolean(c.hid.reconnect_initiate),
    );
    let d14 = d13 + seq![
        attr_v(ids::HID_RECONNECT_INITIATE, TagV::Boolean(c.hid.reconnect_initiate)),
    ];
    let pr14 = pr13.push((ids::HID_RECONNECT_INITIATE, TagV::Boolean(c.hid.reconnect_initiate)));
    let q14 = PartialV { hid_reconnect_initiate: Some(c.hid.reconnect_initiate), ..q13 };

    // The descriptor list appends every class descriptor, in order.
    let descriptor_list_value = TagV::Sequence(descriptor_entries_v(c.hid.class_descriptors));
    lemma_decode_descriptor_entries_round(
        ids::HID_DESCRIPTOR_LIST,
        c.hid.class_descriptors,
        q14.hid_descriptor_list,
    );
    assert(q14.hid_descriptor_list + c.hid.class_descriptors =~= c.hid.class_descriptors);
    assert(decode_step(q14, ids::HID_DESCRIPTOR_LIST, descriptor_list_value) == Ok::<
        PartialV,
        ErrorV,
    >(PartialV { hid_descriptor_list: c.hid.class_descriptors, ..q14 }));
    lemma_segment(d14, pr14, q14, ids::HID_DESCRIPTOR_LIST, descriptor_list_value);
    let d15 = d14 + seq![attr_v(ids::HID_DESCRIPTOR_LIST, descriptor_list_value)];
    let pr15 = pr14.push((ids::HID_DESCRIPTOR_LIST, descriptor_list_value));
    let q15 = PartialV { hid_descriptor_list: c.hid.class_descriptors, ..q14 };

    // The language base list appends the primary language entry first, then
    // every additional language, in order.
    let lang_bases = lang_base_entries_v(c.primary_language.hid_code, c.hid.additional_languages);
    let lang_base_value = TagV::Sequence(lang_bases);
    let primary_entry = LanguageBase {
        language: c.primary_language.hid_code,
        base: ids::PRIMARY_LANGUAGE_BASE,
    };
    assert(lang_bases[0] == TagV::Sequence(
        seq![
            TagV::UInt16(c.primary_language.hid_code),
            TagV::UInt16(ids::PRIMARY_LANGUAGE_BASE),
        ],
    ));
    assert(lang_bases.drop_first() =~= lang_base_tail_v(c.hid.additional_languages));
    lemma_decode_lang_base_tail_round(
        ids::HID_LANG_BASE_ATTRIBUTE,
        c.hid.additional_languages,
        q15.hid_lang_base_id_list.push(primary_entry),
    );
    let full_lang_list = seq![primary_entry] + c.hid.additional_languages;
    assert(q15.hid_lang_base_id_list.push(primary_entry) + c.hid.additional_languages
        =~= full_lang_list);
    assert(decode_step(q15, ids::HID_LANG_BASE_ATTRIBUTE, lang_base_value) == Ok::<
        PartialV,
        ErrorV,
    >(PartialV { hid_lang_base_id_list: full_lang_list, ..q15 }));
    lemma_segment(d15, pr15, q15, ids::HID_LANG_BASE_ATTRIBUTE, lang_base_value);
    let d16 = d15 + seq![attr_v(ids::HID_LANG_BASE_ATTRIBUTE, lang_base_value)];
    let pr16 = pr15.push((ids::HID_LANG_BASE_ATTRIBUTE, lang_base_value));
    let q16 = PartialV { hid_lang_base_id_list: full_lang_list, ..q15 };

    assert(d16 =~= da + seq![
        crate::to_sdp::profile_descriptor_list_attr(c),
        attr_v(ids::HID_PARSER_VERSION, TagV::UInt16(ids::HID_PARSER_VERSION_VALUE)),
        attr_v(ids::HID_DEVICE_SUBCLASS, TagV::UInt8(c.hid.device_subclass)),
        attr_v(ids::HID_COUNTRY_CODE, TagV::UInt8(c.hid.country_code)),
        attr_v(ids::HID_VIRTUAL_CABLE, TagV::Boolean(c.hid.virtual_cable)),
        attr_v(ids::HID_RECONNECT_INITIATE, TagV::Boolean(c.hid.reconnect_initiate)),
        attr_v(
            ids::HID_DESCRIPTOR_LIST,
            TagV::Sequence(descriptor_entries_v(c.hid.class_descriptors)),
        ),
        attr_v(
            ids::HID_LANG_BASE_ATTRIBUTE,
            TagV::Sequence(
                lang_base_entries_v(c.primary_language.hid_code, c.hid.additional_languages),
            ),
        ),
    ]);

    (d16, pr16, q16)
}

/// The trailing run of encoded attributes: the optional HID flags and
/// timeouts around the required boot device attribute.
#[verifier::rlimit(100)]
#[verifier::spinoff_prover]
proof fn round_trip_tail(
    c: ConfigurationV,
    d16: Seq<TagV>,
    pr16: Seq<(u16, TagV)>,
    q16: PartialV,
) -> (r: (Seq<TagV>, Seq<(u16, TagV)>, PartialV))
    requires
        to_attr_pairs(d16) == Ok::<Seq<(u16, TagV)>, ErrorV>(pr16),
        decode_pairs(empty_partial(), pr16) == Ok::<PartialV, ErrorV>(q16),
        q16.hid_battery_power is None,
        q16.hid_remote_wake is None,
        q16.hid_supervision_timeout is None,
        q16.hid_normally_connectable is None,
        q16.hid_boot_device is None,
        q16.hid_ssr_host_max_latency is None,
        q16.hid_ssr_host_min_timeout is None,
    ensures
        to_attr_pairs(r.0) == Ok::<Seq<(u16, TagV)>, ErrorV>(r.1),
        decode_pairs(empty_partial(), r.1) == Ok::<PartialV, ErrorV>(r.2),
        r.0 == d16 + opt_bool_attr(ids::HID_BATTERY_POWER, c.hid.battery_power) + opt_bool_attr(
            ids::HID_REMOTE_WAKE,
            c.hid.remote_wake,
        ) + opt_u16_attr(ids::HID_SUPERVISION_TIMEOUT, c.hid.supervision_timeout) + opt_bool_attr(
            ids::HID_NORMALLY_CONNECTABLE,
            c.hid.normally_connectable,
        ) + seq![attr_v(ids::HID_BOOT_DEVICE, TagV::Boolean(c.hid.boot_device))] + opt_u16_attr(
            ids::HID_SSR_HOST_MAX_LATENCY,
            c.hid.ssr_host_max_latency,
        ) + opt_u16_attr(ids::HID_SSR_HOST_MIN_TIMEOUT, c.hid.ssr_host_min_timeout),
        r.2 == (PartialV {
            hid_battery_power: c.hid.battery_power,
            hid_remote_wake: c.hid.remote_wake,
            hid_supervision_timeout: c.hid.supervision_timeout,
            hid_normally_connectable: c.hid.normally_connectable,
            hid_boot_device: Some(c.hid.boot_device),
            hid_ssr_host_max_latency: c.hid.ssr_host_max_latency,
            hid_ssr_host_min_timeout: c.hid.ssr_host_min_timeout,
            ..q16
        }),
{
    // Optional HID attributes.
    let (d17, pr17, q17): (Seq<TagV>, Seq<(u16, TagV)>, PartialV) = if let Some(b)
        = c.hid.battery_power {
        lemma_segment(d16, pr16, q16, ids::HID_BATTERY_POWER, TagV::Boolean(b));
        (
            d16 + seq![attr_v(ids::HID_BATTERY_POWER, TagV::Boolean(b))],
            pr16.push((ids::HID_BATTERY_POWER, TagV::Boolean(b))),
            PartialV { hid_battery_power: Some(b), ..q16 },
        )
    } else {
        assert(d16 + opt_bool_attr(ids::HID_BATTERY_POWER, c.hid.battery_power) =~= d16);
        (d16, pr16, q16)
    };
    assert(d17 == d16 + opt_bool_attr(ids::HID_BATTERY_POWER, c.hid.battery_power));
    assert(q17 == (PartialV { hid_battery_power: c.hid.battery_power, ..q16 }));

    let (d18, pr18, q18): (Seq<TagV>, Seq<(u16, TagV)>, PartialV) = if let Some(b)
        = c.hid.remote_wake {
        lemma_segment(d17, pr17, q17, ids::HID_REMOTE_WAKE, TagV::Boolean(b));
        (
            d17 + seq![attr_v(ids::HID_REMOTE_WAKE, TagV::Boolean(b))],
            pr17.push((ids::HID_REMOTE_WAKE, TagV::Boolean(b))),
            PartialV { hid_remote_wake: Some(b), ..q17 },
        )
    } else {
        assert(d17 + opt_bool_attr(ids::HID_REMOTE_WAKE, c.hid.remote_wake) =~= d17);
        (d17, pr17, q17)
    };
    assert(d18 == d17 + opt_bool_attr(ids::HID_REMOTE_WAKE, c.hid.remote_wake));
    assert(q18 == (PartialV { hid_remote_wake: c.hid.remote_wake, ..q17 }));

    let (d19, pr19, q19): (Seq<TagV>, Seq<(u16, TagV)>, PartialV) = if let Some(x)
        = c.hid.supervision_timeout {
        lemma_segment(d18, pr18, q18, ids::HID_SUPERVISION_TIMEOUT, TagV::UInt16(x));
        (
            d18 + seq![attr_v(ids::HID_SUPERVISION_TIMEOUT, TagV::UInt16(x))],
            pr18.push((ids::HID_SUPERVISION_TIMEOUT, TagV::UInt16(x))),
            PartialV { hid_supervision_timeout: Some(x), ..q18 },
        )
    } else {
        assert(d18 + opt_u16_attr(ids::HID_SUPERVISION_TIMEOUT, c.hid.supervision_timeout)
            =~= d18);
        (d18, pr18, q18)
    };
    assert(d19 == d18 + opt_u16_attr(ids::HID_SUPERVISION_TIMEOUT, c.hid.supervision_timeout));
    assert(q19 == (PartialV { hid_supervision_timeout: c.hid.supervision_timeout, ..q18 }));

    let (d20, pr20, q20): (Seq<TagV>, Seq<(u16, TagV)>, PartialV) = if let Some(b)
        = c.hid.normally_connectable {
        lemma_segment(d19, pr19, q19, ids::HID_NORMALLY_CONNECTABLE, TagV::Boolean(b));
        (
            d19 + seq![attr_v(ids::HID_NORMALLY_CONNECTABLE, TagV::Boolean(b))],
            pr19.push((ids::HID_NORMALLY_CONNECTABLE, TagV::Boolean(b))),
            PartialV { hid_normally_connectable: Some(b), ..q19 },
        )
    } else {
        assert(d19 + opt_bool_attr(ids::HID_NORMALLY_CONNECTABLE, c.hid.normally_connectable)
            =~= d19);
        (d19, pr19, q19)
    };
    assert(d20 == d19 + opt_bool_attr(ids::HID_NORMALLY_CONNECTABLE, c.hid.normally_connectable));
    assert(q20 == (PartialV { hid_normally_connectable: c.hid.normally_connectable, ..q19 }));

    // The required boot device attribute.
    lemma_segment(d20, pr20, q20, ids::HID_BOOT_DEVICE, TagV::Boolean(c.hid.boot_device));
    let d21 = d20 + seq![attr_v(ids::HID_BOOT_DEVICE, TagV::Boolean(c.hid.boot_device))];
    let pr21 = pr20.push((ids::HID_BOOT_DEVICE, TagV::Boolean(c.hid.boot_device)));
    let q21 = PartialV { hid_boot_device: Some(c.hid.boot_device), ..q20 };

    // Trailing optional SSR attributes.
    let (d22, pr22, q22): (Seq<TagV>, Seq<(u16, TagV)>, PartialV) = if let Some(x)
        = c.hid.ssr_host_max_latency {
        lemma_segment(d21, pr21, q21, ids::HID_SSR_HOST_MAX_LATENCY, TagV::UInt16(x));
        (
            d21 + seq![attr_v(ids::HID_SSR_HOST_MAX_LATENCY, TagV::UInt16(x))],
            pr21.push((ids::HID_SSR_HOST_MAX_LATENCY, TagV::UInt16(x))),
            PartialV { hid_ssr_host_max_latency: Some(x), ..q21 },
        )
    } else {
        assert(d21 + opt_u16_attr(ids::HID_SSR_HOST_MAX_LATENCY, c.hid.ssr_host_max_latency)
            =~= d21);
        (d21, pr21, q21)
    };
    assert(d22 == d21 + opt_u16_attr(ids::HID_SSR_HOST_MAX_LATENCY, c.hid.ssr_host_max_latency));
    assert(q22 == (PartialV { hid_ssr_host_max_latency: c.hid.ssr_host_max_latency, ..q21 }));

    let (d23, pr23, q23): (Seq<TagV>, Seq<(u16, TagV)>, PartialV) = if let Some(x)
        = c.hid.ssr_host_min_timeout {
        lemma_segment(d22, pr22, q22, ids::HID_SSR_HOST_MIN_TIMEOUT, TagV::UInt16(x));
        (
            d22 + seq![attr_v(ids::HID_SSR_HOST_MIN_TIMEOUT, TagV::UInt16(x))],
            pr22.push((ids::HID_SSR_HOST_MIN_TIMEOUT, TagV::UInt16(x))),
            PartialV { hid_ssr_host_min_timeout: Some(x), ..q22 },
        )
    } else {
        assert(d22 + opt_u16_attr(ids::HID_SSR_HOST_MIN_TIMEOUT, c.hid.ssr_host_min_timeout)
            =~= d22);
        (d22, pr22, q22)
    };
    assert(d23 == d22 + opt_u16_attr(ids::HID_SSR_HOST_MIN_TIMEOUT, c.hid.ssr_host_min_timeout));
    assert(q23 == (PartialV { hid_ssr_host_min_timeout: c.hid.ssr_host_min_timeout, ..q22 }));

    (d23, pr23, q23)
}

/// Law: round trip. Decoding the encoding of any configuration succeeds, and
/// validating the decoded draft reproduces every field of the configuration.
#[verifier::rlimit(100)]
#[verifier::spinoff_prover]
pub proof fn lemma_round_trip(c: ConfigurationV)
    ensures
        spec_decode(spec_encode(c)) is Ok,
        spec_finalize(spec_decode(spec_encode(c))->Ok_0) == Ok::<ConfigurationV, ErrorV>(c),
{
    let attrs = spec_encode_attrs(c);
    let (da, pra, qa) = round_trip_head(c);
    let (db, prb, qb) = round_trip_middle(c, da, pra, qa);
    let (dc, prc, qc) = round_trip_tail(c, db, prb, qb);

    // The built run of attributes is exactly what the encoder emits.
    assert(attrs == dc);
    assert(to_attr_pairs(attrs) == Ok::<Seq<(u16, TagV)>, ErrorV>(prc));
    assert(spec_decode(spec_encode(c)) == Ok::<PartialV, ErrorV>(qc));

    // Validation reproduces every field.
    assert(qc.hid_lang_base_id_list[0].language == c.primary_language.hid_code);
    assert(qc.hid_lang_base_id_list.drop_first() =~= c.hid.additional_languages);
    assert(spec_finalize(qc)->Ok_0 =~= c);
}

/// Law: encode idempotence. The encoded tree is a function of the
/// configuration alone, so encoding the same configuration twice yields
/// structurally identical trees.
pub proof fn lemma_encode_idempotent(c1: ConfigurationV, c2: ConfigurationV)
    requires
        c1 == c2,
    ensures
        spec_encode(c1) == spec_encode(c2),
{
}

/// The pair each attribute carries: its id and its value.
pub open spec fn attr_pairs_of(children: Seq<TagV>) -> Seq<(u16, TagV)> {
    Seq::new(children.len(), |k: int| (children[k]->Attribute_0, *children[k]->Attribute_1))
}

/// A successful conversion into pairs means every child was an attribute and
/// each pair carries that attribute's id and value.
pub proof fn lemma_to_attr_pairs_ok(children: Seq<TagV>)
    requires
        to_attr_pairs(children) is Ok,
    ensures
        to_attr_pairs(children)->Ok_0 == attr_pairs_of(children),
        forall|k: int| 0 <= k < children.len() ==> #[trigger] children[k] is Attribute,
    decreases children.len(),
{
    if children.len() > 0 {
        assert(children[0] is Attribute);
        assert(to_attr_pairs(children.drop_first()) is Ok);
        lemma_to_attr_pairs_ok(children.drop_first());
        if let TagV::Attribute(id, value) = children[0] {
            assert forall|k: int| 0 <= k < children.len() implies #[trigger] children[k]
                is Attribute by {
                if k > 0 {
                    assert(children[k] == children.drop_first()[k - 1]);
                }
            }
            assert(to_attr_pairs(children)->Ok_0 =~= seq![(id, *value)] + attr_pairs_of(
                children.drop_first(),
            ));
            assert forall|k: int| 0 <= k < children.len() implies (seq![(id, *value)]
                + attr_pairs_of(children.drop_first()))[k] == attr_pairs_of(children)[k] by {
                if k > 0 {
                    assert(children[k] == children.drop_first()[k - 1]);
                }
            }
            assert(seq![(id, *value)] + attr_pairs_of(children.drop_first()) =~= attr_pairs_of(
                children,
            ));
        }
    } else {
        assert(to_attr_pairs(children)->Ok_0 =~= attr_pairs_of(children));
    }
}

/// A decode step that succeeds on a draft whose service name is already set
/// cannot be a Service Name attribute, and leaves the service name set.
#[verifier::rlimit(100)]
#[verifier::spinoff_prover]
proof fn lemma_step_keeps_service_name(p: PartialV, id: u16, v: TagV)
    requires
        decode_step(p, id, v) is Ok,
        p.service_name is Some,
    ensures
        id != ids::SERVICE_NAME,
        decode_step(p, id, v)->Ok_0.service_name is Some,
{
}

/// No run of attributes containing a Service Name attribute can decode
/// successfully from a draft whose service name is already set.
proof fn lemma_pairs_after_service_name(p: PartialV, pairs: Seq<(u16, TagV)>, j: int)
    requires
        p.service_name is Some,
        0 <= j < pairs.len(),
        pairs[j].0 == ids::SERVICE_NAME,
    ensures
        !(decode_pairs(p, pairs) is Ok),
    decreases pairs.len(),
{
    if decode_pairs(p, pairs) is Ok {
        lemma_step_keeps_service_name(p, pairs[0].0, pairs[0].1);
        if j > 0 {
            let q = decode_step(p, pairs[0].0, pairs[0].1)->Ok_0;
            lemma_pairs_after_service_name(q, pairs.drop_first(), j - 1);
        }
    }
}

/// Law: duplicate scalar detection. A record holding two Service Name
/// attributes never decodes successfully, whatever their values.
pub proof fn lemma_duplicate_service_name_rejected(children: Seq<TagV>, i: int, j: int)
    requires
        0 <= i < j < children.len(),
        children[i] is Attribute,
        children[i]->Attribute_0 == ids::SERVICE_NAME,
        children[j] is Attribute,
        children[j]->Attribute_0 == ids::SERVICE_NAME,
    ensures
        !(spec_decode(TagV::Record(children)) is Ok),
{
    if to_attr_pairs(children) is Ok {
        lemma_to_attr_pairs_ok(children);
        let pairs = to_attr_pairs(children)->Ok_0;
        if decode_pairs(empty_partial(), pairs) is Ok {
            assert(pairs.take(i) + pairs.skip(i) =~= pairs);
            lemma_decode_pairs_append(empty_partial(), pairs.take(i), pairs.skip(i));
            let qi = decode_pairs(empty_partial(), pairs.take(i))->Ok_0;
            assert(pairs.skip(i)[0] == pairs[i]);
            let q_next = decode_step(qi, pairs[i].0, pairs[i].1)->Ok_0;
            assert(q_next.service_name is Some);
            assert(pairs.skip(i).drop_first() =~= pairs.skip(i + 1));
            assert(pairs.skip(i + 1)[j - i - 1] == pairs[j]);
            lemma_pairs_after_service_name(q_next, pairs.skip(i + 1), j - i - 1);
        }
    }
}

/// Law: duplicate scalar detection. Once a service name stands in the draft,
/// a second Service Name attribute fails with the duplicate-attribute error
/// naming that attribute, whatever its text — even one equal to the first.
pub proof fn lemma_second_service_name_error(p: PartialV, s: Seq<char>)
    requires
        p.service_name is Some,
    ensures
        decode_step(p, ids::SERVICE_NAME, TagV::Text(s)) == Err::<PartialV, ErrorV>(
            ErrorV::DuplicateAttribute(ids::SERVICE_NAME, "Service Name"@),
        ),
{
}

/// Law: arity enforcement. A language base attribute id list whose sequence
/// does not have exactly three elements fails with a length-mismatch error
/// reporting the expected length of three and the actual length.
pub proof fn lemma_lang_base_id_list_wrong_arity(p: PartialV, s: Seq<TagV>)
    requires
        s.len() != 3,
    ensures
        decode_step(p, ids::LANGUAGE_BASE_ATTRIBUTE_ID_LIST, TagV::Sequence(s)) == Err::<
            PartialV,
            ErrorV,
        >(
            ErrorV::UnexpectedSequenceLen {
                attribute: ids::LANGUAGE_BASE_ATTRIBUTE_ID_LIST,
                expected: 3,
                actual: s.len(),
            },
        ),
{
}

/// Law: UUID enforcement. A profile descriptor list whose UUID is not the HID
/// service-class UUID fails with a UUID-mismatch error naming the expected
/// and the actual value.
pub proof fn lemma_profile_descriptor_wrong_uuid(p: PartialV, u: u128, version: TagV)
    requires
        u != ids::spec_uuid_from_u16(ids::HID_SERVICE_CLASS),
    ensures
        decode_step(
            p,
            ids::BLUETOOTH_PROFILE_DESCRIPTOR_LIST,
            TagV::Sequence(seq![TagV::Sequence(seq![TagV::Uuid(u), version])]),
        ) == Err::<PartialV, ErrorV>(
            ErrorV::UnexpectedUuid {
                attribute: ids::BLUETOOTH_PROFILE_DESCRIPTOR_LIST,
                expected: ids::spec_uuid_from_u16(ids::HID_SERVICE_CLASS),
                actual: u,
            },
        ),
{
}

/// Law: unknown-attribute tolerance. Inserting an attribute whose id is
/// outside the known registry anywhere into a record leaves the decode result
/// unchanged.
pub proof fn lemma_unknown_attribute_tolerated(a: Seq<TagV>, b: Seq<TagV>, id: u16, v: TagV)
    requires
        !known_attribute_id(id),
    ensures
        spec_decode(TagV::Record(a + seq![attr_v(id, v)] + b)) == spec_decode(
            TagV::Record(a + b),
        ),
{
    let s = seq![attr_v(id, v)];
    lemma_to_attr_pairs_append(a, s);
    lemma_to_attr_pairs_singleton(id, v);
    lemma_to_attr_pairs_append(a + s, b);
    lemma_to_attr_pairs_append(a, b);
    if let Ok(pa) = to_attr_pairs(a) {
        if let Ok(pb) = to_attr_pairs(b) {
            lemma_decode_pairs_append(empty_partial(), pa, seq![(id, v)] + pb);
            lemma_decode_pairs_append(empty_partial(), pa + seq![(id, v)], pb);
            lemma_decode_pairs_append(empty_partial(), pa, seq![(id, v)]);
            lemma_decode_pairs_append(empty_partial(), pa, pb);
            assert((pa + seq![(id, v)]) + pb =~= pa + (seq![(id, v)] + pb));
            if let Ok(q) = decode_pairs(empty_partial(), pa) {
                lemma_decode_pairs_singleton(q, id, v);
                lemma_unknown_attribute_ignored(q, id, v);
                assert((seq![(id, v)] + pb).drop_first() =~= pb);
                assert(decode_pairs(q, seq![(id, v)] + pb) == decode_pairs(q, pb));
            }
        }
    }
}

/// Law: missing required field. A draft that is complete but for the device
/// subclass fails validation with a completeness error naming it.
pub proof fn lemma_missing_device_subclass(p: PartialV)
    requires
        p.primary_language is Some,
        p.hid_lang_base_id_list.len() > 0,
        p.encoding is Some,
        p.version is Some,
        p.hid_device_subclass is None,
    ensures
        spec_finalize(p) == Err::<ConfigurationV, ErrorV>(
            ErrorV::MissingRecord("device subclass"@),
        ),
{
}

/// Law: missing required field. A draft that is complete but for the boot
/// device flag fails validation with a completeness error naming it.
pub proof fn lemma_missing_boot_device(p: PartialV)
    requires
        p.primary_language is Some,
        p.hid_lang_base_id_list.len() > 0,
        p.encoding is Some,
        p.version is Some,
        p.hid_device_subclass is Some,
        p.hid_country_code is Some,
        p.hid_virtual_cable is Some,
        p.hid_reconnect_initiate is Some,
        p.hid_boot_device is None,
    ensures
        spec_finalize(p) == Err::<ConfigurationV, ErrorV>(ErrorV::MissingRecord("boot device"@)),
{
}

/// Whether some attribute in the run carries the given id.
pub open spec fn contains_attr_id(s: Seq<TagV>, id: u16) -> bool {
    exists|k: int| 0 <= k < s.len() && s[k] is Attribute && #[trigger] s[k]->Attribute_0 == id
}

/// An id occurs in a concatenation exactly when it occurs in one of the parts.
pub proof fn lemma_contains_attr_id_append(a: Seq<TagV>, b: Seq<TagV>, id: u16)
    ensures
        contains_attr_id(a + b, id) <==> contains_attr_id(a, id) || contains_attr_id(b, id),
{
    if contains_attr_id(a + b, id) {
        let k = choose|k: int|
            0 <= k < (a + b).len() && (a + b)[k] is Attribute && #[trigger] (a
                + b)[k]->Attribute_0 == id;
        if k < a.len() {
            assert(a[k] is Attribute && a[k]->Attribute_0 == id);
        } else {
            assert(b[k - a.len()] is Attribute && b[k - a.len()]->Attribute_0 == id);
        }
    }
    if contains_attr_id(a, id) {
        let k = choose|k: int|
            0 <= k < a.len() && a[k] is Attribute && #[trigger] a[k]->Attribute_0 == id;
        assert((a + b)[k] is Attribute && (a + b)[k]->Attribute_0 == id);
    }
    if contains_attr_id(b, id) {
        let k = choose|k: int|
            0 <= k < b.len() && b[k] is Attribute && #[trigger] b[k]->Attribute_0 == id;
        assert((a + b)[k + a.len()] is Attribute && (a + b)[k + a.len()]->Attribute_0 == id);
    }
}

/// Law: optional-field omission. Encoding a configuration with no battery
/// power value produces an attribute run holding no battery power attribute
/// at all.
#[verifier::rlimit(100)]
#[verifier::spinoff_prover]
pub proof fn lemma_battery_power_omitted(c: ConfigurationV)
    requires
        c.hid.battery_power is None,
    ensures
        !contains_attr_id(spec_encode_attrs(c), ids::HID_BATTERY_POWER),
{
    let g1 = seq![
        crate::to_sdp::service_class_id_list_attr(),
        crate::to_sdp::protocol_descriptor_list_attr(),
        crate::to_sdp::browse_group_list_attr(),
        crate::to_sdp::language_base_id_list_attr(c),
        crate::to_sdp::additional_protocol_descriptor_lists_attr(),
    ];
    let t1 = opt_text_attr(ids::SERVICE_NAME, c.service_name);
    let t2 = opt_text_attr(ids::SERVICE_DESCRIPTION, c.service_description);
    let t3 = opt_text_attr(ids::PROVIDER_NAME, c.provider_name);
    let g2 = seq![
        crate::to_sdp::profile_descriptor_list_attr(c),
        attr_v(ids::HID_PARSER_VERSION, TagV::UInt16(ids::HID_PARSER_VERSION_VALUE)),
        attr_v(ids::HID_DEVICE_SUBCLASS, TagV::UInt8(c.hid.device_subclass)),
        attr_v(ids::HID_COUNTRY_CODE, TagV::UInt8(c.hid.country_code)),
        attr_v(ids::HID_VIRTUAL_CABLE, TagV::Boolean(c.hid.virtual_cable)),
        attr_v(ids::HID_RECONNECT_INITIATE, TagV::Boolean(c.hid.reconnect_initiate)),
        attr_v(
            ids::HID_DESCRIPTOR_LIST,
            TagV::Sequence(descriptor_entries_v(c.hid.class_descriptors)),
        ),
        attr_v(
            ids::HID_LANG_BASE_ATTRIBUTE,
            TagV::Sequence(
                lang_base_entries_v(c.primary_language.hid_code, c.hid.additional_languages),
            ),
        ),
    ];
    let o1 = opt_bool_attr(ids::HID_BATTERY_POWER, c.hid.battery_power);
    let o2 = opt_bool_attr(ids::HID_REMOTE_WAKE, c.hid.remote_wake);
    let o3 = opt_u16_attr(ids::HID_SUPERVISION_TIMEOUT, c.hid.supervision_timeout);
    let o4 = opt_bool_attr(ids::HID_NORMALLY_CONNECTABLE, c.hid.normally_connectable);
    let g3 = seq![attr_v(ids::HID_BOOT_DEVICE, TagV::Boolean(c.hid.boot_device))];
    let o5 = opt_u16_attr(ids::HID_SSR_HOST_MAX_LATENCY, c.hid.ssr_host_max_latency);
    let o6 = opt_u16_attr(ids::HID_SSR_HOST_MIN_TIMEOUT, c.hid.ssr_host_min_timeout);
    let id = ids::HID_BATTERY_POWER;

    lemma_contains_attr_id_append(g1, t1, id);
    lemma_contains_attr_id_append(g1 + t1, t2, id);
    lemma_contains_attr_id_append(g1 + t1 + t2, t3, id);
    lemma_contains_attr_id_append(g1 + t1 + t2 + t3, g2, id);
    lemma_contains_attr_id_append(g1 + t1 + t2 + t3 + g2, o1, id);
    lemma_contains_attr_id_append(g1 + t1 + t2 + t3 + g2 + o1, o2, id);
    lemma_contains_attr_id_append(g1 + t1 + t2 + t3 + g2 + o1 + o2, o3, id);
    lemma_contains_attr_id_append(g1 + t1 + t2 + t3 + g2 + o1 + o2 + o3, o4, id);
    lemma_contains_attr_id_append(g1 + t1 + t2 + t3 + g2 + o1 + o2 + o3 + o4, g3, id);
    lemma_contains_attr_id_append(g1 + t1 + t2 + t3 + g2 + o1 + o2 + o3 + o4 + g3, o5, id);
    lemma_contains_attr_id_append(g1 + t1 + t2 + t3 + g2 + o1 + o2 + o3 + o4 + g3 + o5, o6, id);

    assert(!contains_attr_id(g1, id));
    assert(!contains_attr_id(t1, id));
    assert(!contains_attr_id(t2, id));
    assert(!contains_attr_id(t3, id));
    assert(!contains_attr_id(g2, id));
    assert(!contains_attr_id(o1, id));
    assert(!contains_attr_id(o2, id));
    assert(!contains_attr_id(o3, id));
    assert(!contains_attr_id(o4, id));
    assert(!contains_attr_id(g3, id));
    assert(!contains_attr_id(o5, id));
    assert(!contains_attr_id(o6, id));
}

} // verus!
