//! The tagged-value tree that carries an SDP record on the wire.
//!
//! A generic parser/serializer outside this crate converts between raw bytes
//! and this tree; the codec in this crate works on the tree alone.

use vstd::prelude::*;

verus! {

broadcast use
    vstd::std_specs::vec::axiom_vec_decreases_to_view,
    vstd::seq::axiom_seq_index_decreases;

/// Mathematical model of a [`Tag`]: the same tree over `Seq` and `Seq<char>`.
#[verifier::ext_equal]
pub enum TagV {
    /// A whole SDP record: a sequence of attributes.
    Record(Seq<TagV>),
    /// One attribute: a 16-bit identifier and its value.
    Attribute(u16, Box<TagV>),
    /// An ordered sequence of values.
    Sequence(Seq<TagV>),
    /// A boolean leaf.
    Boolean(bool),
    /// An 8-bit unsigned integer leaf.
    UInt8(u8),
    /// A 16-bit unsigned integer leaf.
    UInt16(u16),
    /// A text leaf.
    Text(Seq<char>),
    /// A raw byte-string leaf.
    RawText(Seq<u8>),
    /// A UUID leaf, as its 128-bit value.
    Uuid(u128),
}

/// A tagged value of an SDP record: primitive leaves and composite nodes.
#[derive(Debug, PartialEq)]
pub enum Tag {
    /// A whole SDP record: a sequence of attributes.
    Record(Vec<Tag>),
    /// One attribute: a 16-bit identifier and its value.
    Attribute(u16, Box<Tag>),
    /// An ordered sequence of values.
    Sequence(Vec<Tag>),
    /// A boolean leaf.
    Boolean(bool),
    /// An 8-bit unsigned integer leaf.
    UInt8(u8),
    /// A 16-bit unsigned integer leaf.
    UInt16(u16),
    /// A text leaf.
    Text(String),
    /// A raw byte-string leaf.
    RawText(Vec<u8>),
    /// A UUID leaf, as its 128-bit value.
    Uuid(u128),
}

/// The mathematical value of a tag: the same tree over `Seq` and `Seq<char>`.
pub open spec fn tag_view(t: Tag) -> TagV
    decreases t,
{
    match t {
        Tag::Record(children) => TagV::Record(tag_seq_view(children@)),
        Tag::Attribute(id, value) => TagV::Attribute(id, Box::new(tag_view(*value))),
        Tag::Sequence(children) => TagV::Sequence(tag_seq_view(children@)),
        Tag::Boolean(value) => TagV::Boolean(value),
        Tag::UInt8(value) => TagV::UInt8(value),
        Tag::UInt16(value) => TagV::UInt16(value),
        Tag::Text(value) => TagV::Text(value@),
        Tag::RawText(value) => TagV::RawText(value@),
        Tag::Uuid(value) => TagV::Uuid(value),
    }
}

/// The mathematical value of each tag in a sequence.
pub open spec fn tag_seq_view(tags: Seq<Tag>) -> Seq<TagV>
    decreases tags,
{
    if tags.len() == 0 {
        Seq::empty()
    } else {
        seq![tag_view(tags[0])] + tag_seq_view(tags.drop_first())
    }
}

/// The deep view of a byte vector is its view.
pub broadcast proof fn lemma_byte_vec_deep_view(v: Vec<u8>)
    ensures
        #[trigger] v.deep_view() =~= v@,
{
}

/// `tag_seq_view` maps `tag_view` over the sequence, element by element.
pub broadcast proof fn lemma_tag_seq_view(tags: Seq<Tag>)
    ensures
        (#[trigger] tag_seq_view(tags)).len() == tags.len(),
        forall|i: int| 0 <= i < tags.len() ==> tag_seq_view(tags)[i] == tag_view(tags[i]),
    decreases tags.len(),
{
    if tags.len() > 0 {
        lemma_tag_seq_view(tags.drop_first());
    }
}

impl DeepView for Tag {
    type V = TagV;

    open spec fn deep_view(&self) -> TagV {
        tag_view(*self)
    }
}


impl Tag {
    /// The name of the tag's kind, for error messages.
    pub fn name(&self) -> (r: &'static str)
        ensures
            r@ == spec_tag_name(self.deep_view()),
    {
        match self {
            Tag::Record(_) => "record",
            Tag::Attribute(_, _) => "attribute",
            Tag::Sequence(_) => "sequence",
            Tag::Boolean(_) => "boolean",
            Tag::UInt8(_) => "uint8",
            Tag::UInt16(_) => "uint16",
            Tag::Text(_) => "text",
            Tag::RawText(_) => "raw text",
            Tag::Uuid(_) => "uuid",
        }
    }
}

/// The name of a tag kind, for error messages.
pub open spec fn spec_tag_name(t: TagV) -> Seq<char> {
    match t {
        TagV::Record(_) => "record"@,
        TagV::Attribute(_, _) => "attribute"@,
        TagV::Sequence(_) => "sequence"@,
        TagV::Boolean(_) => "boolean"@,
        TagV::UInt8(_) => "uint8"@,
        TagV::UInt16(_) => "uint16"@,
        TagV::Text(_) => "text"@,
        TagV::RawText(_) => "raw text"@,
        TagV::Uuid(_) => "uuid"@,
    }
}

} // verus!
