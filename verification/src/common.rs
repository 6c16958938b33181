pub mod attributes;
pub mod timestamp;

pub use attributes::Attribute;
pub use attributes::AttributeMap;
pub use attributes::AttributeMapIter;
pub use attributes::AttributeName;
pub use attributes::AttributeValue;
pub use timestamp::DateTime;
pub use timestamp::OffsetSymbol;
pub use timestamp::TimeStamp;
pub use timestamp::TimeZoneOffset;

use vstd::prelude::*;

verus! {

/// A piece of element text together with how it is to be embedded: as
/// escaped HTML, as raw XHTML, as escaped plain text, or as already
/// escaped text taken as it stands. The serializer sets the element's
/// `type` attribute accordingly.
pub enum XmlText<'a> {
    /// Raw HTML: `type="html"`, special characters escaped.
    Html(&'a str),
    /// XHTML: `type="xhtml"`, embedded as it stands.
    Xhtml(&'a str),
    /// Plain text: `type="text"`, special characters escaped.
    PlainText(&'a str),
    /// Already escaped HTML: `type="html"`, taken as it stands.
    HtmlUnchecked(&'a str),
    /// Already escaped text: `type="text"`, taken as it stands.
    PlainTextUnchecked(&'a str),
}

/// The `rel` attribute values a link can carry.
#[derive(Debug, Clone, Copy, PartialEq, Eq, Structural)]
pub enum LinkRelation {
    Alternate,
    Related,
    SelfRel,
    Enclosure,
    Via,
}

/// The text of a link relation.
pub open spec fn spec_link_relation_str(r: LinkRelation) -> Seq<char> {
    match r {
        LinkRelation::Alternate => "alternate"@,
        LinkRelation::Related => "related"@,
        LinkRelation::SelfRel => "self"@,
        LinkRelation::Enclosure => "enclosure"@,
        LinkRelation::Via => "via"@,
    }
}

impl LinkRelation {
    pub fn as_str(&self) -> (r: &'static str)
        ensures
            r@ == spec_link_relation_str(*self),
    {
        match self {
            LinkRelation::Alternate => "alternate",
            LinkRelation::Related => "related",
            LinkRelation::SelfRel => "self",
            LinkRelation::Enclosure => "enclosure",
            LinkRelation::Via => "via",
        }
    }
}

} // verus!
