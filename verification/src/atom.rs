pub mod entry;
pub mod feed;
pub mod metadata;

pub use entry::Entry;
pub use feed::Feed;
pub use metadata::Author;
pub use metadata::Category;
pub use metadata::Content;
pub use metadata::ContentValue;
pub use metadata::Contributor;
pub use metadata::Generator;
pub use metadata::Icon;
pub use metadata::Id;
pub use metadata::Link;
pub use metadata::Logo;
pub use metadata::Rights;
pub use metadata::SubTitle;
pub use metadata::Summary;
pub use metadata::Title;
pub use metadata::Updated;

use vstd::prelude::*;
use vstd::string::StringSliceAdditionalSpecFns;

use crate::common::attributes::AttributeMap;
use crate::error::XmlSerializeError;
use crate::serializer::element_close;
use crate::serializer::element_empty;
use crate::serializer::element_open;
use crate::serializer::escaped_text_step;
use crate::serializer::opt_attr_views;
use crate::serializer::step_write_line;
use crate::serializer::Serialize;
use crate::serializer::Write;
use crate::serializer::WriterModel;
use crate::serializer::XmlSerializer;

verus! {

/// The sink state after one child element holding escaped text and no
/// attributes.
pub open spec fn text_child(
    m: WriterModel,
    name: Seq<char>,
    ns: Option<Seq<char>>,
    value: Seq<u8>,
) -> WriterModel {
    element_close(
        step_write_line(escaped_text_step(element_open(m, name, ns, Seq::empty()), value), Seq::empty()),
        name,
        ns,
    )
}

/// The sink state after a whole sequence of values has written itself,
/// in order.
pub open spec fn render_all<T: Serialize>(
    items: Seq<T>,
    ns: Option<Seq<char>>,
    m: WriterModel,
) -> WriterModel
    decreases items.len(),
{
    if items.len() == 0 {
        m
    } else {
        items.last().rendered(ns, render_all(items.drop_last(), ns, m))
    }
}

/// A generic helper node: one element holding escaped text, or an empty
/// element when it has no text.
pub struct ElementNode<'a> {
    pub attributes: Option<&'a AttributeMap>,
    pub name: &'a str,
    pub value: Option<&'a str>,
}

impl<'a> Serialize for ElementNode<'a> {
    open spec fn rendered(&self, ns: Option<Seq<char>>, m: WriterModel) -> WriterModel {
        match self.value {
            Some(value) => element_close(
                step_write_line(
                    escaped_text_step(
                        element_open(m, self.name@, ns, opt_attr_views(self.attributes)),
                        value.spec_bytes(),
                    ),
                    Seq::empty(),
                ),
                self.name@,
                ns,
            ),
            None => element_empty(m, self.name@, ns, opt_attr_views(self.attributes)),
        }
    }

    open spec fn accepts(&self, ns: Option<Seq<char>>) -> bool {
        true
    }

    fn serialize<W: Write>(
        &self,
        serializer: &mut XmlSerializer<W>,
        namespace: Option<&str>,
    ) -> (r: Result<(), XmlSerializeError>) {
        match self.value {
            Some(value) => {
                let element = serializer.serialize_element(self.name, namespace, self.attributes)?;
                element.serialize_escaped_str(serializer, value)?;
                Ok(())
            },
            None => {
                serializer.serialize_empty_element(self.name, namespace, self.attributes)?;
                Ok(())
            },
        }
    }
}

} // verus!
